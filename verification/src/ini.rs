//! The per-wiki configuration file: a line-oriented render of fixed
//! `KEY="value"` pairs, the idempotent bootstrap-flag flip, and the slug
//! marker file. Every value is emitted quoted, which satisfies the rule
//! that any value with a non-alphanumeric character must be quoted.

use vstd::prelude::*;
use crate::strutil::{append_str, str_to_chars, chars_to_string};

verus! {

/// A failure of the configuration step, as the callers report it.
#[derive(Debug)]
pub enum IniError {
    Io(String),
    Ini(String),
}

/// Everything the per-wiki configuration file is rendered from.
#[derive(Debug)]
pub struct WikiIniConfig {
    pub name: String,
    pub slug: String,
    pub language: String,
    pub wiki_host: String,
    pub db_host: String,
    pub db_name: String,
    pub db_user: String,
    pub db_password: String,
    pub shared_db_name: String,
    pub opensearch_user: String,
    pub opensearch_transport: String,
    pub opensearch_port: String,
    pub opensearch_password: String,
    pub opensearch_endpoint: String,
    pub redis_password: String,
    pub redis_server: String,
    pub wiki_aws_region: String,
}

/// One configuration line: `KEY="value"` and a newline.
pub open spec fn spec_ini_line(key: Seq<char>, value: Seq<char>) -> Seq<char> {
    key + "=\""@ + value + "\"\n"@
}

/// The site namespace: the wiki name with spaces turned to underscores.
pub open spec fn spec_space_to_underscore(s: Seq<char>) -> Seq<char> {
    s.map_values(|c: char| if c == ' ' { '_' } else { c })
}

/// The public URL of a wiki: `https://<slug>.<host>`.
pub open spec fn spec_host_url(slug: Seq<char>, host: Seq<char>) -> Seq<char> {
    "https://"@ + slug + "."@ + host
}

/// The bootstrap flag line for a given value.
pub open spec fn spec_bootstrap_line(value: bool) -> Seq<char> {
    spec_ini_line("WIKI_BOOTSTRAPING"@, if value { "true"@ } else { "false"@ })
}

/// The whole configuration file for a wiki, in fixed key order, ending
/// with the bootstrap flag and the debugging flag.
pub open spec fn spec_render_ini(cfg: &WikiIniConfig, bootstrapping: bool) -> Seq<char> {
    spec_ini_line("WIKI_SITE_NAME"@, cfg.name@)
    + spec_ini_line("WIKI_HOST_URL"@, spec_host_url(cfg.slug@, cfg.wiki_host@))
    + spec_ini_line("WIKI_HOST"@, cfg.wiki_host@)
    + spec_ini_line("WIKI_META_NAMESPACE"@, spec_space_to_underscore(cfg.name@))
    + spec_ini_line("WIKI_DB_HOST"@, cfg.db_host@)
    + spec_ini_line("WIKI_DB_NAME"@, cfg.db_name@)
    + spec_ini_line("WIKI_DB_USER"@, cfg.db_user@)
    + spec_ini_line("WIKI_DB_PASSWORD"@, cfg.db_password@)
    + spec_ini_line("WIKI_SHARED_DB_NAME"@, cfg.shared_db_name@)
    + spec_ini_line("WIKI_LANG"@, cfg.language@)
    + spec_ini_line("WIKI_AWS_REGION"@, cfg.wiki_aws_region@)
    + spec_ini_line("OPENSEARCH_USER"@, cfg.opensearch_user@)
    + spec_ini_line("OPENSEARCH_PORT"@, cfg.opensearch_port@)
    + spec_ini_line("OPENSEARCH_TRANSPORT"@, cfg.opensearch_transport@)
    + spec_ini_line("OPENSEARCH_PASSWORD"@, cfg.opensearch_password@)
    + spec_ini_line("OPENSEARCH_ENDPOINT"@, cfg.opensearch_endpoint@)
    + spec_ini_line("REDIS_PASSWORD"@, cfg.redis_password@)
    + spec_ini_line("REDIS_SERVER"@, cfg.redis_server@)
    + spec_bootstrap_line(bootstrapping)
    + spec_ini_line("WIKI_DEBUGGING"@, "true"@)
}

fn append_ini_line(out: &mut Vec<char>, key: &str, value: &str)
    ensures
        final(out)@ == old(out)@ + spec_ini_line(key@, value@),
{
    append_str(out, key);
    append_str(out, "=\"");
    append_str(out, value);
    append_str(out, "\"\n");
    proof {
        assert(final(out)@ =~= old(out)@ + spec_ini_line(key@, value@));
    }
}

fn space_to_underscore(s: &str) -> (r: Vec<char>)
    ensures
        r@ == spec_space_to_underscore(s@),
{
    let v = str_to_chars(s);
    let mut r: Vec<char> = Vec::new();
    let mut i: usize = 0;
    while i < v.len()
        invariant
            i <= v@.len(),
            v@ == s@,
            r@ == spec_space_to_underscore(s@.subrange(0, i as int)),
        decreases v@.len() - i,
    {
        let c = v[i];
        r.push(if c == ' ' { '_' } else { c });
        proof {
            assert(r@ =~= spec_space_to_underscore(s@.subrange(0, i + 1 as int)));
        }
        i = i + 1;
    }
    proof {
        assert(s@.subrange(0, s@.len() as int) =~= s@);
    }
    r
}

/// Renders the whole configuration file, exactly as `spec_render_ini`
/// states it: fixed keys in order, every value quoted, the bootstrap flag
/// set to the given value.
pub fn render_pubwiki_ini(cfg: &WikiIniConfig, bootstrapping: bool) -> (r: String)
    ensures
        r@ == spec_render_ini(cfg, bootstrapping),
{
    let mut out: Vec<char> = Vec::new();
    append_ini_line(&mut out, "WIKI_SITE_NAME", cfg.name.as_str());
    let mut url: Vec<char> = Vec::new();
    append_str(&mut url, "https://");
    append_str(&mut url, cfg.slug.as_str());
    append_str(&mut url, ".");
    append_str(&mut url, cfg.wiki_host.as_str());
    proof {
        assert(url@ =~= spec_host_url(cfg.slug@, cfg.wiki_host@));
    }
    let url_s = chars_to_string(&url);
    append_ini_line(&mut out, "WIKI_HOST_URL", url_s.as_str());
    append_ini_line(&mut out, "WIKI_HOST", cfg.wiki_host.as_str());
    let ns = space_to_underscore(cfg.name.as_str());
    let ns_s = chars_to_string(&ns);
    append_ini_line(&mut out, "WIKI_META_NAMESPACE", ns_s.as_str());
    append_ini_line(&mut out, "WIKI_DB_HOST", cfg.db_host.as_str());
    append_ini_line(&mut out, "WIKI_DB_NAME", cfg.db_name.as_str());
    append_ini_line(&mut out, "WIKI_DB_USER", cfg.db_user.as_str());
    append_ini_line(&mut out, "WIKI_DB_PASSWORD", cfg.db_password.as_str());
    append_ini_line(&mut out, "WIKI_SHARED_DB_NAME", cfg.shared_db_name.as_str());
    append_ini_line(&mut out, "WIKI_LANG", cfg.language.as_str());
    append_ini_line(&mut out, "WIKI_AWS_REGION", cfg.wiki_aws_region.as_str());
    append_ini_line(&mut out, "OPENSEARCH_USER", cfg.opensearch_user.as_str());
    append_ini_line(&mut out, "OPENSEARCH_PORT", cfg.opensearch_port.as_str());
    append_ini_line(&mut out, "OPENSEARCH_TRANSPORT", cfg.opensearch_transport.as_str());
    append_ini_line(&mut out, "OPENSEARCH_PASSWORD", cfg.opensearch_password.as_str());
    append_ini_line(&mut out, "OPENSEARCH_ENDPOINT", cfg.opensearch_endpoint.as_str());
    append_ini_line(&mut out, "REDIS_PASSWORD", cfg.redis_password.as_str());
    append_ini_line(&mut out, "REDIS_SERVER", cfg.redis_server.as_str());
    append_ini_line(&mut out, "WIKI_BOOTSTRAPING", if bootstrapping { "true" } else { "false" });
    append_ini_line(&mut out, "WIKI_DEBUGGING", "true");
    proof {
        assert(out@ =~= spec_render_ini(cfg, bootstrapping));
    }
    chars_to_string(&out)
}

/// A completed provision leaves the bootstrap flag off: the final render,
/// made with the flag false, ends with the line `WIKI_BOOTSTRAPING="false"`
/// followed only by the fixed debugging line.
pub proof fn lemma_final_render_bootstrap_off(cfg: &WikiIniConfig)
    ensures
        (spec_bootstrap_line(false) + spec_ini_line("WIKI_DEBUGGING"@, "true"@)).is_suffix_of(
            spec_render_ini(cfg, false),
        ),
{
    let tail = spec_bootstrap_line(false) + spec_ini_line("WIKI_DEBUGGING"@, "true"@);
    let whole = spec_render_ini(cfg, false);
    assert(whole.subrange(
        whole.len() - tail.len(),
        whole.len() as int,
    ) =~= tail);
}

/// The path of a wiki's configuration file: `<config_dir>/<slug>/pubwiki.ini`.
pub fn ini_path(config_dir: &str, slug: &str) -> (r: String)
    ensures
        r@ == config_dir@ + "/"@ + slug@ + "/pubwiki.ini"@,
{
    let mut out: Vec<char> = Vec::new();
    append_str(&mut out, config_dir);
    append_str(&mut out, "/");
    append_str(&mut out, slug);
    append_str(&mut out, "/pubwiki.ini");
    chars_to_string(&out)
}

/// The slug-scoped configuration directory: `<config_dir>/<slug>`.
pub fn ini_dir(config_dir: &str, slug: &str) -> (r: String)
    ensures
        r@ == config_dir@ + "/"@ + slug@,
{
    let mut out: Vec<char> = Vec::new();
    append_str(&mut out, config_dir);
    append_str(&mut out, "/");
    append_str(&mut out, slug);
    chars_to_string(&out)
}

/// The content of the slug marker file: one line `WIKI_SLUG=<slug>`.
pub fn slug_marker_text(slug: &str) -> (r: String)
    ensures
        r@ == "WIKI_SLUG="@ + slug@ + "\n"@,
{
    let mut out: Vec<char> = Vec::new();
    append_str(&mut out, "WIKI_SLUG=");
    append_str(&mut out, slug);
    append_str(&mut out, "\n");
    proof {
        assert(out@ =~= "WIKI_SLUG="@ + slug@ + "\n"@);
    }
    chars_to_string(&out)
}

/// The length of the first line of `s`, its newline included; the whole
/// sequence when no newline remains.
pub open spec fn spec_line_len(s: Seq<char>) -> int
    decreases s.len(),
{
    if s.len() == 0 {
        0
    } else if s[0] == '\n' {
        1
    } else {
        1 + spec_line_len(s.skip(1))
    }
}

/// The first line of `s`, normalized to end with a newline.
pub open spec fn spec_first_line(s: Seq<char>) -> Seq<char> {
    let l = s.take(spec_line_len(s));
    if l.len() > 0 && l[l.len() - 1] == '\n' {
        l
    } else {
        l + "\n"@
    }
}

/// The configuration text with its bootstrap flag set: the first line
/// keyed `WIKI_BOOTSTRAPING` is replaced, other lines are kept (a final
/// line without a newline gains one), and the line is appended when no
/// line has the key.
pub open spec fn spec_set_bootstrapping(s: Seq<char>, value: bool) -> Seq<char>
    decreases s.len(),
    via spec_set_bootstrapping_decreases
{
    if s.len() == 0 {
        spec_bootstrap_line(value)
    } else if "WIKI_BOOTSTRAPING="@.is_prefix_of(s) {
        spec_bootstrap_line(value) + s.skip(spec_line_len(s))
    } else {
        spec_first_line(s) + spec_set_bootstrapping(s.skip(spec_line_len(s)), value)
    }
}

/// The first line of a non-empty text has at least one character and no
/// more than the whole text.
proof fn lemma_line_len_bounds(s: Seq<char>)
    requires
        s.len() > 0,
    ensures
        1 <= spec_line_len(s) <= s.len(),
    decreases s.len(),
{
    if s[0] != '\n' {
        if s.len() > 1 {
            lemma_line_len_bounds(s.skip(1));
        } else {
            assert(s.skip(1).len() == 0);
            assert(spec_line_len(s.skip(1)) == 0);
        }
    }
}

#[via_fn]
proof fn spec_set_bootstrapping_decreases(s: Seq<char>, value: bool) {
    if s.len() > 0 {
        lemma_line_len_bounds(s);
    }
}

/// Sets the bootstrap flag in an existing configuration text, exactly as
/// `spec_set_bootstrapping` states it.
pub fn set_bootstrapping(contents: &str, value: bool) -> (r: String)
    ensures
        r@ == spec_set_bootstrapping(contents@, value),
{
    let v = str_to_chars(contents);
    let mut out: Vec<char> = Vec::new();
    let mut i: usize = 0;
    proof {
        assert(v@.skip(0) =~= v@);
    }
    while i < v.len()
        invariant
            i <= v@.len(),
            v@ == contents@,
            spec_set_bootstrapping(contents@, value) == out@ + spec_set_bootstrapping(
                v@.skip(i as int),
                value,
            ),
        decreases v@.len() - i,
    {
        let ghost s_i = v@.skip(i as int);
        let ghost out_at_line = out@;
        if let Some(_j) = crate::strutil::try_lit(&v, i, "WIKI_BOOTSTRAPING=") {
            // Replace this line and keep the rest unchanged.
            let mut k = i;
            while k < v.len() && v[k] != '\n'
                invariant
                    i <= k <= v@.len(),
                    forall|t: int| i <= t < k ==> v@[t] != '\n',
                decreases v@.len() - k,
            {
                k = k + 1;
            }
            let rest_start = if k < v.len() { k + 1 } else { k };
            proof {
                assert(forall|t: int| 0 <= t < k - i ==> s_i[t] == v@[i + t]);
                lemma_line_len_at(s_i, (k - i) as int);
                assert(v@.skip(rest_start as int) =~= s_i.skip(spec_line_len(s_i)));
            }
            append_str(&mut out, "WIKI_BOOTSTRAPING=\"");
            append_str(&mut out, if value { "true" } else { "false" });
            append_str(&mut out, "\"\n");
            proof {
                reveal_strlit("WIKI_BOOTSTRAPING=\"");
                reveal_strlit("WIKI_BOOTSTRAPING");
                reveal_strlit("=\"");
                reveal_strlit("\"\n");
                reveal_strlit("true");
                reveal_strlit("false");
                assert(out@ =~= out_at_line + spec_bootstrap_line(value));
            }
            let ghost base = out@;
            let mut t = rest_start;
            while t < v.len()
                invariant
                    rest_start <= t <= v@.len(),
                    out@ == base + v@.subrange(rest_start as int, t as int),
                decreases v@.len() - t,
            {
                out.push(v[t]);
                proof {
                    assert(out@ =~= base + v@.subrange(rest_start as int, t + 1 as int));
                }
                t = t + 1;
            }
            proof {
                assert(v@.subrange(rest_start as int, v@.len() as int) =~= v@.skip(
                    rest_start as int,
                ));
                assert(spec_set_bootstrapping(s_i, value) == spec_bootstrap_line(value) + s_i.skip(
                    spec_line_len(s_i),
                ));
                assert(out@ =~= out_at_line + spec_set_bootstrapping(s_i, value));
                assert(out@ =~= spec_set_bootstrapping(contents@, value));
            }
            return chars_to_string(&out);
        }
        // Keep this line, normalizing a missing final newline.
        let ghost base = out@;
        let mut k = i;
        while k < v.len() && v[k] != '\n'
            invariant
                i <= k <= v@.len(),
                forall|t: int| i <= t < k ==> v@[t] != '\n',
                out@ == base + v@.subrange(i as int, k as int),
            decreases v@.len() - k,
        {
            out.push(v[k]);
            proof {
                assert(out@ =~= base + v@.subrange(i as int, k + 1 as int));
            }
            k = k + 1;
        }
        let next = if k < v.len() { k + 1 } else { k };
        out.push('\n');
        proof {
            reveal_strlit("\n");
            assert(forall|t: int| 0 <= t < k - i ==> s_i[t] == v@[i + t]);
            lemma_line_len_at(s_i, (k - i) as int);
            assert(v@.skip(next as int) =~= s_i.skip(spec_line_len(s_i)));
            if (k as int) < v@.len() {
                assert(s_i.take(spec_line_len(s_i)) =~= v@.subrange(i as int, k as int) + seq![
                    '\n',
                ]);
                assert(spec_first_line(s_i) =~= v@.subrange(i as int, k as int) + seq!['\n']);
            } else {
                assert(s_i.take(spec_line_len(s_i)) =~= v@.subrange(i as int, k as int));
                assert(s_i.take(spec_line_len(s_i)).len() > 0);
                assert(spec_first_line(s_i) =~= v@.subrange(i as int, k as int) + "\n"@);
            }
            assert(out@ =~= base + spec_first_line(s_i));
            assert(spec_set_bootstrapping(s_i, value) == spec_first_line(s_i)
                + spec_set_bootstrapping(s_i.skip(spec_line_len(s_i)), value));
            assert(out@ + spec_set_bootstrapping(v@.skip(next as int), value)
                =~= base + spec_set_bootstrapping(s_i, value));
        }
        i = next;
    }
    let ghost out_end = out@;
    append_str(&mut out, "WIKI_BOOTSTRAPING=\"");
    append_str(&mut out, if value { "true" } else { "false" });
    append_str(&mut out, "\"\n");
    proof {
        reveal_strlit("WIKI_BOOTSTRAPING=\"");
        reveal_strlit("WIKI_BOOTSTRAPING");
        reveal_strlit("=\"");
        reveal_strlit("\"\n");
        reveal_strlit("true");
        reveal_strlit("false");
        assert(v@.skip(i as int).len() == 0);
        assert(spec_set_bootstrapping(v@.skip(i as int), value) == spec_bootstrap_line(value));
        assert(out@ =~= out_end + spec_bootstrap_line(value));
        assert(out@ =~= spec_set_bootstrapping(contents@, value));
    }
    chars_to_string(&out)
}

/// A scan that found the first newline at position `n` (or none, with
/// `n` the length) found the first line's extent.
proof fn lemma_line_len_at(s: Seq<char>, n: int)
    requires
        0 <= n <= s.len(),
        forall|t: int| 0 <= t < n ==> s[t] != '\n',
        n < s.len() ==> s[n] == '\n',
    ensures
        spec_line_len(s) == if n < s.len() { n + 1 } else { n },
    decreases n,
{
    if s.len() == 0 {
    } else if s[0] == '\n' {
        assert(n == 0);
    } else {
        assert(n >= 1);
        let st = s.skip(1);
        assert(forall|t: int| 0 <= t < n - 1 ==> st[t] == s[t + 1]);
        assert(n - 1 < st.len() ==> st[n - 1] == s[n]);
        lemma_line_len_at(st, n - 1);
    }
}

} // verus!
