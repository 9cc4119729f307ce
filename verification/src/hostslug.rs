//! Extracting the wiki slug from a forwarded host header: the host is
//! trimmed, reduced to its first comma-separated part, stripped of a
//! numeric port, and must lie under the configured wiki host; the slug
//! is the right-most label before that suffix and must pass the slug
//! pattern.

use vstd::prelude::*;
use crate::error::ApiError;
use crate::strutil::{spec_trim, trim_ascii, is_digit, chars_to_string};
use crate::validate::{spec_valid_slug, is_valid_slug};

verus! {

/// The slug a request addresses, as carried by its host header.
#[derive(Debug)]
pub struct Slug(pub String);

/// The first index of `c` in `s`, or the length when absent.
pub open spec fn spec_index_of(s: Seq<char>, c: char) -> int
    decreases s.len(),
{
    if s.len() == 0 {
        0
    } else if s[0] == c {
        0
    } else {
        1 + spec_index_of(s.skip(1), c)
    }
}

/// The last index of `c` in `s`, or -1 when absent.
pub open spec fn spec_rindex_of(s: Seq<char>, c: char) -> int
    decreases s.len(),
{
    if s.len() == 0 {
        -1
    } else if s.last() == c {
        s.len() - 1
    } else {
        spec_rindex_of(s.drop_last(), c)
    }
}

/// The last index whose character is not `c`, or -1 when all are `c`.
pub open spec fn spec_rlast_not(s: Seq<char>, c: char) -> int
    decreases s.len(),
{
    if s.len() == 0 {
        -1
    } else if s.last() != c {
        s.len() - 1
    } else {
        spec_rlast_not(s.drop_last(), c)
    }
}

/// The host after keeping only the part before the first comma, trimmed.
pub open spec fn spec_before_comma(h: Seq<char>) -> Seq<char> {
    if spec_index_of(h, ',') < h.len() {
        spec_trim(h.take(spec_index_of(h, ',')))
    } else {
        h
    }
}

/// The host after dropping a trailing `:port` whose port is digits only.
pub open spec fn spec_drop_port(h: Seq<char>) -> Seq<char> {
    if spec_rindex_of(h, ':') >= 0 && (forall|i: int|
        spec_rindex_of(h, ':') < i < h.len() ==> is_digit(#[trigger] h[i])) {
        h.take(spec_rindex_of(h, ':'))
    } else {
        h
    }
}

/// The normalized host of a request: trimmed, first comma part, port
/// dropped.
pub open spec fn spec_request_host(raw: Seq<char>) -> Seq<char> {
    spec_drop_port(spec_before_comma(spec_trim(raw)))
}

/// The part of the host before the wiki-host suffix, without a trailing
/// dot.
pub open spec fn spec_rest_before(host: Seq<char>, sfx: Seq<char>) -> Seq<char> {
    if host.take(host.len() - sfx.len()).len() > 0 && host.take(host.len() - sfx.len()).last()
        == '.' {
        host.take(host.len() - sfx.len()).drop_last()
    } else {
        host.take(host.len() - sfx.len())
    }
}

/// The right-most non-empty dot-separated label of `rest`, if any.
pub open spec fn spec_last_label(rest: Seq<char>) -> Option<Seq<char>> {
    if spec_rlast_not(rest, '.') >= 0 {
        Some(rest.subrange(
            spec_rindex_of(rest.take(spec_rlast_not(rest, '.') + 1), '.') + 1,
            spec_rlast_not(rest, '.') + 1,
        ))
    } else {
        None
    }
}

proof fn lemma_index_of_at(s: Seq<char>, c: char, k: int)
    requires
        0 <= k <= s.len(),
        forall|t: int| 0 <= t < k ==> s[t] != c,
        k < s.len() ==> s[k] == c,
    ensures
        spec_index_of(s, c) == k,
    decreases k,
{
    if s.len() == 0 {
    } else if k == 0 {
    } else {
        let t = s.skip(1);
        assert(forall|m: int| 0 <= m < k - 1 ==> t[m] == s[m + 1]);
        assert(k - 1 < t.len() ==> t[k - 1] == s[k]);
        lemma_index_of_at(t, c, k - 1);
    }
}

proof fn lemma_rindex_of_at(s: Seq<char>, c: char, k: int)
    requires
        -1 <= k < s.len(),
        k >= 0 ==> s[k] == c,
        forall|t: int| k < t < s.len() ==> s[t] != c,
    ensures
        spec_rindex_of(s, c) == k,
    decreases s.len(),
{
    if s.len() == 0 {
    } else if k == s.len() - 1 {
    } else {
        assert(s.last() != c);
        let t = s.drop_last();
        assert(forall|m: int| k < m < t.len() ==> t[m] == s[m]);
        lemma_rindex_of_at(t, c, k);
    }
}

proof fn lemma_rlast_not_at(s: Seq<char>, c: char, k: int)
    requires
        -1 <= k < s.len(),
        k >= 0 ==> s[k] != c,
        forall|t: int| k < t < s.len() ==> s[t] == c,
    ensures
        spec_rlast_not(s, c) == k,
    decreases s.len(),
{
    if s.len() == 0 {
    } else if k == s.len() - 1 {
    } else {
        assert(s.last() == c);
        let t = s.drop_last();
        assert(forall|m: int| k < m < t.len() ==> t[m] == s[m]);
        lemma_rlast_not_at(t, c, k);
    }
}

/// The first index of `c` in `v`, or the length when absent.
fn index_of(v: &Vec<char>, c: char) -> (r: usize)
    ensures
        r as int == spec_index_of(v@, c),
        r <= v@.len(),
{
    let mut i: usize = 0;
    while i < v.len()
        invariant
            i <= v@.len(),
            forall|t: int| 0 <= t < i ==> v@[t] != c,
        decreases v@.len() - i,
    {
        if v[i] == c {
            proof {
                lemma_index_of_at(v@, c, i as int);
            }
            return i;
        }
        i = i + 1;
    }
    proof {
        lemma_index_of_at(v@, c, i as int);
    }
    i
}

/// The index just after the last `c` in `v`; zero when absent.
fn rindex_of_plus1(v: &Vec<char>, c: char) -> (r: usize)
    ensures
        r as int == spec_rindex_of(v@, c) + 1,
        r <= v@.len(),
{
    let mut i: usize = v.len();
    while i > 0
        invariant
            i <= v@.len(),
            forall|t: int| i <= t < v@.len() ==> v@[t] != c,
        decreases i,
    {
        if v[i - 1] == c {
            proof {
                lemma_rindex_of_at(v@, c, i - 1);
            }
            return i;
        }
        i = i - 1;
    }
    proof {
        lemma_rindex_of_at(v@, c, -1);
    }
    0
}

/// The index just after the last non-`c` character; zero when all `c`.
fn rlast_not_plus1(v: &Vec<char>, c: char) -> (r: usize)
    ensures
        r as int == spec_rlast_not(v@, c) + 1,
        r <= v@.len(),
{
    let mut i: usize = v.len();
    while i > 0
        invariant
            i <= v@.len(),
            forall|t: int| i <= t < v@.len() ==> v@[t] == c,
        decreases i,
    {
        if v[i - 1] != c {
            proof {
                lemma_rlast_not_at(v@, c, i - 1);
            }
            return i;
        }
        i = i - 1;
    }
    proof {
        lemma_rlast_not_at(v@, c, -1);
    }
    0
}

fn subvec(v: &Vec<char>, a: usize, b: usize) -> (r: Vec<char>)
    requires
        a <= b <= v@.len(),
    ensures
        r@ == v@.subrange(a as int, b as int),
{
    let mut r: Vec<char> = Vec::new();
    let mut k: usize = a;
    while k < b
        invariant
            a <= k <= b <= v@.len(),
            r@ == v@.subrange(a as int, k as int),
        decreases b - k,
    {
        r.push(v[k]);
        proof {
            assert(r@ =~= v@.subrange(a as int, k + 1 as int));
        }
        k = k + 1;
    }
    r
}

/// Extracts the slug from a forwarded host header against the configured
/// wiki host. The host is normalized as `spec_request_host` states; a
/// missing wiki host rejects with 500, a host equal to the wiki host or
/// without a label rejects with 400 `no_slug`, a host outside the wiki
/// host rejects with 400 `host_mismatch`, and a label that fails the
/// slug pattern rejects with 400 `param_invalid`.
pub fn slug_from_host(raw: &str, wiki_host: &str) -> (r: Result<Slug, ApiError>)
    ensures
        ({
            let host = spec_request_host(raw@);
            let sfx = spec_trim(wiki_host@);
            &&& (sfx.len() == 0 ==> (r matches Err(e) && e.status == 500 && e.code@ == "env"@))
            &&& (sfx.len() > 0 && host == sfx ==> (r matches Err(e) && e.status == 400
                && e.code@ == "no_slug"@))
            &&& (sfx.len() > 0 && host != sfx && !sfx.is_suffix_of(host) ==> (r matches Err(e)
                && e.status == 400 && e.code@ == "host_mismatch"@))
            &&& (sfx.len() > 0 && host != sfx && sfx.is_suffix_of(host) ==> (match spec_last_label(
                spec_rest_before(host, sfx),
            ) {
                None => r matches Err(e) && e.status == 400 && e.code@ == "no_slug"@,
                Some(sl) => {
                    if spec_valid_slug(sl) {
                        r matches Ok(s) && s.0@ == sl
                    } else {
                        r matches Err(e) && e.status == 400 && e.code@ == "param_invalid"@
                    }
                },
            }))
        }),
{
    // Normalize the host: trim, first comma part, drop a numeric port.
    let t0 = trim_ascii(raw);
    let ci = index_of(&t0, ',');
    let host1: Vec<char> = if ci < t0.len() {
        let part = subvec(&t0, 0, ci);
        let part_s = chars_to_string(&part);
        trim_ascii(part_s.as_str())
    } else {
        t0
    };
    let pi = rindex_of_plus1(&host1, ':');
    let mut all_digits = pi > 0;
    let mut k: usize = pi;
    while k < host1.len()
        invariant
            pi <= k <= host1@.len() || (pi > host1@.len() && k == pi),
            pi as int == spec_rindex_of(host1@, ':') + 1,
            all_digits == (pi > 0 && forall|t: int| pi <= t < k ==> is_digit(
                #[trigger] host1@[t],
            )),
        decreases host1@.len() - k,
    {
        if !('0' <= host1[k] && host1[k] <= '9') {
            all_digits = false;
        }
        k = k + 1;
    }
    let host: Vec<char> = if all_digits {
        proof {
            assert(spec_rindex_of(host1@, ':') >= 0);
        }
        subvec(&host1, 0, pi - 1)
    } else {
        host1
    };
    proof {
        assert(host@ == spec_request_host(raw@));
    }
    // The configured wiki host is the required suffix.
    let sfx = trim_ascii(wiki_host);
    if sfx.len() == 0 {
        return Err(ApiError::new(500, "env", String::from_str("WIKI_HOST not set")));
    }
    // A host equal to the suffix has no slug; one not under it mismatches.
    if host.len() < sfx.len() {
        proof {
            assert(!sfx@.is_suffix_of(host@));
            assert(host@ != sfx@);
        }
        return Err(ApiError::new(400, "host_mismatch", String::from_str(
            "host not under WIKI_HOST",
        )));
    }
    let mut same = true;
    let mut m: usize = 0;
    let hlen = host.len();
    let slen = sfx.len();
    let off = hlen - slen;
    while m < slen
        invariant
            m <= slen,
            hlen == host@.len(),
            slen == sfx@.len(),
            off + slen == hlen,
            same == (forall|t: int| 0 <= t < m ==> host@[off + t] == sfx@[t]),
        decreases slen - m,
    {
        if host[off + m] != sfx[m] {
            same = false;
        }
        m = m + 1;
    }
    if !same {
        proof {
            if sfx@.is_suffix_of(host@) {
                let w = choose|w: int| 0 <= w < sfx@.len() && host@[off + w] != sfx@[w];
                assert(host@.subrange(off as int, host@.len() as int)[w] == sfx@[w]);
            }
        }
        return Err(ApiError::new(400, "host_mismatch", String::from_str(
            "host not under WIKI_HOST",
        )));
    }
    proof {
        assert(host@.subrange(off as int, host@.len() as int) =~= sfx@);
        assert(sfx@.is_suffix_of(host@));
    }
    if host.len() == sfx.len() {
        proof {
            assert(host@ =~= sfx@);
        }
        return Err(ApiError::new(400, "no_slug", String::from_str("root host has no slug")));
    }
    proof {
        if host@ == sfx@ {
            assert(host@.len() == sfx@.len());
        }
    }
    // Strip the suffix and a trailing dot; the slug is the last label.
    let base = subvec(&host, 0, off);
    let rest: Vec<char> = if base.len() > 0 && base[base.len() - 1] == '.' {
        proof {
            assert(base@.drop_last() =~= host@.subrange(0, off - 1 as int));
        }
        subvec(&host, 0, off - 1)
    } else {
        base
    };
    proof {
        assert(rest@ == spec_rest_before(host@, sfx@));
    }
    let e = rlast_not_plus1(&rest, '.');
    if e == 0 {
        return Err(ApiError::new(400, "no_slug", String::from_str(
            "no subdomain before WIKI_HOST",
        )));
    }
    let upto = subvec(&rest, 0, e);
    let st = rindex_of_plus1(&upto, '.');
    proof {
        assert(upto@ =~= rest@.take(spec_rlast_not(rest@, '.') + 1));
    }
    let label = subvec(&rest, st, e);
    let label_s = chars_to_string(&label);
    if is_valid_slug(label_s.as_str()) {
        Ok(Slug(label_s))
    } else {
        let msg = String::from_str("parameter ").concat(label_s.as_str()).concat(" is invalid");
        Err(ApiError::new(400, "param_invalid", msg))
    }
}

} // verus!
