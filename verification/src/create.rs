//! The create endpoint's decisions and the job handoff: slug admission
//! (pattern and reserved set), defaulting and normalization of language
//! and visibility, the queued task id, the job payload put on the `jobs`
//! queue, and the initial `queued` event published on the task channel.

use vstd::prelude::*;
use crate::error::ApiError;
use crate::events::{Event, EventModel, Status, spec_encode, event_model, encode_event};
use crate::jsonchars::{spec_escape, chars_faithful, append_escaped, spec_unescape_prefix,
    lemma_unescape_escape, parse_string_tok};
use crate::strutil::{spec_ascii_lower, ascii_lower, str_to_chars, chars_to_string, chars_eq_str,
    append_str, spec_u64_chars, append_u64_chars, spec_parse_u64, parse_u64_tok, try_lit,
    lemma_parse_canonical_u64};
use crate::validate::{spec_valid_slug, is_valid_slug};

verus! {

/// The body of a create request.
#[derive(Debug)]
pub struct CreateWikiReq {
    pub name: String,
    pub slug: String,
    pub language: Option<String>,
    pub visibility: Option<String>,
}

/// Whether a slug is reserved: {portainer, main, pubwiki, mcp, chat}.
pub open spec fn spec_reserved_slug(s: Seq<char>) -> bool {
    s == "portainer"@ || s == "main"@ || s == "pubwiki"@ || s == "mcp"@ || s == "chat"@
}

/// Decides membership in the reserved slug set.
pub fn is_reserved_slug(s: &str) -> (r: bool)
    ensures
        r == spec_reserved_slug(s@),
{
    let v = str_to_chars(s);
    chars_eq_str(&v, "portainer") || chars_eq_str(&v, "main") || chars_eq_str(&v, "pubwiki")
        || chars_eq_str(&v, "mcp") || chars_eq_str(&v, "chat")
}

/// The normalized visibility: the ASCII lower-casing of the given value if
/// that is one of `public`, `private`, `unlisted`; otherwise `public`.
/// A missing value is `public`.
pub open spec fn spec_normalize_visibility(v: Option<Seq<char>>) -> Seq<char> {
    match v {
        None => "public"@,
        Some(s) => {
            let low = spec_ascii_lower(s);
            if low == "public"@ || low == "private"@ || low == "unlisted"@ {
                low
            } else {
                "public"@
            }
        },
    }
}

/// Normalizes a requested visibility; unknown strings become `public`.
pub fn normalize_visibility(v: Option<&str>) -> (r: String)
    ensures
        r@ == spec_normalize_visibility(match v { Some(s) => Some(s@), None => None }),
{
    match v {
        None => String::from_str("public"),
        Some(s) => {
            let chars = str_to_chars(s);
            let low = ascii_lower(&chars);
            if chars_eq_str(&low, "public") || chars_eq_str(&low, "private")
                || chars_eq_str(&low, "unlisted") {
                chars_to_string(&low)
            } else {
                String::from_str("public")
            }
        },
    }
}

/// The mathematical shape of a provisioning job.
pub struct JobModel {
    pub task_id: Seq<char>,
    pub name: Seq<char>,
    pub slug: Seq<char>,
    pub language: Seq<char>,
    pub visibility: Seq<char>,
    pub owner_id: u64,
    pub owner_username: Seq<char>,
}

/// A provisioning job, as carried on the `jobs` queue.
#[derive(Debug)]
pub struct JobPayload {
    pub task_id: String,
    pub name: String,
    pub slug: String,
    pub language: String,
    pub visibility: String,
    pub owner_id: u64,
    pub owner_username: String,
}

/// The model of a job value.
pub open spec fn job_model(j: &JobPayload) -> JobModel {
    JobModel {
        task_id: j.task_id@,
        name: j.name@,
        slug: j.slug@,
        language: j.language@,
        visibility: j.visibility@,
        owner_id: j.owner_id,
        owner_username: j.owner_username@,
    }
}

/// The JSON wire encoding of a job, fields in fixed order.
pub open spec fn spec_encode_job(j: JobModel) -> Seq<char> {
    "{\"task_id\":\""@ + spec_escape(j.task_id)
    + "\",\"name\":\""@ + spec_escape(j.name)
    + "\",\"slug\":\""@ + spec_escape(j.slug)
    + "\",\"language\":\""@ + spec_escape(j.language)
    + "\",\"visibility\":\""@ + spec_escape(j.visibility)
    + "\",\"owner\":{\"id\":"@ + spec_u64_chars(j.owner_id as int)
    + ",\"username\":\""@ + spec_escape(j.owner_username)
    + "\"}}"@
}

/// Encodes a job for the queue, exactly as `spec_encode_job` states it.
pub fn encode_job(j: &JobPayload) -> (r: String)
    ensures
        r@ == spec_encode_job(job_model(j)),
{
    let mut out: Vec<char> = Vec::new();
    append_str(&mut out, "{\"task_id\":\"");
    let c1 = str_to_chars(j.task_id.as_str());
    append_escaped(&mut out, &c1);
    append_str(&mut out, "\",\"name\":\"");
    let c2 = str_to_chars(j.name.as_str());
    append_escaped(&mut out, &c2);
    append_str(&mut out, "\",\"slug\":\"");
    let c3 = str_to_chars(j.slug.as_str());
    append_escaped(&mut out, &c3);
    append_str(&mut out, "\",\"language\":\"");
    let c4 = str_to_chars(j.language.as_str());
    append_escaped(&mut out, &c4);
    append_str(&mut out, "\",\"visibility\":\"");
    let c5 = str_to_chars(j.visibility.as_str());
    append_escaped(&mut out, &c5);
    append_str(&mut out, "\",\"owner\":{\"id\":");
    append_u64_chars(j.owner_id, &mut out);
    append_str(&mut out, ",\"username\":\"");
    let c6 = str_to_chars(j.owner_username.as_str());
    append_escaped(&mut out, &c6);
    append_str(&mut out, "\"}}");
    proof {
        assert(out@ =~= spec_encode_job(job_model(j)));
    }
    chars_to_string(&out)
}


/// Reads one JSON string field introduced by `key` from the front of `s`:
/// the key text, escaped content, and the closing quote.
pub open spec fn spec_field_str(s: Seq<char>, key: Seq<char>) -> Option<(Seq<char>, int)> {
    if key.is_prefix_of(s) {
        match spec_unescape_prefix(s.skip(key.len() as int)) {
            Some((m, u)) => Some((m, key.len() as int + u)),
            None => None,
        }
    } else {
        None
    }
}

fn field_str(v: &Vec<char>, i: usize, key: &str) -> (r: Option<(Vec<char>, usize)>)
    requires
        i <= v@.len(),
    ensures
        match r {
            Some(p) => spec_field_str(v@.skip(i as int), key@) == Some((p.0@, p.1 as int - i))
                && i <= p.1 <= v@.len(),
            None => spec_field_str(v@.skip(i as int), key@) is None,
        },
{
    if let Some(j) = try_lit(v, i, key) {
        proof {
            assert(v@.skip(j as int) =~= v@.skip(i as int).skip(key@.len() as int));
        }
        match parse_string_tok(v, j) {
            Some((m, j2)) => Some((m, j2)),
            None => None,
        }
    } else {
        None
    }
}

proof fn lemma_field_str_canonical(key: Seq<char>, m: Seq<char>, t: Seq<char>)
    requires
        chars_faithful(m),
    ensures
        spec_field_str(key + (spec_escape(m) + (seq!['"'] + t)), key) == Some((
            m,
            key.len() as int + spec_escape(m).len() as int + 1,
        )),
{
    let s = key + (spec_escape(m) + (seq!['"'] + t));
    assert(s.subrange(0, key.len() as int) =~= key);
    assert(s.skip(key.len() as int) =~= spec_escape(m) + seq!['"'] + t);
    lemma_unescape_escape(m, t);
}

/// Reads a whole job from the wire text; accepts exactly the texts that
/// `spec_encode_job` produces.
pub open spec fn spec_decode_job(s: Seq<char>) -> Option<JobModel> {
    match spec_field_str(s, "{\"task_id\":\""@) {
        Some((tid, u1)) => {
            let s1 = s.skip(u1);
            match spec_field_str(s1, ",\"name\":\""@) {
                Some((nm, u2)) => {
                    let s2 = s1.skip(u2);
                    match spec_field_str(s2, ",\"slug\":\""@) {
                        Some((sl, u3)) => {
                            let s3 = s2.skip(u3);
                            match spec_field_str(s3, ",\"language\":\""@) {
                                Some((lg, u4)) => {
                                    let s4 = s3.skip(u4);
                                    match spec_field_str(s4, ",\"visibility\":\""@) {
                                        Some((vis, u5)) => {
                                            let s5 = s4.skip(u5);
                                            spec_decode_job_owner(s5, tid, nm, sl, lg, vis)
                                        },
                                        None => None,
                                    }
                                },
                                None => None,
                            }
                        },
                        None => None,
                    }
                },
                None => None,
            }
        },
        None => None,
    }
}

/// Reads the owner object and the closing braces of a job.
pub open spec fn spec_decode_job_owner(
    s5: Seq<char>,
    tid: Seq<char>,
    nm: Seq<char>,
    sl: Seq<char>,
    lg: Seq<char>,
    vis: Seq<char>,
) -> Option<JobModel> {
    if ",\"owner\":{\"id\":"@.is_prefix_of(s5) {
        match spec_parse_u64(s5.skip(",\"owner\":{\"id\":"@.len() as int)) {
            Some((oid, k)) => {
                let s6 = s5.skip(",\"owner\":{\"id\":"@.len() as int + k);
                match spec_field_str(s6, ",\"username\":\""@) {
                    Some((un, u7)) => {
                        if s6.skip(u7) == "}}"@ {
                            Some(JobModel {
                                task_id: tid,
                                name: nm,
                                slug: sl,
                                language: lg,
                                visibility: vis,
                                owner_id: oid,
                                owner_username: un,
                            })
                        } else {
                            None
                        }
                    },
                    None => None,
                }
            },
            None => None,
        }
    } else {
        None
    }
}

/// Decodes queue text to a job; accepts exactly the texts the encoder
/// produces, as `spec_decode_job` states.
#[verifier::rlimit(100)]
pub fn decode_job(s: &str) -> (r: Option<JobPayload>)
    ensures
        match r {
            Some(j) => spec_decode_job(s@) == Some(job_model(&j)),
            None => spec_decode_job(s@) is None,
        },
{
    let v = str_to_chars(s);
    proof {
        assert(v@.skip(0) =~= v@);
    }
    let Some((tid, i1)) = field_str(&v, 0, "{\"task_id\":\"") else {
        return None;
    };
    proof {
        assert(v@.skip(i1 as int) =~= v@.skip(0).skip(i1 as int));
    }
    let Some((nm, i2)) = field_str(&v, i1, ",\"name\":\"") else {
        return None;
    };
    proof {
        assert(v@.skip(i2 as int) =~= v@.skip(i1 as int).skip(i2 - i1 as int));
    }
    let Some((sl, i3)) = field_str(&v, i2, ",\"slug\":\"") else {
        return None;
    };
    proof {
        assert(v@.skip(i3 as int) =~= v@.skip(i2 as int).skip(i3 - i2 as int));
    }
    let Some((lg, i4)) = field_str(&v, i3, ",\"language\":\"") else {
        return None;
    };
    proof {
        assert(v@.skip(i4 as int) =~= v@.skip(i3 as int).skip(i4 - i3 as int));
    }
    let Some((vis, i5)) = field_str(&v, i4, ",\"visibility\":\"") else {
        return None;
    };
    proof {
        assert(v@.skip(i5 as int) =~= v@.skip(i4 as int).skip(i5 - i4 as int));
    }
    let Some(i6) = try_lit(&v, i5, ",\"owner\":{\"id\":") else {
        return None;
    };
    proof {
        assert(v@.skip(i6 as int) =~= v@.skip(i5 as int).skip(",\"owner\":{\"id\":"@.len() as int));
    }
    let Some((oid, i7)) = parse_u64_tok(&v, i6) else {
        proof {
            assert(spec_decode_job_owner(v@.skip(i5 as int), tid@, nm@, sl@, lg@, vis@) is None);
        }
        return None;
    };
    proof {
        assert(v@.skip(i7 as int) =~= v@.skip(i5 as int).skip(
            ",\"owner\":{\"id\":"@.len() as int + (i7 - i6),
        ));
    }
    let Some((un, i8)) = field_str(&v, i7, ",\"username\":\"") else {
        return None;
    };
    let ghost s7 = v@.skip(i7 as int).skip(i8 - i7 as int);
    proof {
        assert(v@.skip(i8 as int) =~= s7);
    }
    let vlen = v.len();
    if vlen - i8 == 2 && v[i8] == '}' && v[i8 + 1] == '}' {
        proof {
            reveal_strlit("}}");
            assert(v@.skip(i8 as int) =~= "}}"@);
        }
        Some(JobPayload {
            task_id: chars_to_string(&tid),
            name: chars_to_string(&nm),
            slug: chars_to_string(&sl),
            language: chars_to_string(&lg),
            visibility: chars_to_string(&vis),
            owner_id: oid,
            owner_username: chars_to_string(&un),
        })
    } else {
        proof {
            reveal_strlit("}}");
            let rem = v@.skip(i8 as int);
            if rem == "}}"@ {
                assert(rem.len() == 2);
                assert(rem[0] == '}' && rem[1] == '}');
                assert(rem[0] == v@[i8 as int] && rem[1] == v@[i8 as int + 1]);
            }
        }
        None
    }
}

/// Whether every character of a job's fields can be recovered from its
/// code point; true of every job built from real strings.
pub open spec fn job_faithful(j: JobModel) -> bool {
    chars_faithful(j.task_id) && chars_faithful(j.name) && chars_faithful(j.slug)
        && chars_faithful(j.language) && chars_faithful(j.visibility)
        && chars_faithful(j.owner_username)
}

/// Serialize-then-deserialize is the identity on job payloads: the queue
/// text of any job reads back as exactly that job, so what the worker
/// dequeues is what the create endpoint enqueued.
#[verifier::rlimit(100)]
pub proof fn lemma_job_wire_roundtrip(j: JobModel)
    requires
        job_faithful(j),
    ensures
        spec_decode_job(spec_encode_job(j)) == Some(j),
{
    reveal_strlit("{\"task_id\":\"");
    reveal_strlit("\",\"name\":\"");
    reveal_strlit(",\"name\":\"");
    reveal_strlit("\",\"slug\":\"");
    reveal_strlit(",\"slug\":\"");
    reveal_strlit("\",\"language\":\"");
    reveal_strlit(",\"language\":\"");
    reveal_strlit("\",\"visibility\":\"");
    reveal_strlit(",\"visibility\":\"");
    reveal_strlit("\",\"owner\":{\"id\":");
    reveal_strlit(",\"owner\":{\"id\":");
    reveal_strlit(",\"username\":\"");
    reveal_strlit("\"}}");
    reveal_strlit("}}");
    let s = spec_encode_job(j);
    let e1 = spec_escape(j.task_id);
    let e2 = spec_escape(j.name);
    let e3 = spec_escape(j.slug);
    let e4 = spec_escape(j.language);
    let e5 = spec_escape(j.visibility);
    let e6 = spec_escape(j.owner_username);
    let ds = spec_u64_chars(j.owner_id as int);
    let t6 = ",\"username\":\""@ + (e6 + (seq!['"'] + "}}"@));
    let t5 = ",\"owner\":{\"id\":"@ + (ds + t6);
    let s4 = ",\"visibility\":\""@ + (e5 + (seq!['"'] + t5));
    let s3 = ",\"language\":\""@ + (e4 + (seq!['"'] + s4));
    let s2 = ",\"slug\":\""@ + (e3 + (seq!['"'] + s3));
    let s1 = ",\"name\":\""@ + (e2 + (seq!['"'] + s2));
    let s0 = "{\"task_id\":\""@ + (e1 + (seq!['"'] + s1));
    assert(s =~= s0);
    lemma_field_str_canonical("{\"task_id\":\""@, j.task_id, s1);
    assert(s0.skip("{\"task_id\":\""@.len() as int + e1.len() as int + 1) =~= s1);
    lemma_field_str_canonical(",\"name\":\""@, j.name, s2);
    assert(s1.skip(",\"name\":\""@.len() as int + e2.len() as int + 1) =~= s2);
    lemma_field_str_canonical(",\"slug\":\""@, j.slug, s3);
    assert(s2.skip(",\"slug\":\""@.len() as int + e3.len() as int + 1) =~= s3);
    lemma_field_str_canonical(",\"language\":\""@, j.language, s4);
    assert(s3.skip(",\"language\":\""@.len() as int + e4.len() as int + 1) =~= s4);
    lemma_field_str_canonical(",\"visibility\":\""@, j.visibility, t5);
    assert(s4.skip(",\"visibility\":\""@.len() as int + e5.len() as int + 1) =~= t5);
    assert(t5.subrange(0, ",\"owner\":{\"id\":"@.len() as int) =~= ",\"owner\":{\"id\":"@);
    assert(t5.skip(",\"owner\":{\"id\":"@.len() as int) =~= ds + t6);
    assert(t6[0] == ',');
    assert(!crate::strutil::is_digit(t6[0]));
    lemma_parse_canonical_u64(j.owner_id, t6);
    assert(t5.skip(",\"owner\":{\"id\":"@.len() as int + ds.len() as int) =~= t6);
    lemma_field_str_canonical(",\"username\":\""@, j.owner_username, "}}"@);
    assert(t6.skip(",\"username\":\""@.len() as int + e6.len() as int + 1) =~= "}}"@);
}


/// Lower-case hex digit characters, as a hyphenated task id holds them.
pub open spec fn is_hex_lower(c: char) -> bool {
    ('0' <= c && c <= '9') || ('a' <= c && c <= 'f')
}

/// Whether a string has the shape of a hyphenated v4 task id: 36
/// characters, hyphens at positions 8, 13, 18 and 23, lower-case hex
/// digits elsewhere.
pub open spec fn spec_task_id_shape(s: Seq<char>) -> bool {
    s.len() == 36 && s[8] == '-' && s[13] == '-' && s[18] == '-' && s[23] == '-'
        && forall|i: int| 0 <= i < 36 && i != 8 && i != 13 && i != 18 && i != 23
            ==> is_hex_lower(#[trigger] s[i])
}

/// Relies on `uuid::Uuid::new_v4` and its `Display` rendering: a random
/// version-4 UUID printed as 36 characters, lower-case hex with hyphens at
/// positions 8, 13, 18 and 23. The value is random; only the shape is
/// stated.
#[verifier::external_body]
pub(crate) fn new_v4_string() -> (r: String)
    ensures
        spec_task_id_shape(r@),
{
    uuid::Uuid::new_v4().to_string()
}

/// The initial event every accepted create publishes: queued progress.
pub open spec fn spec_queued_event() -> EventModel {
    EventModel::Progress { status: Status::Queued, message: Some("queued"@), phase: None }
}

/// Everything an accepted create request gives to the outside: the task
/// row to insert, the job text for the queue, and the initial event for
/// the task channel.
#[derive(Debug)]
pub struct CreatePlan {
    pub task_id: String,
    pub language: String,
    pub visibility: String,
    pub job: JobPayload,
    pub job_json: String,
    pub channel: String,
    pub initial_event: Event,
    pub initial_event_json: String,
}

/// Decides a create request against the slug rules and lays out the
/// accepted work. Accepts exactly the requests whose slug matches
/// `^[0-9a-z-]{3,64}$`, is not reserved, and is not already taken;
/// rejects bad slugs with 400 `param_invalid` and taken or reserved slugs
/// with 409 `conflict`.
pub fn plan_create(
    req: &CreateWikiReq,
    owner_id: u64,
    owner_username: &str,
    slug_exists: bool,
    task_id: &str,
) -> (r: Result<CreatePlan, ApiError>)
    ensures
        (r is Ok) == (spec_valid_slug(req.slug@) && !slug_exists && !spec_reserved_slug(
            req.slug@,
        )),
        match r {
            Ok(p) => p.task_id@ == task_id@
                && p.language@ == (match req.language { Some(l) => l@, None => "en"@ })
                && p.visibility@ == spec_normalize_visibility(
                    match req.visibility { Some(v) => Some(v@), None => None },
                )
                && job_model(&p.job) == (JobModel {
                    task_id: task_id@,
                    name: req.name@,
                    slug: req.slug@,
                    language: p.language@,
                    visibility: p.visibility@,
                    owner_id: owner_id,
                    owner_username: owner_username@,
                })
                && p.job_json@ == spec_encode_job(job_model(&p.job))
                && p.channel@ == "tasks:"@ + task_id@
                && event_model(&p.initial_event) == spec_queued_event()
                && p.initial_event_json@ == spec_encode(spec_queued_event()),
            Err(e) => if !spec_valid_slug(req.slug@) {
                e.status == 400 && e.code@ == "param_invalid"@
            } else {
                e.status == 409 && e.code@ == "conflict"@
            },
        },
{
    if !is_valid_slug(req.slug.as_str()) {
        let msg = String::from_str("parameter ").concat(req.slug.as_str()).concat(" is invalid");
        return Err(ApiError::new(400, "param_invalid", msg));
    }
    if slug_exists || is_reserved_slug(req.slug.as_str()) {
        return Err(ApiError::new(409, "conflict", String::from_str("slug exists")));
    }
    let language = match &req.language {
        Some(l) => l.clone(),
        None => String::from_str("en"),
    };
    let visibility = normalize_visibility(
        match &req.visibility {
            Some(v) => Some(v.as_str()),
            None => None,
        },
    );
    let job = JobPayload {
        task_id: String::from_str(task_id),
        name: req.name.clone(),
        slug: req.slug.clone(),
        language: language.clone(),
        visibility: visibility.clone(),
        owner_id,
        owner_username: String::from_str(owner_username),
    };
    let job_json = encode_job(&job);
    let channel = String::from_str("tasks:").concat(task_id);
    let initial_event = Event::Progress {
        status: Status::Queued,
        message: Some(String::from_str("queued")),
        phase: None,
    };
    let initial_event_json = encode_event(&initial_event);
    Ok(CreatePlan {
        task_id: String::from_str(task_id),
        language,
        visibility,
        job,
        job_json,
        channel,
        initial_event,
        initial_event_json,
    })
}

/// Decides a create request, allocating a fresh task id. Every accepted
/// slug matches the slug pattern and is outside the reserved set; the
/// exact layout of the accepted work is stated by `plan_create`, which
/// this calls with the fresh id.
pub fn create_wiki(
    req: &CreateWikiReq,
    owner_id: u64,
    owner_username: &str,
    slug_exists: bool,
) -> (r: Result<CreatePlan, ApiError>)
    ensures
        (r is Ok) == (spec_valid_slug(req.slug@) && !slug_exists && !spec_reserved_slug(
            req.slug@,
        )),
        match r {
            Ok(p) => spec_task_id_shape(p.task_id@)
                && p.language@ == (match req.language { Some(l) => l@, None => "en"@ })
                && p.visibility@ == spec_normalize_visibility(
                    match req.visibility { Some(v) => Some(v@), None => None },
                )
                && job_model(&p.job) == (JobModel {
                    task_id: p.task_id@,
                    name: req.name@,
                    slug: req.slug@,
                    language: p.language@,
                    visibility: p.visibility@,
                    owner_id: owner_id,
                    owner_username: owner_username@,
                })
                && p.job_json@ == spec_encode_job(job_model(&p.job))
                && p.channel@ == "tasks:"@ + p.task_id@
                && event_model(&p.initial_event) == spec_queued_event()
                && p.initial_event_json@ == spec_encode(spec_queued_event()),
            Err(e) => if !spec_valid_slug(req.slug@) {
                e.status == 400 && e.code@ == "param_invalid"@
            } else {
                e.status == 409 && e.code@ == "conflict"@
            },
        },
{
    let task_id = new_v4_string();
    plan_create(req, owner_id, owner_username, slug_exists, task_id.as_str())
}

/// Decides the slug-exists probe: rejects invalid slugs, and reports a
/// slug as taken when it is in the table or reserved.
pub fn check_slug(slug: &str, in_table: bool) -> (r: Result<bool, ApiError>)
    ensures
        (r is Ok) == spec_valid_slug(slug@),
        match r {
            Ok(b) => b == (in_table || spec_reserved_slug(slug@)),
            Err(e) => e.status == 400 && e.code@ == "param_invalid"@,
        },
{
    if !is_valid_slug(slug) {
        let msg = String::from_str("parameter ").concat(slug).concat(" is invalid");
        return Err(ApiError::new(400, "param_invalid", msg));
    }
    Ok(in_table || is_reserved_slug(slug))
}

/// Query parameters of the featured-wikis listing.
#[derive(Debug)]
pub struct ListWikisQuery {
    pub featured: Option<i32>,
    pub limit: Option<i32>,
    pub offset: Option<i32>,
}

/// Query parameters of the public-wikis listing.
#[derive(Debug)]
pub struct PublicWikisQuery {
    pub limit: Option<i32>,
    pub offset: Option<i32>,
}

/// The page size a listing uses: the requested limit, defaulting to 20,
/// clamped to 1..=100.
pub open spec fn spec_page_limit(limit: Option<i32>) -> int {
    let l: int = match limit { Some(x) => x as int, None => 20 };
    if l < 1 { 1 } else if l > 100 { 100 } else { l }
}

/// The page start a listing uses: the requested offset, defaulting to 0,
/// never negative.
pub open spec fn spec_page_offset(offset: Option<i32>) -> int {
    let o: int = match offset { Some(x) => x as int, None => 0 };
    if o < 0 { 0 } else { o }
}

/// Resolves the page size and start of a listing request.
pub fn page_params(limit: Option<i32>, offset: Option<i32>) -> (r: (u64, u64))
    ensures
        r.0 as int == spec_page_limit(limit),
        r.1 as int == spec_page_offset(offset),
{
    let l: i32 = match limit {
        Some(x) => x,
        None => 20,
    };
    let l: i32 = if l < 1 { 1 } else if l > 100 { 100 } else { l };
    let o: i32 = match offset {
        Some(x) => x,
        None => 0,
    };
    let o: i32 = if o < 0 { 0 } else { o };
    (l as u64, o as u64)
}

/// The offset a listing reports for the next page: this page's start plus
/// how many rows it returned.
pub fn next_offset(offset: u64, count: usize) -> (r: u64)
    requires
        offset + count <= u64::MAX,
    ensures
        r as int == offset + count,
{
    offset + count as u64
}

} // verus!
