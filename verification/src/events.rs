//! The event model of the task channel and its JSON wire encoding: a
//! tagged union of `Progress { status, message?, phase? }` and
//! `Status { status, wiki_id?, message? }`, with status and phase words in
//! snake case and an explicit `type` discriminator, exactly as published
//! on `tasks:{task_id}`.

use vstd::prelude::*;
use crate::jsonchars::{
    spec_escape, spec_unescape_prefix, chars_faithful, append_escaped, lemma_unescape_escape,
    parse_string_tok,
};
use crate::strutil::{
    spec_u64_chars, append_u64_chars, lemma_parse_canonical_u64, spec_parse_u64,
    str_to_chars, chars_to_string, append_str, try_lit, parse_u64_tok,
};

verus! {

/// Task status carried in every event.
#[derive(Clone, Copy, Debug, PartialEq, Eq, Structural)]
pub enum Status {
    Queued,
    Running,
    Succeeded,
    Failed,
}

/// Pipeline phase carried in progress events.
#[derive(Clone, Copy, Debug, PartialEq, Eq, Structural)]
pub enum Phase {
    DirCopy,
    RenderIni,
    DbProvision,
    DockerInstall,
    DockerIndexCfg,
    FlipBootstrap,
    Index,
}

/// One event on a task channel.
#[derive(Clone, Debug, PartialEq, Eq)]
pub enum Event {
    Progress { status: Status, message: Option<String>, phase: Option<Phase> },
    Status { status: Status, wiki_id: Option<u64>, message: Option<String> },
}

/// The mathematical shape of an event: as `Event`, with string contents
/// as character sequences.
pub enum EventModel {
    Progress { status: Status, message: Option<Seq<char>>, phase: Option<Phase> },
    Status { status: Status, wiki_id: Option<u64>, message: Option<Seq<char>> },
}

/// The model of an event value.
pub open spec fn event_model(e: &Event) -> EventModel {
    match e {
        Event::Progress { status, message, phase } => EventModel::Progress {
            status: *status,
            message: match message { Some(m) => Some(m@), None => None },
            phase: *phase,
        },
        Event::Status { status, wiki_id, message } => EventModel::Status {
            status: *status,
            wiki_id: *wiki_id,
            message: match message { Some(m) => Some(m@), None => None },
        },
    }
}

/// Whether a status is terminal; terminal states are absorbing.
pub open spec fn spec_is_terminal(s: Status) -> bool {
    s == Status::Succeeded || s == Status::Failed
}

/// Decides whether a status is terminal.
pub fn is_terminal(s: Status) -> (r: bool)
    ensures
        r == spec_is_terminal(s),
{
    match s {
        Status::Succeeded => true,
        Status::Failed => true,
        _ => false,
    }
}

/// The wire word of a status, with the closing quote of its JSON string.
pub open spec fn status_tok(s: Status) -> Seq<char> {
    match s {
        Status::Queued => "queued\""@,
        Status::Running => "running\""@,
        Status::Succeeded => "succeeded\""@,
        Status::Failed => "failed\""@,
    }
}

/// The wire word of a phase, with the closing quote of its JSON string.
pub open spec fn phase_tok(p: Phase) -> Seq<char> {
    match p {
        Phase::DirCopy => "dir_copy\""@,
        Phase::RenderIni => "render_ini\""@,
        Phase::DbProvision => "db_provision\""@,
        Phase::DockerInstall => "docker_install\""@,
        Phase::DockerIndexCfg => "docker_index_cfg\""@,
        Phase::FlipBootstrap => "flip_bootstrap\""@,
        Phase::Index => "index\""@,
    }
}

/// The wire encoding of an event: the discriminator first, then the
/// fields in declaration order, absent options omitted.
pub open spec fn spec_encode(m: EventModel) -> Seq<char> {
    match m {
        EventModel::Progress { status, message, phase } => {
            "{\"type\":\"progress\",\"status\":\""@ + status_tok(status)
            + (match message {
                Some(mm) => ",\"message\":\""@ + spec_escape(mm) + seq!['"'],
                None => Seq::<char>::empty(),
            })
            + (match phase {
                Some(p) => ",\"phase\":\""@ + phase_tok(p),
                None => Seq::<char>::empty(),
            })
            + seq!['}']
        },
        EventModel::Status { status, wiki_id, message } => {
            "{\"type\":\"status\",\"status\":\""@ + status_tok(status)
            + (match wiki_id {
                Some(n) => ",\"wiki_id\":"@ + spec_u64_chars(n as int),
                None => Seq::<char>::empty(),
            })
            + (match message {
                Some(mm) => ",\"message\":\""@ + spec_escape(mm) + seq!['"'],
                None => Seq::<char>::empty(),
            })
            + seq!['}']
        },
    }
}

fn append_status_tok(out: &mut Vec<char>, s: Status)
    ensures
        final(out)@ == old(out)@ + status_tok(s),
{
    match s {
        Status::Queued => append_str(out, "queued\""),
        Status::Running => append_str(out, "running\""),
        Status::Succeeded => append_str(out, "succeeded\""),
        Status::Failed => append_str(out, "failed\""),
    }
}

fn append_phase_tok(out: &mut Vec<char>, p: Phase)
    ensures
        final(out)@ == old(out)@ + phase_tok(p),
{
    match p {
        Phase::DirCopy => append_str(out, "dir_copy\""),
        Phase::RenderIni => append_str(out, "render_ini\""),
        Phase::DbProvision => append_str(out, "db_provision\""),
        Phase::DockerInstall => append_str(out, "docker_install\""),
        Phase::DockerIndexCfg => append_str(out, "docker_index_cfg\""),
        Phase::FlipBootstrap => append_str(out, "flip_bootstrap\""),
        Phase::Index => append_str(out, "index\""),
    }
}

/// Encodes an event for the wire, exactly as `spec_encode` states it.
pub fn encode_event(e: &Event) -> (r: String)
    ensures
        r@ == spec_encode(event_model(e)),
{
    let mut out: Vec<char> = Vec::new();
    match e {
        Event::Progress { status, message, phase } => {
            append_str(&mut out, "{\"type\":\"progress\",\"status\":\"");
            append_status_tok(&mut out, *status);
            match message {
                Some(m) => {
                    append_str(&mut out, ",\"message\":\"");
                    let mc = str_to_chars(m.as_str());
                    append_escaped(&mut out, &mc);
                    out.push('"');
                },
                None => {},
            }
            match phase {
                Some(p) => {
                    append_str(&mut out, ",\"phase\":\"");
                    append_phase_tok(&mut out, *p);
                },
                None => {},
            }
            out.push('}');
            proof {
                assert(out@ =~= spec_encode(event_model(e)));
            }
        },
        Event::Status { status, wiki_id, message } => {
            append_str(&mut out, "{\"type\":\"status\",\"status\":\"");
            append_status_tok(&mut out, *status);
            match wiki_id {
                Some(n) => {
                    append_str(&mut out, ",\"wiki_id\":");
                    append_u64_chars(*n, &mut out);
                },
                None => {},
            }
            match message {
                Some(m) => {
                    append_str(&mut out, ",\"message\":\"");
                    let mc = str_to_chars(m.as_str());
                    append_escaped(&mut out, &mc);
                    out.push('"');
                },
                None => {},
            }
            out.push('}');
            proof {
                assert(out@ =~= spec_encode(event_model(e)));
            }
        },
    }
    chars_to_string(&out)
}


/// The leading wire text of a progress event, through the opening quote of
/// its status word.
pub open spec fn progress_head() -> Seq<char> {
    "{\"type\":\"progress\",\"status\":\""@
}

/// The leading wire text of a status event, through the opening quote of
/// its status word.
pub open spec fn status_head() -> Seq<char> {
    "{\"type\":\"status\",\"status\":\""@
}

/// The wire key of an optional message, through its opening quote.
pub open spec fn msg_key() -> Seq<char> {
    ",\"message\":\""@
}

/// The wire key of an optional phase, through its opening quote.
pub open spec fn phase_key() -> Seq<char> {
    ",\"phase\":\""@
}

/// The wire key of an optional wiki id.
pub open spec fn wid_key() -> Seq<char> {
    ",\"wiki_id\":"@
}

/// Reads a status word with its closing quote from the front of `s`.
pub open spec fn spec_parse_status(s: Seq<char>) -> Option<(Status, int)> {
    if status_tok(Status::Queued).is_prefix_of(s) {
        Some((Status::Queued, status_tok(Status::Queued).len() as int))
    } else if status_tok(Status::Running).is_prefix_of(s) {
        Some((Status::Running, status_tok(Status::Running).len() as int))
    } else if status_tok(Status::Succeeded).is_prefix_of(s) {
        Some((Status::Succeeded, status_tok(Status::Succeeded).len() as int))
    } else if status_tok(Status::Failed).is_prefix_of(s) {
        Some((Status::Failed, status_tok(Status::Failed).len() as int))
    } else {
        None
    }
}

/// Reads a phase word with its closing quote from the front of `s`.
pub open spec fn spec_parse_phase(s: Seq<char>) -> Option<(Phase, int)> {
    if phase_tok(Phase::DirCopy).is_prefix_of(s) {
        Some((Phase::DirCopy, phase_tok(Phase::DirCopy).len() as int))
    } else if phase_tok(Phase::RenderIni).is_prefix_of(s) {
        Some((Phase::RenderIni, phase_tok(Phase::RenderIni).len() as int))
    } else if phase_tok(Phase::DbProvision).is_prefix_of(s) {
        Some((Phase::DbProvision, phase_tok(Phase::DbProvision).len() as int))
    } else if phase_tok(Phase::DockerInstall).is_prefix_of(s) {
        Some((Phase::DockerInstall, phase_tok(Phase::DockerInstall).len() as int))
    } else if phase_tok(Phase::DockerIndexCfg).is_prefix_of(s) {
        Some((Phase::DockerIndexCfg, phase_tok(Phase::DockerIndexCfg).len() as int))
    } else if phase_tok(Phase::FlipBootstrap).is_prefix_of(s) {
        Some((Phase::FlipBootstrap, phase_tok(Phase::FlipBootstrap).len() as int))
    } else if phase_tok(Phase::Index).is_prefix_of(s) {
        Some((Phase::Index, phase_tok(Phase::Index).len() as int))
    } else {
        None
    }
}

/// Reads what may follow the status word of a progress event: an optional
/// message, an optional phase, and the closing brace, in that order.
pub open spec fn spec_decode_progress_tail(st: Status, r1: Seq<char>) -> Option<EventModel> {
    if r1 == seq!['}'] {
        Some(EventModel::Progress { status: st, message: None, phase: None })
    } else if msg_key().is_prefix_of(r1) {
        match spec_unescape_prefix(r1.skip(msg_key().len() as int)) {
            Some((m, used)) => {
                let r2 = r1.skip(msg_key().len() as int + used);
                if r2 == seq!['}'] {
                    Some(EventModel::Progress { status: st, message: Some(m), phase: None })
                } else if phase_key().is_prefix_of(r2) {
                    match spec_parse_phase(r2.skip(phase_key().len() as int)) {
                        Some((p, k)) => {
                            if r2.skip(phase_key().len() as int + k) == seq!['}'] {
                                Some(EventModel::Progress {
                                    status: st,
                                    message: Some(m),
                                    phase: Some(p),
                                })
                            } else {
                                None
                            }
                        },
                        None => None,
                    }
                } else {
                    None
                }
            },
            None => None,
        }
    } else if phase_key().is_prefix_of(r1) {
        match spec_parse_phase(r1.skip(phase_key().len() as int)) {
            Some((p, k)) => {
                if r1.skip(phase_key().len() as int + k) == seq!['}'] {
                    Some(EventModel::Progress { status: st, message: None, phase: Some(p) })
                } else {
                    None
                }
            },
            None => None,
        }
    } else {
        None
    }
}

/// Reads what may follow the status word of a status event: an optional
/// wiki id, an optional message, and the closing brace, in that order.
pub open spec fn spec_decode_status_tail(st: Status, r1: Seq<char>) -> Option<EventModel> {
    if r1 == seq!['}'] {
        Some(EventModel::Status { status: st, wiki_id: None, message: None })
    } else if wid_key().is_prefix_of(r1) {
        match spec_parse_u64(r1.skip(wid_key().len() as int)) {
            Some((n, k)) => {
                let r2 = r1.skip(wid_key().len() as int + k);
                if r2 == seq!['}'] {
                    Some(EventModel::Status { status: st, wiki_id: Some(n), message: None })
                } else if msg_key().is_prefix_of(r2) {
                    match spec_unescape_prefix(r2.skip(msg_key().len() as int)) {
                        Some((m, used)) => {
                            if r2.skip(msg_key().len() as int + used) == seq!['}'] {
                                Some(EventModel::Status {
                                    status: st,
                                    wiki_id: Some(n),
                                    message: Some(m),
                                })
                            } else {
                                None
                            }
                        },
                        None => None,
                    }
                } else {
                    None
                }
            },
            None => None,
        }
    } else if msg_key().is_prefix_of(r1) {
        match spec_unescape_prefix(r1.skip(msg_key().len() as int)) {
            Some((m, used)) => {
                if r1.skip(msg_key().len() as int + used) == seq!['}'] {
                    Some(EventModel::Status { status: st, wiki_id: None, message: Some(m) })
                } else {
                    None
                }
            },
            None => None,
        }
    } else {
        None
    }
}

/// Reads a whole event from the wire text; accepts exactly the texts that
/// `spec_encode` produces.
pub open spec fn spec_decode(s: Seq<char>) -> Option<EventModel> {
    if progress_head().is_prefix_of(s) {
        match spec_parse_status(s.skip(progress_head().len() as int)) {
            Some((st, n)) => spec_decode_progress_tail(
                st,
                s.skip(progress_head().len() as int + n),
            ),
            None => None,
        }
    } else if status_head().is_prefix_of(s) {
        match spec_parse_status(s.skip(status_head().len() as int)) {
            Some((st, n)) => spec_decode_status_tail(st, s.skip(status_head().len() as int + n)),
            None => None,
        }
    } else {
        None
    }
}

fn parse_status_at(v: &Vec<char>, i: usize) -> (r: Option<(Status, usize)>)
    requires
        i <= v@.len(),
    ensures
        match r {
            Some(p) => spec_parse_status(v@.skip(i as int)) == Some((p.0, p.1 as int - i))
                && i <= p.1 <= v@.len(),
            None => spec_parse_status(v@.skip(i as int)) is None,
        },
{
    if let Some(j) = try_lit(v, i, "queued\"") {
        return Some((Status::Queued, j));
    }
    if let Some(j) = try_lit(v, i, "running\"") {
        return Some((Status::Running, j));
    }
    if let Some(j) = try_lit(v, i, "succeeded\"") {
        return Some((Status::Succeeded, j));
    }
    if let Some(j) = try_lit(v, i, "failed\"") {
        return Some((Status::Failed, j));
    }
    None
}

fn parse_phase_at(v: &Vec<char>, i: usize) -> (r: Option<(Phase, usize)>)
    requires
        i <= v@.len(),
    ensures
        match r {
            Some(p) => spec_parse_phase(v@.skip(i as int)) == Some((p.0, p.1 as int - i))
                && i <= p.1 <= v@.len(),
            None => spec_parse_phase(v@.skip(i as int)) is None,
        },
{
    if let Some(j) = try_lit(v, i, "dir_copy\"") {
        return Some((Phase::DirCopy, j));
    }
    if let Some(j) = try_lit(v, i, "render_ini\"") {
        return Some((Phase::RenderIni, j));
    }
    if let Some(j) = try_lit(v, i, "db_provision\"") {
        return Some((Phase::DbProvision, j));
    }
    if let Some(j) = try_lit(v, i, "docker_install\"") {
        return Some((Phase::DockerInstall, j));
    }
    if let Some(j) = try_lit(v, i, "docker_index_cfg\"") {
        return Some((Phase::DockerIndexCfg, j));
    }
    if let Some(j) = try_lit(v, i, "flip_bootstrap\"") {
        return Some((Phase::FlipBootstrap, j));
    }
    if let Some(j) = try_lit(v, i, "index\"") {
        return Some((Phase::Index, j));
    }
    None
}

fn at_end_brace(v: &Vec<char>, i: usize) -> (r: bool)
    requires
        i <= v@.len(),
    ensures
        r == (v@.skip(i as int) == seq!['}']),
{
    let vlen = v.len();
    if vlen - i == 1 {
        let c = v[i];
        proof {
            if c == '}' {
                assert(v@.skip(i as int) =~= seq!['}']);
            } else {
                assert(v@.skip(i as int)[0] == c);
            }
        }
        c == '}'
    } else {
        proof {
            assert(v@.skip(i as int).len() != 1);
        }
        false
    }
}

fn decode_progress_tail(v: &Vec<char>, st: Status, i: usize) -> (r: Option<Event>)
    requires
        i <= v@.len(),
    ensures
        match r {
            Some(ev) => spec_decode_progress_tail(st, v@.skip(i as int))
                == Some(event_model(&ev)),
            None => spec_decode_progress_tail(st, v@.skip(i as int)) is None,
        },
{
    let ghost r1 = v@.skip(i as int);
    if at_end_brace(v, i) {
        return Some(Event::Progress { status: st, message: None, phase: None });
    }
    if let Some(j) = try_lit(v, i, ",\"message\":\"") {
        proof {
            assert(v@.skip(j as int) =~= r1.skip(msg_key().len() as int));
        }
        match parse_string_tok(v, j) {
            Some((m, j2)) => {
                proof {
                    assert(v@.skip(j2 as int) =~= r1.skip(msg_key().len() as int + (j2 - j)));
                }
                if at_end_brace(v, j2) {
                    return Some(Event::Progress {
                        status: st,
                        message: Some(chars_to_string(&m)),
                        phase: None,
                    });
                }
                if let Some(j3) = try_lit(v, j2, ",\"phase\":\"") {
                    proof {
                        assert(v@.skip(j3 as int) =~= v@.skip(j2 as int).skip(
                            phase_key().len() as int,
                        ));
                    }
                    match parse_phase_at(v, j3) {
                        Some((p, j4)) => {
                            proof {
                                assert(v@.skip(j4 as int) =~= v@.skip(j2 as int).skip(
                                    phase_key().len() as int + (j4 - j3),
                                ));
                            }
                            if at_end_brace(v, j4) {
                                return Some(Event::Progress {
                                    status: st,
                                    message: Some(chars_to_string(&m)),
                                    phase: Some(p),
                                });
                            }
                            return None;
                        },
                        None => {
                            return None;
                        },
                    }
                }
                return None;
            },
            None => {
                return None;
            },
        }
    }
    if let Some(j) = try_lit(v, i, ",\"phase\":\"") {
        proof {
            assert(v@.skip(j as int) =~= r1.skip(phase_key().len() as int));
        }
        match parse_phase_at(v, j) {
            Some((p, j2)) => {
                proof {
                    assert(v@.skip(j2 as int) =~= r1.skip(phase_key().len() as int + (j2 - j)));
                }
                if at_end_brace(v, j2) {
                    return Some(Event::Progress { status: st, message: None, phase: Some(p) });
                }
                return None;
            },
            None => {
                return None;
            },
        }
    }
    None
}

fn decode_status_tail(v: &Vec<char>, st: Status, i: usize) -> (r: Option<Event>)
    requires
        i <= v@.len(),
    ensures
        match r {
            Some(ev) => spec_decode_status_tail(st, v@.skip(i as int)) == Some(event_model(&ev)),
            None => spec_decode_status_tail(st, v@.skip(i as int)) is None,
        },
{
    let ghost r1 = v@.skip(i as int);
    if at_end_brace(v, i) {
        return Some(Event::Status { status: st, wiki_id: None, message: None });
    }
    if let Some(j) = try_lit(v, i, ",\"wiki_id\":") {
        proof {
            assert(v@.skip(j as int) =~= r1.skip(wid_key().len() as int));
        }
        match parse_u64_tok(v, j) {
            Some((n, j2)) => {
                proof {
                    assert(v@.skip(j2 as int) =~= r1.skip(wid_key().len() as int + (j2 - j)));
                }
                if at_end_brace(v, j2) {
                    return Some(Event::Status { status: st, wiki_id: Some(n), message: None });
                }
                if let Some(j3) = try_lit(v, j2, ",\"message\":\"") {
                    proof {
                        assert(v@.skip(j3 as int) =~= v@.skip(j2 as int).skip(
                            msg_key().len() as int,
                        ));
                    }
                    match parse_string_tok(v, j3) {
                        Some((m, j4)) => {
                            proof {
                                assert(v@.skip(j4 as int) =~= v@.skip(j2 as int).skip(
                                    msg_key().len() as int + (j4 - j3),
                                ));
                            }
                            if at_end_brace(v, j4) {
                                return Some(Event::Status {
                                    status: st,
                                    wiki_id: Some(n),
                                    message: Some(chars_to_string(&m)),
                                });
                            }
                            return None;
                        },
                        None => {
                            return None;
                        },
                    }
                }
                return None;
            },
            None => {
                return None;
            },
        }
    }
    if let Some(j) = try_lit(v, i, ",\"message\":\"") {
        proof {
            assert(v@.skip(j as int) =~= r1.skip(msg_key().len() as int));
        }
        match parse_string_tok(v, j) {
            Some((m, j2)) => {
                proof {
                    assert(v@.skip(j2 as int) =~= r1.skip(msg_key().len() as int + (j2 - j)));
                }
                if at_end_brace(v, j2) {
                    return Some(Event::Status {
                        status: st,
                        wiki_id: None,
                        message: Some(chars_to_string(&m)),
                    });
                }
                return None;
            },
            None => {
                return None;
            },
        }
    }
    None
}

/// Decodes wire text to an event; accepts exactly the texts the encoder
/// produces, as `spec_decode` states.
pub fn decode_event(s: &str) -> (r: Option<Event>)
    ensures
        match r {
            Some(ev) => spec_decode(s@) == Some(event_model(&ev)),
            None => spec_decode(s@) is None,
        },
{
    let v = str_to_chars(s);
    proof {
        assert(v@.skip(0) =~= v@);
    }
    if let Some(i1) = try_lit(&v, 0, "{\"type\":\"progress\",\"status\":\"") {
        match parse_status_at(&v, i1) {
            Some((st, i2)) => {
                proof {
                    assert(v@.skip(i1 as int) =~= v@.skip(progress_head().len() as int));
                    assert(v@.skip(i2 as int) =~= v@.skip(
                        progress_head().len() as int + (i2 - i1),
                    ));
                }
                decode_progress_tail(&v, st, i2)
            },
            None => None,
        }
    } else if let Some(i1) = try_lit(&v, 0, "{\"type\":\"status\",\"status\":\"") {
        match parse_status_at(&v, i1) {
            Some((st, i2)) => {
                proof {
                    assert(v@.skip(i1 as int) =~= v@.skip(status_head().len() as int));
                    assert(v@.skip(i2 as int) =~= v@.skip(status_head().len() as int + (i2 - i1)));
                }
                decode_status_tail(&v, st, i2)
            },
            None => None,
        }
    } else {
        None
    }
}


/// A witness position where `p` differs from `s` refutes the prefix.
proof fn lemma_not_prefix_at(s: Seq<char>, p: Seq<char>, j: int)
    requires
        0 <= j < p.len(),
        j < s.len(),
        s[j] != p[j],
    ensures
        !p.is_prefix_of(s),
{
    if p.is_prefix_of(s) {
        assert(s.subrange(0, p.len() as int)[j] == s[j]);
    }
}

/// The status words are told apart by their first characters, so reading
/// the front of a canonical rendering returns the status it came from.
proof fn lemma_parse_status_canonical(st: Status, rest: Seq<char>)
    ensures
        spec_parse_status(status_tok(st) + rest) == Some((st, status_tok(st).len() as int)),
{
    reveal_strlit("queued\"");
    reveal_strlit("running\"");
    reveal_strlit("succeeded\"");
    reveal_strlit("failed\"");
    let s = status_tok(st) + rest;
    assert(s.subrange(0, status_tok(st).len() as int) =~= status_tok(st));
    match st {
        Status::Queued => {},
        Status::Running => {
            lemma_not_prefix_at(s, status_tok(Status::Queued), 0);
        },
        Status::Succeeded => {
            lemma_not_prefix_at(s, status_tok(Status::Queued), 0);
            lemma_not_prefix_at(s, status_tok(Status::Running), 0);
        },
        Status::Failed => {
            lemma_not_prefix_at(s, status_tok(Status::Queued), 0);
            lemma_not_prefix_at(s, status_tok(Status::Running), 0);
            lemma_not_prefix_at(s, status_tok(Status::Succeeded), 0);
        },
    }
}

/// The phase words are told apart within their common prefixes, so
/// reading the front of a canonical rendering returns the phase it came
/// from.
proof fn lemma_parse_phase_canonical(p: Phase, rest: Seq<char>)
    ensures
        spec_parse_phase(phase_tok(p) + rest) == Some((p, phase_tok(p).len() as int)),
{
    reveal_strlit("dir_copy\"");
    reveal_strlit("render_ini\"");
    reveal_strlit("db_provision\"");
    reveal_strlit("docker_install\"");
    reveal_strlit("docker_index_cfg\"");
    reveal_strlit("flip_bootstrap\"");
    reveal_strlit("index\"");
    let s = phase_tok(p) + rest;
    assert(s.subrange(0, phase_tok(p).len() as int) =~= phase_tok(p));
    match p {
        Phase::DirCopy => {},
        Phase::RenderIni => {
            lemma_not_prefix_at(s, phase_tok(Phase::DirCopy), 0);
        },
        Phase::DbProvision => {
            lemma_not_prefix_at(s, phase_tok(Phase::DirCopy), 1);
            lemma_not_prefix_at(s, phase_tok(Phase::RenderIni), 0);
        },
        Phase::DockerInstall => {
            lemma_not_prefix_at(s, phase_tok(Phase::DirCopy), 1);
            lemma_not_prefix_at(s, phase_tok(Phase::RenderIni), 0);
            lemma_not_prefix_at(s, phase_tok(Phase::DbProvision), 1);
        },
        Phase::DockerIndexCfg => {
            lemma_not_prefix_at(s, phase_tok(Phase::DirCopy), 1);
            lemma_not_prefix_at(s, phase_tok(Phase::RenderIni), 0);
            lemma_not_prefix_at(s, phase_tok(Phase::DbProvision), 1);
            lemma_not_prefix_at(s, phase_tok(Phase::DockerInstall), 9);
        },
        Phase::FlipBootstrap => {
            lemma_not_prefix_at(s, phase_tok(Phase::DirCopy), 0);
            lemma_not_prefix_at(s, phase_tok(Phase::RenderIni), 0);
            lemma_not_prefix_at(s, phase_tok(Phase::DbProvision), 0);
            lemma_not_prefix_at(s, phase_tok(Phase::DockerInstall), 0);
            lemma_not_prefix_at(s, phase_tok(Phase::DockerIndexCfg), 0);
        },
        Phase::Index => {
            lemma_not_prefix_at(s, phase_tok(Phase::DirCopy), 0);
            lemma_not_prefix_at(s, phase_tok(Phase::RenderIni), 0);
            lemma_not_prefix_at(s, phase_tok(Phase::DbProvision), 0);
            lemma_not_prefix_at(s, phase_tok(Phase::DockerInstall), 0);
            lemma_not_prefix_at(s, phase_tok(Phase::DockerIndexCfg), 0);
            lemma_not_prefix_at(s, phase_tok(Phase::FlipBootstrap), 0);
        },
    }
}

/// Whether every message character of a model can be recovered from its
/// code point; true of every event built from real strings.
pub open spec fn model_faithful(m: EventModel) -> bool {
    match m {
        EventModel::Progress { status: _, message, phase: _ } => match message {
            Some(mm) => chars_faithful(mm),
            None => true,
        },
        EventModel::Status { status: _, wiki_id: _, message } => match message {
            Some(mm) => chars_faithful(mm),
            None => true,
        },
    }
}

proof fn lemma_progress_tail_roundtrip(st: Status, message: Option<Seq<char>>, phase: Option<Phase>)
    requires
        match message { Some(mm) => chars_faithful(mm), None => true },
    ensures
        spec_decode_progress_tail(
            st,
            (match message {
                Some(mm) => msg_key() + spec_escape(mm) + seq!['"'],
                None => Seq::<char>::empty(),
            }) + ((match phase {
                Some(p) => phase_key() + phase_tok(p),
                None => Seq::<char>::empty(),
            }) + seq!['}']),
        ) == Some(EventModel::Progress { status: st, message, phase }),
{
    reveal_strlit(",\"message\":\"");
    reveal_strlit(",\"phase\":\"");
    let b = match message {
        Some(mm) => msg_key() + spec_escape(mm) + seq!['"'],
        None => Seq::<char>::empty(),
    };
    let c = match phase {
        Some(p) => phase_key() + phase_tok(p),
        None => Seq::<char>::empty(),
    };
    let r1 = b + (c + seq!['}']);
    match message {
        None => {
            match phase {
                None => {
                    assert(r1 =~= seq!['}']);
                },
                Some(p) => {
                    assert(r1 =~= phase_key() + (phase_tok(p) + seq!['}']));
                    assert(r1.len() > 1);
                    assert(r1[2] == phase_key()[2]);
                    lemma_not_prefix_at(r1, msg_key(), 2);
                    assert(r1.subrange(0, phase_key().len() as int) =~= phase_key());
                    assert(r1.skip(phase_key().len() as int) =~= phase_tok(p) + seq!['}']);
                    lemma_parse_phase_canonical(p, seq!['}']);
                    assert(r1.skip(phase_key().len() as int + phase_tok(p).len() as int)
                        =~= seq!['}']);
                },
            }
        },
        Some(mm) => {
            let bq = spec_escape(mm);
            assert(r1 =~= msg_key() + (bq + (seq!['"'] + (c + seq!['}']))));
            assert(r1.len() > 1);
            assert(r1.subrange(0, msg_key().len() as int) =~= msg_key());
            let after_key = r1.skip(msg_key().len() as int);
            assert(after_key =~= bq + seq!['"'] + (c + seq!['}']));
            lemma_unescape_escape(mm, c + seq!['}']);
            let r2 = r1.skip(msg_key().len() as int + (bq.len() as int + 1));
            assert(r2 =~= c + seq!['}']);
            match phase {
                None => {
                    assert(r2 =~= seq!['}']);
                },
                Some(p) => {
                    assert(r2 =~= phase_key() + (phase_tok(p) + seq!['}']));
                    assert(r2.len() > 1);
                    assert(r2.subrange(0, phase_key().len() as int) =~= phase_key());
                    assert(r2.skip(phase_key().len() as int) =~= phase_tok(p) + seq!['}']);
                    lemma_parse_phase_canonical(p, seq!['}']);
                    assert(r2.skip(phase_key().len() as int + phase_tok(p).len() as int)
                        =~= seq!['}']);
                },
            }
        },
    }
}

proof fn lemma_status_tail_roundtrip(st: Status, wiki_id: Option<u64>, message: Option<Seq<char>>)
    requires
        match message { Some(mm) => chars_faithful(mm), None => true },
    ensures
        spec_decode_status_tail(
            st,
            (match wiki_id {
                Some(n) => wid_key() + spec_u64_chars(n as int),
                None => Seq::<char>::empty(),
            }) + ((match message {
                Some(mm) => msg_key() + spec_escape(mm) + seq!['"'],
                None => Seq::<char>::empty(),
            }) + seq!['}']),
        ) == Some(EventModel::Status { status: st, wiki_id, message }),
{
    reveal_strlit(",\"message\":\"");
    reveal_strlit(",\"wiki_id\":");
    let a = match wiki_id {
        Some(n) => wid_key() + spec_u64_chars(n as int),
        None => Seq::<char>::empty(),
    };
    let b = match message {
        Some(mm) => msg_key() + spec_escape(mm) + seq!['"'],
        None => Seq::<char>::empty(),
    };
    let r1 = a + (b + seq!['}']);
    match wiki_id {
        None => {
            match message {
                None => {
                    assert(r1 =~= seq!['}']);
                },
                Some(mm) => {
                    let bq = spec_escape(mm);
                    assert(r1 =~= msg_key() + (bq + (seq!['"'] + seq!['}'])));
                    assert(r1.len() > 1);
                    assert(r1[2] == msg_key()[2]);
                    lemma_not_prefix_at(r1, wid_key(), 2);
                    assert(r1.subrange(0, msg_key().len() as int) =~= msg_key());
                    assert(r1.skip(msg_key().len() as int) =~= bq + seq!['"'] + seq!['}']);
                    lemma_unescape_escape(mm, seq!['}']);
                    assert(r1.skip(msg_key().len() as int + (bq.len() as int + 1)) =~= seq!['}']);
                },
            }
        },
        Some(n) => {
            let ds = spec_u64_chars(n as int);
            assert(r1 =~= wid_key() + (ds + (b + seq!['}'])));
            assert(r1.len() > 1);
            assert(r1.subrange(0, wid_key().len() as int) =~= wid_key());
            let after_key = r1.skip(wid_key().len() as int);
            assert(after_key =~= ds + (b + seq!['}']));
            let restp = b + seq!['}'];
            match message {
                None => {
                    assert(restp =~= seq!['}']);
                    assert(!crate::strutil::is_digit(restp[0]));
                },
                Some(mm) => {
                    assert(restp[0] == msg_key()[0]);
                    assert(!crate::strutil::is_digit(restp[0]));
                },
            }
            lemma_parse_canonical_u64(n, restp);
            let r2 = r1.skip(wid_key().len() as int + ds.len() as int);
            assert(r2 =~= restp);
            match message {
                None => {
                    assert(r2 =~= seq!['}']);
                },
                Some(mm) => {
                    let bq = spec_escape(mm);
                    assert(r2 =~= msg_key() + (bq + (seq!['"'] + seq!['}'])));
                    assert(r2.len() > 1);
                    assert(r2.subrange(0, msg_key().len() as int) =~= msg_key());
                    assert(r2.skip(msg_key().len() as int) =~= bq + seq!['"'] + seq!['}']);
                    lemma_unescape_escape(mm, seq!['}']);
                    assert(r2.skip(msg_key().len() as int + (bq.len() as int + 1)) =~= seq!['}']);
                },
            }
        },
    }
}

/// Serialize-then-deserialize is the identity on events: the wire text of
/// any event, progress or status, over every status, phase, wiki id and
/// message, decodes back to exactly that event.
#[verifier::rlimit(100)]
pub proof fn lemma_event_wire_roundtrip(m: EventModel)
    requires
        model_faithful(m),
    ensures
        spec_decode(spec_encode(m)) == Some(m),
{
    reveal_strlit("{\"type\":\"progress\",\"status\":\"");
    reveal_strlit("{\"type\":\"status\",\"status\":\"");
    let s = spec_encode(m);
    match m {
        EventModel::Progress { status, message, phase } => {
            let a = status_tok(status);
            let b = match message {
                Some(mm) => msg_key() + spec_escape(mm) + seq!['"'],
                None => Seq::<char>::empty(),
            };
            let c = match phase {
                Some(p) => phase_key() + phase_tok(p),
                None => Seq::<char>::empty(),
            };
            let rest1 = b + (c + seq!['}']);
            let tail0 = a + rest1;
            assert(s =~= progress_head() + tail0);
            assert(s.subrange(0, progress_head().len() as int) =~= progress_head());
            assert(s.skip(progress_head().len() as int) =~= tail0);
            lemma_parse_status_canonical(status, rest1);
            assert(s.skip(progress_head().len() as int + a.len() as int) =~= rest1);
            lemma_progress_tail_roundtrip(status, message, phase);
        },
        EventModel::Status { status, wiki_id, message } => {
            let a = status_tok(status);
            let w = match wiki_id {
                Some(n) => wid_key() + spec_u64_chars(n as int),
                None => Seq::<char>::empty(),
            };
            let b = match message {
                Some(mm) => msg_key() + spec_escape(mm) + seq!['"'],
                None => Seq::<char>::empty(),
            };
            let rest1 = w + (b + seq!['}']);
            let tail0 = a + rest1;
            assert(s =~= status_head() + tail0);
            assert(s[9] == status_head()[9]);
            lemma_not_prefix_at(s, progress_head(), 9);
            assert(s.subrange(0, status_head().len() as int) =~= status_head());
            assert(s.skip(status_head().len() as int) =~= tail0);
            lemma_parse_status_canonical(status, rest1);
            assert(s.skip(status_head().len() as int + a.len() as int) =~= rest1);
            lemma_status_tail_roundtrip(status, wiki_id, message);
        },
    }
}

} // verus!
