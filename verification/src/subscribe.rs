//! The race-free late-subscriber protocol of the event stream: subscribe
//! first, then read the task row; a task already terminal yields exactly
//! one synthesized status event and the stream closes. Non-terminal
//! tasks may get one cached progress snapshot, then live messages are
//! forwarded, tagged when they parse, until a terminal status arrives.

use vstd::prelude::*;
use crate::events::{Event, EventModel, Status, spec_encode, spec_decode, encode_event,
    decode_event, spec_is_terminal, is_terminal};

verus! {

/// One frame of the event stream: a named event, or a raw payload
/// forwarded untagged.
#[derive(Debug)]
pub enum SseFrame {
    Named { name: String, data: String },
    Untagged { data: String },
}

/// The task-row snapshot the subscription reads after it is live.
#[derive(Debug)]
pub struct TaskSnapshot {
    pub status: Status,
    pub wiki_id: Option<u64>,
    pub message: Option<String>,
}

/// What the subscription does between going live and entering the
/// receive loop: the frames to emit first, and whether to close without
/// ever entering the loop.
#[derive(Debug)]
pub struct SubscriptionOpening {
    pub frames: Vec<SseFrame>,
    pub close: bool,
}

/// Whether a cached payload is a usable progress snapshot: it parses as
/// a progress event whose status is not terminal.
pub open spec fn spec_usable_snapshot(payload: Seq<char>) -> bool {
    match spec_decode(payload) {
        Some(m) => m matches EventModel::Progress { status, message: _, phase: _ }
            && !spec_is_terminal(status),
        None => false,
    }
}

/// Decides the subscription's opening after the subscription is live.
/// A task that is already terminal yields exactly one frame — a `status`
/// event synthesized from the row, duplicating the real message at
/// worst — and the stream closes at once, so a late subscriber observes
/// exactly one terminal event. Otherwise the stream stays open, emitting
/// one cached `progress` snapshot first when the cache holds a usable
/// one.
pub fn subscription_opening(row: Option<&TaskSnapshot>, cached: Option<&String>) -> (r:
    SubscriptionOpening)
    ensures
        (match row {
            Some(t) => spec_is_terminal(t.status),
            None => false,
        }) ==> {
            &&& r.close
            &&& r.frames@.len() == 1
            &&& (r.frames@[0] matches SseFrame::Named { name, data } && name@ == "status"@ && (
            match row {
                Some(t) => data@ == spec_encode(EventModel::Status {
                    status: t.status,
                    wiki_id: t.wiki_id,
                    message: match t.message {
                        Some(m) => Some(m@),
                        None => None,
                    },
                }),
                None => false,
            }))
        },
        !(match row {
            Some(t) => spec_is_terminal(t.status),
            None => false,
        }) ==> {
            &&& !r.close
            &&& (match cached {
                Some(c) => {
                    if spec_usable_snapshot(c@) {
                        r.frames@.len() == 1 && (r.frames@[0] matches SseFrame::Named {
                            name,
                            data,
                        } && name@ == "progress"@ && data@ == c@)
                    } else {
                        r.frames@.len() == 0
                    }
                },
                None => r.frames@.len() == 0,
            })
        },
{
    let mut frames: Vec<SseFrame> = Vec::new();
    match row {
        Some(t) => {
            if is_terminal(t.status) {
                let ev = Event::Status {
                    status: t.status,
                    wiki_id: t.wiki_id,
                    message: match &t.message {
                        Some(m) => Some(m.clone()),
                        None => None,
                    },
                };
                let data = encode_event(&ev);
                frames.push(SseFrame::Named { name: String::from_str("status"), data });
                return SubscriptionOpening { frames, close: true };
            }
        },
        None => {},
    }
    match cached {
        Some(c) => {
            match decode_event(c.as_str()) {
                Some(ev) => {
                    let keep = match &ev {
                        Event::Progress { status, message: _, phase: _ } => !is_terminal(*status),
                        Event::Status { .. } => false,
                    };
                    if keep {
                        frames.push(SseFrame::Named {
                            name: String::from_str("progress"),
                            data: c.clone(),
                        });
                    }
                },
                None => {},
            }
        },
        None => {},
    }
    SubscriptionOpening { frames, close: false }
}

/// Handles one live payload of the receive loop: a payload that parses
/// is forwarded unchanged under its variant's tag, and a terminal status
/// closes the stream; an unparseable payload is forwarded untagged and
/// the stream stays open.
pub fn on_payload(payload: &String) -> (r: (SseFrame, bool))
    ensures
        match spec_decode(payload@) {
            Some(m) => {
                &&& (m matches EventModel::Progress { status: _, message: _, phase: _ }
                    ==> (r.0 matches SseFrame::Named { name, data } && name@ == "progress"@
                        && data@ == payload@ && r.1 == false))
                &&& (m matches EventModel::Status { status, wiki_id: _, message: _ } ==> (
                r.0 matches SseFrame::Named { name, data } && name@ == "status"@ && data@
                    == payload@ && r.1 == spec_is_terminal(status)))
            },
            None => r.0 matches SseFrame::Untagged { data } && data@ == payload@ && r.1 == false,
        },
{
    match decode_event(payload.as_str()) {
        Some(ev) => {
            match &ev {
                Event::Progress { .. } => (
                    SseFrame::Named { name: String::from_str("progress"), data: payload.clone() },
                    false,
                ),
                Event::Status { status, .. } => (
                    SseFrame::Named { name: String::from_str("status"), data: payload.clone() },
                    is_terminal(*status),
                ),
            }
        },
        None => (SseFrame::Untagged { data: payload.clone() }, false),
    }
}

} // verus!
