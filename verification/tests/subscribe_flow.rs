use wikifarm_service::events::{encode_event, Event, Phase, Status};
use wikifarm_service::subscribe::{on_payload, subscription_opening, SseFrame, TaskSnapshot};

#[test]
fn late_subscriber_sees_exactly_one_terminal_event() {
    let row = TaskSnapshot {
        status: Status::Succeeded,
        wiki_id: Some(42),
        message: None,
    };
    let opening = subscription_opening(Some(&row), None);
    assert!(opening.close);
    assert_eq!(opening.frames.len(), 1);
    match &opening.frames[0] {
        SseFrame::Named { name, data } => {
            assert_eq!(name, "status");
            assert_eq!(data, "{\"type\":\"status\",\"status\":\"succeeded\",\"wiki_id\":42}");
        }
        _ => panic!("expected a named status frame"),
    }
}

#[test]
fn late_subscriber_terminal_failure_carries_message() {
    let row = TaskSnapshot {
        status: Status::Failed,
        wiki_id: None,
        message: Some(String::from("provision error: boom")),
    };
    let opening = subscription_opening(Some(&row), Some(&String::from("ignored")));
    assert!(opening.close);
    assert_eq!(opening.frames.len(), 1);
    match &opening.frames[0] {
        SseFrame::Named { name, data } => {
            assert_eq!(name, "status");
            assert!(data.contains("\"status\":\"failed\""));
            assert!(data.contains("provision error: boom"));
        }
        _ => panic!("expected a named status frame"),
    }
}

#[test]
fn running_task_gets_cached_progress_snapshot() {
    let row = TaskSnapshot { status: Status::Running, wiki_id: None, message: None };
    let cached = encode_event(&Event::Progress {
        status: Status::Running,
        message: Some(String::from("db provision")),
        phase: Some(Phase::DbProvision),
    });
    let opening = subscription_opening(Some(&row), Some(&cached));
    assert!(!opening.close);
    assert_eq!(opening.frames.len(), 1);
    match &opening.frames[0] {
        SseFrame::Named { name, data } => {
            assert_eq!(name, "progress");
            assert_eq!(data, &cached);
        }
        _ => panic!("expected a named progress frame"),
    }
}

#[test]
fn unusable_cache_is_skipped() {
    let row = TaskSnapshot { status: Status::Running, wiki_id: None, message: None };
    let opening = subscription_opening(Some(&row), Some(&String::from("not an event")));
    assert!(!opening.close);
    assert_eq!(opening.frames.len(), 0);
    // A cached terminal status is no progress snapshot either.
    let terminal = encode_event(&Event::Status {
        status: Status::Succeeded,
        wiki_id: Some(1),
        message: None,
    });
    let opening2 = subscription_opening(None, Some(&terminal));
    assert!(!opening2.close);
    assert_eq!(opening2.frames.len(), 0);
}

#[test]
fn live_payloads_are_tagged_and_terminal_closes() {
    let progress = encode_event(&Event::Progress {
        status: Status::Running,
        message: None,
        phase: Some(Phase::Index),
    });
    let (frame, close) = on_payload(&progress);
    assert!(!close);
    match frame {
        SseFrame::Named { name, data } => {
            assert_eq!(name, "progress");
            assert_eq!(data, progress);
        }
        _ => panic!("expected a named frame"),
    }
    let terminal = encode_event(&Event::Status {
        status: Status::Failed,
        wiki_id: None,
        message: Some(String::from("boom")),
    });
    let (frame2, close2) = on_payload(&terminal);
    assert!(close2);
    match frame2 {
        SseFrame::Named { name, .. } => assert_eq!(name, "status"),
        _ => panic!("expected a named frame"),
    }
}

#[test]
fn unparseable_payload_forwarded_untagged() {
    let raw = String::from("{\"type\":\"mystery\"}");
    let (frame, close) = on_payload(&raw);
    assert!(!close);
    match frame {
        SseFrame::Untagged { data } => assert_eq!(data, raw),
        _ => panic!("expected an untagged frame"),
    }
}
