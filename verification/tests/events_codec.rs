use wikifarm_service::events::{decode_event, encode_event, Event, Phase, Status};
use wikifarm_service::jsonchars::chars_are_faithful;

#[test]
fn progress_event_serde_roundtrip() {
    let evt = Event::Progress {
        status: Status::Running,
        message: Some("install".to_string()),
        phase: Some(Phase::DockerInstall),
    };
    let json = encode_event(&evt);
    assert!(json.contains("\"type\":\"progress\""));
    assert!(json.contains("\"status\":\"running\""));
    assert!(json.contains("\"message\":\"install\""));
    assert!(json.contains("\"phase\":\"docker_install\""));

    let de = decode_event(&json).unwrap();
    match de {
        Event::Progress { status, message, phase } => {
            matches!(status, Status::Running);
            assert_eq!(message.as_deref(), Some("install"));
            matches!(phase, Some(Phase::DockerInstall));
        }
        _ => panic!("expected progress"),
    }
}

#[test]
fn status_event_serde_roundtrip() {
    let evt = Event::Status { status: Status::Succeeded, wiki_id: Some(123), message: None };
    let json = encode_event(&evt);
    assert!(json.contains("\"type\":\"status\""));
    assert!(json.contains("\"status\":\"succeeded\""));
    assert!(json.contains("\"wiki_id\":123"));

    let de = decode_event(&json).unwrap();
    match de {
        Event::Status { status, wiki_id, message } => {
            matches!(status, Status::Succeeded);
            assert_eq!(wiki_id, Some(123));
            assert!(message.is_none());
        }
        _ => panic!("expected status"),
    }
}

#[test]
fn roundtrip_all_statuses_and_phases() {
    let statuses = [Status::Queued, Status::Running, Status::Succeeded, Status::Failed];
    let phases = [
        Phase::DirCopy,
        Phase::RenderIni,
        Phase::DbProvision,
        Phase::DockerInstall,
        Phase::DockerIndexCfg,
        Phase::FlipBootstrap,
        Phase::Index,
    ];
    for st in statuses {
        for ph in phases {
            let e = Event::Progress {
                status: st,
                message: Some(String::from("step")),
                phase: Some(ph),
            };
            assert_eq!(decode_event(&encode_event(&e)), Some(e));
        }
        for wid in [None, Some(0u64), Some(u64::MAX)] {
            let e = Event::Status { status: st, wiki_id: wid, message: Some(String::from("m")) };
            assert_eq!(decode_event(&encode_event(&e)), Some(e));
        }
        let bare = Event::Progress { status: st, message: None, phase: None };
        assert_eq!(decode_event(&encode_event(&bare)), Some(bare));
        let bare2 = Event::Status { status: st, wiki_id: None, message: None };
        assert_eq!(decode_event(&encode_event(&bare2)), Some(bare2));
    }
}

#[test]
fn roundtrip_with_escaped_message() {
    let msg = "he said \"no\\way\"\n\ttab\r\u{8}\u{c}\u{1}and more";
    let e = Event::Status {
        status: Status::Failed,
        wiki_id: None,
        message: Some(String::from(msg)),
    };
    let json = encode_event(&e);
    assert!(json.contains("\\\"no\\\\way\\\""));
    assert!(json.contains("\\n"));
    assert!(json.contains("\\t"));
    assert!(json.contains("\\r"));
    assert!(json.contains("\\b"));
    assert!(json.contains("\\f"));
    assert!(json.contains("\\u0001"));
    assert_eq!(decode_event(&json), Some(e));
}

#[test]
fn decode_rejects_malformed_payloads() {
    assert_eq!(decode_event(""), None);
    assert_eq!(decode_event("not json"), None);
    assert_eq!(decode_event("{\"type\":\"other\"}"), None);
    assert_eq!(decode_event("{\"type\":\"progress\",\"status\":\"sideways\"}"), None);
    assert_eq!(decode_event("{\"type\":\"progress\",\"status\":\"queued\""), None);
    assert_eq!(decode_event("{\"type\":\"status\",\"status\":\"failed\"}trailing"), None);
}

#[test]
fn real_strings_satisfy_the_roundtrip_premise() {
    assert!(chars_are_faithful(""));
    assert!(chars_are_faithful("plain text"));
    assert!(chars_are_faithful("\u{0}\u{1}\t\n\r\u{1f}\"\\ mixed \u{7f} ü 語"));
}
