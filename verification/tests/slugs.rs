use wikifarm_service::create::{
    check_slug, create_wiki, is_reserved_slug, normalize_visibility, page_params, plan_create,
    next_offset, CreateWikiReq,
};
use wikifarm_service::validate::{is_valid_group, is_valid_ident, is_valid_slug, validate, Pattern};

#[test]
fn test_blacklist() {
    assert!(is_reserved_slug("portainer"));
    assert!(is_reserved_slug(&"mcpss"[..3]));
    assert!(!is_reserved_slug("portaner"));
}

#[test]
fn slug_length_boundaries() {
    assert!(!is_valid_slug("ab"));
    assert!(is_valid_slug("abc"));
    assert!(is_valid_slug(&"a".repeat(64)));
    assert!(!is_valid_slug(&"a".repeat(65)));
}

#[test]
fn slug_character_classes() {
    assert!(is_valid_slug("demo-1"));
    assert!(!is_valid_slug("Demo-1"));
    assert!(!is_valid_slug("demo_1"));
    assert!(is_valid_group("sysop"));
    assert!(is_valid_group("a group.*"));
    assert!(!is_valid_group("bad~group"));
    assert!(is_valid_ident("wiki_db-1"));
    assert!(!is_valid_ident("wiki db"));
}

#[test]
fn visibility_normalization() {
    assert_eq!(normalize_visibility(None), "public");
    assert_eq!(normalize_visibility(Some("PRIVATE")), "private");
    assert_eq!(normalize_visibility(Some("Unlisted")), "unlisted");
    assert_eq!(normalize_visibility(Some("whatever")), "public");
    assert_eq!(normalize_visibility(Some("")), "public");
}

fn demo_req(slug: &str) -> CreateWikiReq {
    CreateWikiReq {
        name: String::from("Demo"),
        slug: String::from(slug),
        language: Some(String::from("en")),
        visibility: None,
    }
}

#[test]
fn create_accepts_valid_new_slug() {
    let plan = plan_create(&demo_req("demo-1"), 0, "tester", false, "task-1").unwrap();
    assert_eq!(plan.task_id, "task-1");
    assert_eq!(plan.language, "en");
    assert_eq!(plan.visibility, "public");
    assert_eq!(plan.channel, "tasks:task-1");
    assert_eq!(plan.job.slug, "demo-1");
    assert_eq!(plan.job.owner_id, 0);
    assert_eq!(plan.job.owner_username, "tester");
    assert_eq!(
        plan.initial_event_json,
        "{\"type\":\"progress\",\"status\":\"queued\",\"message\":\"queued\"}"
    );
    assert!(plan.job_json.contains("\"slug\":\"demo-1\""));
    assert!(plan.job_json.contains("\"owner\":{\"id\":0,\"username\":\"tester\"}"));
}

#[test]
fn create_rejects_invalid_slug() {
    let e = plan_create(&demo_req("INVALID"), 0, "tester", false, "t").unwrap_err();
    assert_eq!(e.status, 400);
    assert_eq!(e.code, "param_invalid");
}

#[test]
fn create_rejects_reserved_slug() {
    let e = plan_create(&demo_req("portainer"), 0, "tester", false, "t").unwrap_err();
    assert_eq!(e.status, 409);
    assert_eq!(e.code, "conflict");
}

#[test]
fn create_rejects_taken_slug() {
    let e = plan_create(&demo_req("dup"), 0, "tester", true, "t").unwrap_err();
    assert_eq!(e.status, 409);
    assert_eq!(e.code, "conflict");
}

#[test]
fn create_wiki_allocates_uuid_shaped_task_id() {
    let plan = create_wiki(&demo_req("demo-2"), 7, "tester", false).unwrap();
    let id: Vec<char> = plan.task_id.chars().collect();
    assert_eq!(id.len(), 36);
    for (i, c) in id.iter().enumerate() {
        if i == 8 || i == 13 || i == 18 || i == 23 {
            assert_eq!(*c, '-');
        } else {
            assert!(c.is_ascii_hexdigit() && !c.is_ascii_uppercase());
        }
    }
    assert_eq!(plan.channel, format!("tasks:{}", plan.task_id));
}

#[test]
fn check_slug_reports_taken_and_reserved() {
    assert_eq!(check_slug("fresh-slug", false).unwrap(), false);
    assert_eq!(check_slug("fresh-slug", true).unwrap(), true);
    assert_eq!(check_slug("pubwiki", false).unwrap(), true);
    let e = check_slug("NOPE", false).unwrap_err();
    assert_eq!(e.code, "param_invalid");
}

#[test]
fn paging_clamps_and_defaults() {
    assert_eq!(page_params(None, None), (20, 0));
    assert_eq!(page_params(Some(0), Some(-5)), (1, 0));
    assert_eq!(page_params(Some(1000), Some(7)), (100, 7));
    assert_eq!(next_offset(7, 20), 27);
}

#[test]
fn validate_rejects_with_param_invalid() {
    assert!(validate("demo-1", Pattern::Slug).is_ok());
    assert!(validate("Some Group.*", Pattern::Group).is_ok());
    assert!(validate("read", Pattern::Permission).is_ok());
    assert!(validate("Ext_Dir-1", Pattern::Dir).is_ok());
    let e = validate("no good", Pattern::Dir).unwrap_err();
    assert_eq!(e.status, 400);
    assert_eq!(e.code, "param_invalid");
    assert!(e.message.contains("no good"));
}
