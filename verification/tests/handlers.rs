use wikifarm_service::auth::auth_from_headers;
use wikifarm_service::create::{decode_job, encode_job, JobPayload};
use wikifarm_service::env::{RawEnv, WikifarmEnv};
use wikifarm_service::fsplan::{symlink_template_plan, EntryKind, TemplateEntry};
use wikifarm_service::hostslug::slug_from_host;
use wikifarm_service::manage::{
    delete_wiki, favicon_check, set_visibility_decision, sync_subdirs_plan, visibility_check,
    VisibilityBody, VisibilityOutcome,
};

#[test]
fn auth_requires_id_and_username() {
    let a = auth_from_headers(Some("7"), Some("  bob  "), Some("admin")).unwrap();
    assert_eq!(a.user_id, 7);
    assert_eq!(a.username, "bob");
    assert_eq!(a.granted_right.as_deref(), Some("admin"));
    let b = auth_from_headers(Some("+5"), Some("eve"), None).unwrap();
    assert_eq!(b.user_id, 5);
    assert!(b.granted_right.is_none());
    assert_eq!(auth_from_headers(None, Some("bob"), None).unwrap_err().status, 401);
    assert_eq!(auth_from_headers(Some("7"), None, None).unwrap_err().status, 401);
    assert_eq!(auth_from_headers(Some("12x"), Some("bob"), None).unwrap_err().code,
        "auth_headers_missing");
    assert_eq!(auth_from_headers(Some("7"), Some("   "), None).unwrap_err().status, 401);
}

#[test]
fn slug_extraction_from_host() {
    let s = slug_from_host("demo-1.wiki.example.com", "wiki.example.com").unwrap();
    assert_eq!(s.0, "demo-1");
    let s2 = slug_from_host(" demo-1.wiki.example.com:8443 ", "wiki.example.com").unwrap();
    assert_eq!(s2.0, "demo-1");
    let s3 = slug_from_host("a.demo-2.wiki.example.com, other", "wiki.example.com");
    assert_eq!(s3.unwrap().0, "demo-2");
    assert_eq!(
        slug_from_host("wiki.example.com", "wiki.example.com").unwrap_err().code,
        "no_slug"
    );
    assert_eq!(
        slug_from_host("elsewhere.net", "wiki.example.com").unwrap_err().code,
        "host_mismatch"
    );
    assert_eq!(slug_from_host("x.whatever", "  ").unwrap_err().status, 500);
    assert_eq!(
        slug_from_host("BAD!.wiki.example.com", "wiki.example.com").unwrap_err().code,
        "param_invalid"
    );
}

#[test]
fn visibility_update_decision() {
    let body = VisibilityBody { visibility: String::from("  PRIVATE ") };
    let (id, vis) = set_visibility_decision(Some((9, 3)), 3, &body).unwrap();
    assert_eq!(id, 9);
    assert_eq!(vis, "private");
    assert_eq!(set_visibility_decision(None, 3, &body).unwrap_err().status, 404);
    assert_eq!(set_visibility_decision(Some((9, 3)), 4, &body).unwrap_err().status, 403);
    let odd = VisibilityBody { visibility: String::from("sideways") };
    assert_eq!(set_visibility_decision(Some((9, 3)), 3, &odd).unwrap_err().status, 400);
}

#[test]
fn forward_auth_visibility() {
    let public = String::from("public");
    let private = String::from("private");
    let unlisted = String::from("unlisted");
    let ready = String::from("ready");
    let pending = String::from("pending");
    let none: Vec<String> = vec![];
    let sysop = vec![String::from("bot"), String::from("sysop")];
    assert!(matches!(
        visibility_check(Some((&public, &ready)), &none),
        VisibilityOutcome::PassPublic
    ));
    assert!(matches!(
        visibility_check(Some((&unlisted, &ready)), &none),
        VisibilityOutcome::PassUnlisted
    ));
    assert!(matches!(
        visibility_check(Some((&private, &ready)), &sysop),
        VisibilityOutcome::PassPrivateSysop
    ));
    assert!(matches!(
        visibility_check(Some((&private, &ready)), &none),
        VisibilityOutcome::ForbiddenPrivate
    ));
    assert!(matches!(
        visibility_check(Some((&public, &pending)), &none),
        VisibilityOutcome::NotReady
    ));
    assert!(matches!(visibility_check(None, &none), VisibilityOutcome::NotFound));
}

#[test]
fn favicon_checks() {
    assert!(favicon_check(&vec![0x89, 0x50, 0x4e, 0x47, 1, 2]).is_ok());
    assert!(favicon_check(&vec![0x00, 0x00, 0x01, 0x00]).is_ok());
    assert!(favicon_check(&vec![0xff, 0xd8, 0xff]).is_ok());
    assert_eq!(favicon_check(&vec![1, 2, 3, 4]).unwrap_err().code, "invalid_type");
    let big = vec![0x89u8; 2 * 1024 * 1024 + 1];
    assert_eq!(favicon_check(&big).unwrap_err().code, "file_too_large");
}

#[test]
fn delete_is_idempotent_and_owner_only() {
    // Deleting a slug that was never created succeeds with nothing to do,
    // and doing it again succeeds again.
    assert!(delete_wiki("demo-1", "/srv/wikis", "/config", None, 3).unwrap().is_none());
    assert!(delete_wiki("demo-1", "/srv/wikis", "/config", None, 3).unwrap().is_none());
    assert_eq!(
        delete_wiki("demo-1", "/srv/wikis", "/config", Some((9, 3)), 0).unwrap_err().status,
        401
    );
    assert_eq!(
        delete_wiki("demo-1", "/srv/wikis", "/config", Some((9, 3)), 4).unwrap_err().status,
        403
    );
    let plan = delete_wiki("demo-1", "/srv/wikis", "/config", Some((9, 3)), 3).unwrap().unwrap();
    assert_eq!(plan.wiki_id, 9);
    assert_eq!(plan.target_dir, "/srv/wikis/demo-1");
    assert_eq!(plan.db_statements[0], "DROP USER IF EXISTS 'demo-1'@'%'");
    assert_eq!(
        delete_wiki("BAD", "/srv/wikis", "/config", None, 3).unwrap_err().code,
        "param_invalid"
    );
}

#[test]
fn sync_plan_paths() {
    let items = vec![String::from("CirrusSearch"), String::from("Vector")];
    let p = sync_subdirs_plan("demo-1", &items, "/template", "/srv/wikis", "extensions").unwrap();
    assert_eq!(p.dest_base, "/srv/wikis/demo-1/extensions");
    assert_eq!(p.pairs.len(), 2);
    assert_eq!(p.pairs[0].target, "/template/extensions/CirrusSearch");
    assert_eq!(p.pairs[0].link, "/srv/wikis/demo-1/extensions/CirrusSearch");
    let bad = vec![String::from("../evil")];
    assert!(sync_subdirs_plan("demo-1", &bad, "/template", "/srv/wikis", "skins").is_err());
}

#[test]
fn template_plan_is_shallow_for_extensions_and_skins() {
    let entries = vec![
        TemplateEntry {
            name: String::from("LocalSettings.php"),
            kind: EntryKind::File,
            children: vec![],
        },
        TemplateEntry {
            name: String::from("extensions"),
            kind: EntryKind::Dir,
            children: vec![String::from("CirrusSearch"), String::from("SemanticMediaWiki")],
        },
        TemplateEntry { name: String::from("socket"), kind: EntryKind::Other, children: vec![] },
        TemplateEntry {
            name: String::from("skins"),
            kind: EntryKind::Dir,
            children: vec![String::from("Vector")],
        },
    ];
    let plan = symlink_template_plan("/template", "/srv/wikis/demo-1", &entries);
    assert_eq!(plan.mkdirs.len(), 3);
    assert_eq!(plan.mkdirs[0], "/srv/wikis/demo-1");
    assert_eq!(plan.mkdirs[1], "/srv/wikis/demo-1/extensions");
    assert_eq!(plan.mkdirs[2], "/srv/wikis/demo-1/skins");
    let pairs: Vec<(String, String)> = plan
        .links
        .iter()
        .map(|l| (l.target.clone(), l.link.clone()))
        .collect();
    assert_eq!(
        pairs,
        vec![
            (
                String::from("/template/LocalSettings.php"),
                String::from("/srv/wikis/demo-1/LocalSettings.php"),
            ),
            (
                String::from("/template/extensions/CirrusSearch"),
                String::from("/srv/wikis/demo-1/extensions/CirrusSearch"),
            ),
            (
                String::from("/template/extensions/SemanticMediaWiki"),
                String::from("/srv/wikis/demo-1/extensions/SemanticMediaWiki"),
            ),
            (
                String::from("/template/skins/Vector"),
                String::from("/srv/wikis/demo-1/skins/Vector"),
            ),
        ]
    );
}

#[test]
fn env_gather_defaults_and_requirements() {
    let raw = RawEnv {
        wikifarm_dir: None,
        wikifarm_template: None,
        wikifarm_config_dir: Some(String::from("/etc/wikis")),
        wikifarm_instance: Some(String::from("wiki-host-1")),
        wiki_host: Some(String::from("wiki.example.com")),
        wiki_db_host: Some(String::from("db")),
        wiki_shared_db_name: Some(String::from("shared")),
        opensearch_user: Some(String::from("u")),
        opensearch_port: Some(String::from("9200")),
        opensearch_transport: Some(String::from("https")),
        opensearch_password: Some(String::from("p")),
        opensearch_endpoint: Some(String::from("search")),
        redis_password: Some(String::from("rp")),
        redis_server: Some(String::from("redis")),
        wiki_aws_region: Some(String::from("eu-central-1")),
    };
    let env = WikifarmEnv::gather(raw).unwrap();
    assert_eq!(env.wikifarm_dir, "/srv/wikis");
    assert_eq!(env.wikifarm_template, "/template");
    assert_eq!(env.wikifarm_config_dir, "/etc/wikis");
    let missing = RawEnv {
        wikifarm_dir: None,
        wikifarm_template: None,
        wikifarm_config_dir: None,
        wikifarm_instance: None,
        wiki_host: Some(String::from("h")),
        wiki_db_host: Some(String::from("d")),
        wiki_shared_db_name: Some(String::from("s")),
        opensearch_user: Some(String::from("u")),
        opensearch_port: Some(String::from("p")),
        opensearch_transport: Some(String::from("t")),
        opensearch_password: Some(String::from("p")),
        opensearch_endpoint: Some(String::from("e")),
        redis_password: Some(String::from("rp")),
        redis_server: Some(String::from("rs")),
        wiki_aws_region: Some(String::from("r")),
    };
    let err = WikifarmEnv::gather(missing).unwrap_err();
    assert_eq!(err, "missing env WIKIFARM_INSTANCE");
}

#[test]
fn job_payload_queue_roundtrip() {
    let job = JobPayload {
        task_id: String::from("task-1"),
        name: String::from("Demo \"quoted\""),
        slug: String::from("demo-1"),
        language: String::from("en"),
        visibility: String::from("public"),
        owner_id: 7,
        owner_username: String::from("tester"),
    };
    let json = encode_job(&job);
    assert!(json.starts_with("{\"task_id\":\"task-1\""));
    assert!(json.contains("\"owner\":{\"id\":7,\"username\":\"tester\"}"));
    let back = decode_job(&json).unwrap();
    assert_eq!(back.task_id, job.task_id);
    assert_eq!(back.name, job.name);
    assert_eq!(back.slug, job.slug);
    assert_eq!(back.language, job.language);
    assert_eq!(back.visibility, job.visibility);
    assert_eq!(back.owner_id, job.owner_id);
    assert_eq!(back.owner_username, job.owner_username);
    assert!(decode_job("not a job").is_none());
}
