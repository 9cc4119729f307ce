use wikifarm_service::ini::{
    ini_dir, ini_path, render_pubwiki_ini, set_bootstrapping, slug_marker_text, WikiIniConfig,
};

fn cfg_with_password(pw: &str) -> WikiIniConfig {
    WikiIniConfig {
        name: String::new(),
        slug: String::new(),
        language: String::new(),
        wiki_host: String::new(),
        db_host: String::new(),
        db_name: String::new(),
        db_user: String::new(),
        db_password: String::from(pw),
        shared_db_name: String::new(),
        opensearch_user: String::new(),
        opensearch_transport: String::new(),
        opensearch_port: String::new(),
        opensearch_password: String::new(),
        opensearch_endpoint: String::new(),
        redis_password: String::new(),
        redis_server: String::new(),
        wiki_aws_region: String::new(),
    }
}

#[test]
fn test_ini() {
    let cfg = cfg_with_password("su&#@!");
    let text = render_pubwiki_ini(&cfg, true);
    assert!(text.contains("WIKI_DB_PASSWORD=\"su&#@!\"\n"));
    assert!(text.contains("WIKI_BOOTSTRAPING=\"true\"\n"));
}

#[test]
fn render_has_fixed_keys_in_order() {
    let mut cfg = cfg_with_password("pw");
    cfg.name = String::from("My Wiki");
    cfg.slug = String::from("demo-1");
    cfg.wiki_host = String::from("wiki.example.com");
    cfg.language = String::from("en");
    let text = render_pubwiki_ini(&cfg, true);
    assert!(text.starts_with("WIKI_SITE_NAME=\"My Wiki\"\n"));
    assert!(text.contains("WIKI_HOST_URL=\"https://demo-1.wiki.example.com\"\n"));
    assert!(text.contains("WIKI_META_NAMESPACE=\"My_Wiki\"\n"));
    assert!(text.contains("WIKI_LANG=\"en\"\n"));
    assert!(text.ends_with("WIKI_BOOTSTRAPING=\"true\"\nWIKI_DEBUGGING=\"true\"\n"));
}

#[test]
fn final_render_turns_bootstrap_off() {
    let cfg = cfg_with_password("pw");
    let text = render_pubwiki_ini(&cfg, false);
    assert!(text.ends_with("WIKI_BOOTSTRAPING=\"false\"\nWIKI_DEBUGGING=\"true\"\n"));
    assert!(!text.contains("WIKI_BOOTSTRAPING=\"true\""));
}

#[test]
fn flip_matches_fresh_render() {
    let mut cfg = cfg_with_password("secret");
    cfg.name = String::from("Demo");
    cfg.slug = String::from("demo-1");
    let on = render_pubwiki_ini(&cfg, true);
    let off = render_pubwiki_ini(&cfg, false);
    assert_eq!(set_bootstrapping(&on, false), off);
    assert_eq!(set_bootstrapping(&off, true), on);
    assert_eq!(set_bootstrapping(&off, false), off);
}

#[test]
fn flip_appends_when_key_missing() {
    assert_eq!(
        set_bootstrapping("A=\"1\"\n", false),
        "A=\"1\"\nWIKI_BOOTSTRAPING=\"false\"\n"
    );
    assert_eq!(set_bootstrapping("", true), "WIKI_BOOTSTRAPING=\"true\"\n");
    assert_eq!(
        set_bootstrapping("A=\"1\"", false),
        "A=\"1\"\nWIKI_BOOTSTRAPING=\"false\"\n"
    );
}

#[test]
fn paths_and_marker() {
    assert_eq!(ini_path("/config", "demo-1"), "/config/demo-1/pubwiki.ini");
    assert_eq!(ini_dir("/config", "demo-1"), "/config/demo-1");
    assert_eq!(slug_marker_text("demo-1"), "WIKI_SLUG=demo-1\n");
}
