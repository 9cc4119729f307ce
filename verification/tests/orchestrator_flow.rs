use wikifarm_service::docker::{exec_outcome, DockerError};
use wikifarm_service::env::WikifarmEnv;
use wikifarm_service::events::{Event, Phase, Status};
use wikifarm_service::orchestrator::{
    rollback, stage_action, stage_event, CompensationAction, ProvisionAction, ProvisionContext,
    ProvisionMachine, Step,
};
use wikifarm_service::tasks::{
    fresh_db_password, provision_context, worker_terminal, TaskRecord,
};
use wikifarm_service::create::JobPayload;

fn env() -> WikifarmEnv {
    WikifarmEnv {
        wikifarm_dir: String::from("/srv/wikis"),
        wikifarm_template: String::from("/template"),
        wikifarm_config_dir: String::from("/config"),
        wikifarm_instance: String::from("wiki-host-1"),
        wiki_host: String::from("wiki.example.com"),
        wiki_db_host: String::from("db.internal"),
        wiki_shared_db_name: String::from("shared"),
        opensearch_user: String::from("os-user"),
        opensearch_port: String::from("9200"),
        opensearch_transport: String::from("https"),
        opensearch_password: String::from("os-pass"),
        opensearch_endpoint: String::from("search.internal"),
        redis_password: String::from("r-pass"),
        redis_server: String::from("redis.internal"),
        wiki_aws_region: String::from("eu-central-1"),
    }
}

fn ctx() -> ProvisionContext {
    let job = JobPayload {
        task_id: String::from("task-1"),
        name: String::from("Demo"),
        slug: String::from("demo-1"),
        language: String::from("en"),
        visibility: String::from("public"),
        owner_id: 0,
        owner_username: String::from("tester"),
    };
    provision_context(env(), &job, String::from("0123456789abcdef0123456789abcdef"))
}

#[test]
fn context_is_built_from_the_job() {
    let c = ctx();
    assert_eq!(c.channel, "tasks:task-1");
    assert_eq!(c.target_dir, "/srv/wikis/demo-1");
    assert_eq!(c.db_name, "demo-1");
    assert_eq!(c.db_user, "demo-1");
}

#[test]
fn stage_events_follow_pipeline_order() {
    let expected = [
        Some((Phase::DirCopy, "symlink template")),
        Some((Phase::RenderIni, "render ini")),
        Some((Phase::DbProvision, "db provision")),
        None,
        None,
        Some((Phase::DockerInstall, "install site")),
        Some((Phase::DockerIndexCfg, "update search index config")),
        Some((Phase::FlipBootstrap, "flip bootstrap")),
        Some((Phase::Index, "initial index")),
        None,
        None,
        None,
    ];
    for (stage, want) in expected.iter().enumerate() {
        let got = stage_event(stage as u8);
        match (got, want) {
            (None, None) => {}
            (Some(Event::Progress { status, message, phase }), Some((p, m))) => {
                assert_eq!(status, Status::Running);
                assert_eq!(phase, Some(*p));
                assert_eq!(message.as_deref(), Some(*m));
            }
            _ => panic!("stage event mismatch at stage {stage}"),
        }
    }
}

#[test]
fn happy_path_records_all_steps() {
    let c = ctx();
    let mut m = ProvisionMachine::new();
    while !m.is_done() {
        let act = stage_action(&c, m.stage, m.wiki_id).unwrap();
        assert!(act.is_some());
        let produced = if m.stage == 3 { Some(42u64) } else { None };
        m.advance(produced);
    }
    assert_eq!(m.wiki_id, Some(42));
    assert_eq!(
        m.steps,
        vec![
            Step::FsDir,
            Step::IniWritten,
            Step::DbProvisioned,
            Step::InsertWikiRecord(42),
            Step::WritePermissions(42),
            Step::DockerInstalled,
            Step::DockerIndexCfg,
            Step::BootstrapFlipped,
            Step::Indexed1,
            Step::Indexed2,
            Step::RebuildSMWData,
        ]
    );
}

#[test]
fn install_command_is_exact() {
    let c = ctx();
    match stage_action(&c, 5, None).unwrap().unwrap() {
        ProvisionAction::ExecContainer { container, cmd, workdir } => {
            assert_eq!(container, "wiki-host-1");
            assert_eq!(workdir, "/srv/wikis/demo-1");
            assert_eq!(cmd, vec!["php", "maintenance/run", "installPreConfigured"]);
        }
        _ => panic!("expected container exec"),
    }
    match stage_action(&c, 8, None).unwrap().unwrap() {
        ProvisionAction::ExecContainer { cmd, .. } => {
            assert_eq!(
                cmd,
                vec![
                    "php",
                    "maintenance/run",
                    "./extensions/CirrusSearch/maintenance/ForceSearchIndex.php",
                    "--skipLinks",
                    "--indexOnSkip",
                ]
            );
        }
        _ => panic!("expected container exec"),
    }
}

#[test]
fn flip_stage_renders_bootstrap_off() {
    let c = ctx();
    match stage_action(&c, 7, None).unwrap().unwrap() {
        ProvisionAction::WriteWikiConfig { bootstrapping, marker, cfg, .. } => {
            assert!(!bootstrapping);
            assert!(marker.is_none());
            assert_eq!(cfg.slug, "demo-1");
        }
        _ => panic!("expected config write"),
    }
}

#[test]
fn rollback_on_container_failure_undoes_everything_durable() {
    let c = ctx();
    let mut m = ProvisionMachine::new();
    for _ in 0..5 {
        let produced = if m.stage == 3 { Some(42u64) } else { None };
        m.advance(produced);
    }
    // The install exec fails; the recorded steps unwind latest first.
    m.fail(String::from("docker exec failed"));
    let comps = rollback(&c, &m.steps);
    assert_eq!(comps.len(), 5);
    match &comps[0] {
        CompensationAction::DeletePermissionRows { wiki_id } => assert_eq!(*wiki_id, 42),
        _ => panic!("expected permission rows delete first"),
    }
    match &comps[1] {
        CompensationAction::DeleteWikiRow { wiki_id } => assert_eq!(*wiki_id, 42),
        _ => panic!("expected wiki row delete"),
    }
    match &comps[2] {
        CompensationAction::DeprovisionDb { statements } => {
            assert_eq!(statements[0], "DROP USER IF EXISTS 'demo-1'@'%'");
            assert_eq!(statements[1], "DROP DATABASE IF EXISTS `demo-1`");
        }
        _ => panic!("expected db deprovision"),
    }
    match &comps[3] {
        CompensationAction::RemoveConfigDir { config_dir, slug } => {
            assert_eq!(config_dir, "/config");
            assert_eq!(slug, "demo-1");
        }
        _ => panic!("expected config dir removal"),
    }
    match &comps[4] {
        CompensationAction::RemoveTargetDir { path } => assert_eq!(path, "/srv/wikis/demo-1"),
        _ => panic!("expected target dir removal"),
    }
}

#[test]
fn rollback_skips_steps_without_compensation() {
    let c = ctx();
    let steps = vec![Step::DockerInstalled, Step::Indexed1, Step::BootstrapFlipped];
    assert_eq!(rollback(&c, &steps).len(), 0);
}

#[test]
fn exec_outcome_by_exit_code() {
    assert!(exec_outcome(None, String::new(), String::new()).is_ok());
    assert!(exec_outcome(Some(0), String::new(), String::new()).is_ok());
    match exec_outcome(Some(2), String::from("out"), String::from("err")) {
        Err(DockerError::ExecFailed { code, stdout, stderr }) => {
            assert_eq!(code, 2);
            assert_eq!(stdout, "out");
            assert_eq!(stderr, "err");
        }
        _ => panic!("expected exec failure"),
    }
}

#[test]
fn worker_terminal_events() {
    let ok = worker_terminal(&Ok(42));
    assert_eq!(
        ok.event_json,
        "{\"type\":\"status\",\"status\":\"succeeded\",\"wiki_id\":42}"
    );
    let failed = worker_terminal(&Err(String::from("provision error: boom")));
    assert_eq!(
        failed.event_json,
        "{\"type\":\"status\",\"status\":\"failed\",\"message\":\"provision error: boom\"}"
    );
}

#[test]
fn task_record_transitions() {
    let mut t = TaskRecord::new_queued(String::from("task-1"), 0, String::from("tester"));
    assert_eq!(t.status, Status::Queued);
    assert_eq!(t.progress, 0);
    assert!(!t.started && !t.finished);
    t.start();
    assert_eq!(t.status, Status::Running);
    assert!(t.started);
    t.finish_success(42);
    assert_eq!(t.status, Status::Succeeded);
    assert_eq!(t.progress, 100);
    assert!(t.finished);
    assert_eq!(t.wiki_id, Some(42));
}

#[test]
fn task_record_failure_keeps_message() {
    let mut t = TaskRecord::new_queued(String::from("task-2"), 0, String::from("tester"));
    t.start();
    t.finish_failure(String::from("provision error: boom"));
    assert_eq!(t.status, Status::Failed);
    assert!(t.finished);
    assert_eq!(t.message.as_deref(), Some("provision error: boom"));
}

#[test]
fn db_password_is_32_hex_chars() {
    let pw = fresh_db_password();
    assert_eq!(pw.len(), 32);
    assert!(pw.chars().all(|c| c.is_ascii_hexdigit() && !c.is_ascii_uppercase()));
    assert_ne!(fresh_db_password(), pw);
}

#[test]
fn create_to_worker_handoff() {
    // What the create endpoint enqueues is what the worker dequeues,
    // and a run over it ends with the succeeded event for the new row.
    let req = wikifarm_service::create::CreateWikiReq {
        name: String::from("Demo"),
        slug: String::from("demo-1"),
        language: None,
        visibility: Some(String::from("Unlisted")),
    };
    let plan =
        wikifarm_service::create::plan_create(&req, 7, "tester", false, "task-9").unwrap();
    let job = wikifarm_service::create::decode_job(&plan.job_json).unwrap();
    assert_eq!(job.task_id, "task-9");
    assert_eq!(job.language, "en");
    assert_eq!(job.visibility, "unlisted");
    let c = provision_context(env(), &job, fresh_db_password());
    assert_eq!(c.channel, "tasks:task-9");
    let mut m = ProvisionMachine::new();
    while !m.is_done() {
        assert!(stage_action(&c, m.stage, m.wiki_id).unwrap().is_some());
        m.advance(if m.stage == 3 { Some(5) } else { None });
    }
    let terminal = worker_terminal(&Ok(m.wiki_id.unwrap()));
    assert_eq!(
        terminal.event_json,
        "{\"type\":\"status\",\"status\":\"succeeded\",\"wiki_id\":5}"
    );
}
