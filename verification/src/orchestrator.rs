//! The provisioning orchestrator: a flat pipeline of stages, each with
//! the progress event published before it, the outside action it
//! performs, and the completion step it records. The surrounding loop
//! performs each action and reports back; on failure the recorded steps
//! unwind in reverse order through compensating actions, and steps with
//! no compensation unwind silently by design.

use vstd::prelude::*;
use crate::db::{
    provision_statements, deprovision_statements, owner_groups_statement, spec_provision_stmts,
    spec_deprovision_stmts, spec_owner_groups_stmt, spec_sql_escaped, spec_has_control,
};
use crate::env::WikifarmEnv;
use crate::events::{Event, Status, Phase, event_model, EventModel};
use crate::ini::WikiIniConfig;
use crate::validate::spec_valid_ident;

verus! {

/// Steps completed, used by rollback.
#[derive(Clone, Copy, Debug, PartialEq, Eq, Structural)]
pub enum Step {
    FsDir,
    IniWritten,
    DbProvisioned,
    InsertWikiRecord(u64),
    WritePermissions(u64),
    DockerInstalled,
    DockerIndexCfg,
    BootstrapFlipped,
    Indexed1,
    Indexed2,
    RebuildSMWData,
}

/// Everything one provisioning job works on, as plain values.
#[derive(Debug)]
pub struct ProvisionContext {
    pub env: WikifarmEnv,
    pub name: String,
    pub slug: String,
    pub language: String,
    pub visibility: String,
    pub owner_user_id: u64,
    pub owner_username: String,
    pub channel: String,
    pub target_dir: String,
    pub db_name: String,
    pub db_user: String,
    pub db_password: String,
}

/// The progress event announced before a stage, if the stage announces
/// one: always running, with the stage's phase and fixed message.
pub open spec fn spec_stage_event(stage: int) -> Option<EventModel> {
    if stage == 0 {
        Some(EventModel::Progress {
            status: Status::Running,
            message: Some("symlink template"@),
            phase: Some(Phase::DirCopy),
        })
    } else if stage == 1 {
        Some(EventModel::Progress {
            status: Status::Running,
            message: Some("render ini"@),
            phase: Some(Phase::RenderIni),
        })
    } else if stage == 2 {
        Some(EventModel::Progress {
            status: Status::Running,
            message: Some("db provision"@),
            phase: Some(Phase::DbProvision),
        })
    } else if stage == 5 {
        Some(EventModel::Progress {
            status: Status::Running,
            message: Some("install site"@),
            phase: Some(Phase::DockerInstall),
        })
    } else if stage == 6 {
        Some(EventModel::Progress {
            status: Status::Running,
            message: Some("update search index config"@),
            phase: Some(Phase::DockerIndexCfg),
        })
    } else if stage == 7 {
        Some(EventModel::Progress {
            status: Status::Running,
            message: Some("flip bootstrap"@),
            phase: Some(Phase::FlipBootstrap),
        })
    } else if stage == 8 {
        Some(EventModel::Progress {
            status: Status::Running,
            message: Some("initial index"@),
            phase: Some(Phase::Index),
        })
    } else {
        None
    }
}

/// Builds the progress event a stage announces, if any.
pub fn stage_event(stage: u8) -> (r: Option<Event>)
    ensures
        match r {
            Some(e) => spec_stage_event(stage as int) == Some(event_model(&e)),
            None => spec_stage_event(stage as int) is None,
        },
{
    match stage {
        0 => Some(Event::Progress {
            status: Status::Running,
            message: Some(String::from_str("symlink template")),
            phase: Some(Phase::DirCopy),
        }),
        1 => Some(Event::Progress {
            status: Status::Running,
            message: Some(String::from_str("render ini")),
            phase: Some(Phase::RenderIni),
        }),
        2 => Some(Event::Progress {
            status: Status::Running,
            message: Some(String::from_str("db provision")),
            phase: Some(Phase::DbProvision),
        }),
        5 => Some(Event::Progress {
            status: Status::Running,
            message: Some(String::from_str("install site")),
            phase: Some(Phase::DockerInstall),
        }),
        6 => Some(Event::Progress {
            status: Status::Running,
            message: Some(String::from_str("update search index config")),
            phase: Some(Phase::DockerIndexCfg),
        }),
        7 => Some(Event::Progress {
            status: Status::Running,
            message: Some(String::from_str("flip bootstrap")),
            phase: Some(Phase::FlipBootstrap),
        }),
        8 => Some(Event::Progress {
            status: Status::Running,
            message: Some(String::from_str("initial index")),
            phase: Some(Phase::Index),
        }),
        _ => None,
    }
}

/// Every event the pipeline announces on the task channel is a progress
/// event with status running and a phase; the only other events a task
/// channel carries are the worker's terminal status events and the
/// create endpoint's initial queued event.
pub proof fn lemma_stage_events_have_phase(stage: int)
    ensures
        match spec_stage_event(stage) {
            Some(m) => m matches EventModel::Progress { status, message: _, phase }
                && status == Status::Running && phase is Some,
            None => true,
        },
{
}

/// The slug marker file a fresh wiki directory receives.
#[derive(Debug)]
pub struct MarkerFile {
    pub target_dir: String,
    pub content: String,
}

/// One outside action of the pipeline, with every value it needs.
#[derive(Debug)]
pub enum ProvisionAction {
    SymlinkTemplate { template: String, dest: String },
    WriteWikiConfig { config_dir: String, cfg: WikiIniConfig, bootstrapping: bool, marker: Option<
        MarkerFile,
    > },
    RunDbStatements { statements: Vec<String> },
    InsertWikiRow {
        name: String,
        slug: String,
        language: String,
        visibility: String,
        owner_user_id: u64,
        owner_username: String,
    },
    ApplyPermissions { wiki_id: u64, config_dir: String, slug: String },
    ExecContainer { container: String, cmd: Vec<String>, workdir: String },
    GrantOwnerGroups { statement: String, owner_user_id: u64 },
}

/// Whether a configuration render carries exactly the job's values: the
/// wiki's own name, slug, language and database coordinates, and the
/// fleet-wide settings from the environment snapshot.
pub open spec fn spec_cfg_matches(ctx: &ProvisionContext, cfg: &WikiIniConfig) -> bool {
    &&& cfg.name@ == ctx.name@
    &&& cfg.slug@ == ctx.slug@
    &&& cfg.language@ == ctx.language@
    &&& cfg.wiki_host@ == ctx.env.wiki_host@
    &&& cfg.db_host@ == ctx.env.wiki_db_host@
    &&& cfg.db_name@ == ctx.db_name@
    &&& cfg.db_user@ == ctx.db_user@
    &&& cfg.db_password@ == ctx.db_password@
    &&& cfg.shared_db_name@ == ctx.env.wiki_shared_db_name@
    &&& cfg.opensearch_user@ == ctx.env.opensearch_user@
    &&& cfg.opensearch_port@ == ctx.env.opensearch_port@
    &&& cfg.opensearch_transport@ == ctx.env.opensearch_transport@
    &&& cfg.opensearch_password@ == ctx.env.opensearch_password@
    &&& cfg.opensearch_endpoint@ == ctx.env.opensearch_endpoint@
    &&& cfg.redis_password@ == ctx.env.redis_password@
    &&& cfg.redis_server@ == ctx.env.redis_server@
    &&& cfg.wiki_aws_region@ == ctx.env.wiki_aws_region@
}

fn ini_config_of(ctx: &ProvisionContext) -> (r: WikiIniConfig)
    ensures
        spec_cfg_matches(ctx, &r),
{
    WikiIniConfig {
        name: ctx.name.clone(),
        slug: ctx.slug.clone(),
        language: ctx.language.clone(),
        wiki_host: ctx.env.wiki_host.clone(),
        db_host: ctx.env.wiki_db_host.clone(),
        db_name: ctx.db_name.clone(),
        db_user: ctx.db_user.clone(),
        db_password: ctx.db_password.clone(),
        shared_db_name: ctx.env.wiki_shared_db_name.clone(),
        opensearch_user: ctx.env.opensearch_user.clone(),
        opensearch_transport: ctx.env.opensearch_transport.clone(),
        opensearch_port: ctx.env.opensearch_port.clone(),
        opensearch_password: ctx.env.opensearch_password.clone(),
        opensearch_endpoint: ctx.env.opensearch_endpoint.clone(),
        redis_password: ctx.env.redis_password.clone(),
        redis_server: ctx.env.redis_server.clone(),
        wiki_aws_region: ctx.env.wiki_aws_region.clone(),
    }
}

/// The container command a container stage runs.
pub open spec fn spec_stage_cmd(stage: int) -> Seq<Seq<char>> {
    if stage == 5 {
        seq!["php"@, "maintenance/run"@, "installPreConfigured"@]
    } else if stage == 6 {
        seq![
            "php"@,
            "maintenance/run"@,
            "./extensions/CirrusSearch/maintenance/UpdateSearchIndexConfig.php"@,
        ]
    } else if stage == 8 {
        seq![
            "php"@,
            "maintenance/run"@,
            "./extensions/CirrusSearch/maintenance/ForceSearchIndex.php"@,
            "--skipLinks"@,
            "--indexOnSkip"@,
        ]
    } else if stage == 9 {
        seq![
            "php"@,
            "maintenance/run"@,
            "./extensions/CirrusSearch/maintenance/ForceSearchIndex.php"@,
            "--skipParse"@,
        ]
    } else {
        seq![
            "php"@,
            "maintenance/run"@,
            "./extensions/SemanticMediaWiki/maintenance/rebuildData.php"@,
        ]
    }
}

fn push_string(v: &mut Vec<String>, s: &str)
    ensures
        final(v)@.len() == old(v)@.len() + 1,
        forall|k: int| 0 <= k < old(v)@.len() ==> final(v)@[k] == old(v)@[k],
        (final(v)@[old(v)@.len() as int])@ == s@,
{
    v.push(String::from_str(s));
}

fn exec_action(ctx: &ProvisionContext, stage: u8, cmd3: &str, extra1: Option<&str>, extra2: Option<
    &str,
>) -> (r: ProvisionAction)
    requires
        stage == 5 || stage == 6 || stage == 8 || stage == 9 || stage == 10,
        spec_stage_cmd(stage as int).len() == 3 + (if extra1 is Some { 1int } else { 0 }) + (
        if extra2 is Some { 1int } else { 0 }),
        spec_stage_cmd(stage as int)[0] == "php"@,
        spec_stage_cmd(stage as int)[1] == "maintenance/run"@,
        spec_stage_cmd(stage as int)[2] == cmd3@,
        extra1 matches Some(e) ==> (spec_stage_cmd(stage as int)[3] == e@),
        extra2 matches Some(e) ==> (extra1 is Some && spec_stage_cmd(stage as int)[4] == e@),
    ensures
        r matches ProvisionAction::ExecContainer { container, cmd, workdir }
            && container@ == ctx.env.wikifarm_instance@ && workdir@ == ctx.target_dir@
            && cmd@.len() == spec_stage_cmd(stage as int).len()
            && (forall|k: int| 0 <= k < cmd@.len()
                ==> (#[trigger] cmd@[k])@ == spec_stage_cmd(stage as int)[k]),
{
    let mut cmd: Vec<String> = Vec::new();
    push_string(&mut cmd, "php");
    push_string(&mut cmd, "maintenance/run");
    push_string(&mut cmd, cmd3);
    match extra1 {
        Some(e) => push_string(&mut cmd, e),
        None => {},
    }
    match extra2 {
        Some(e) => push_string(&mut cmd, e),
        None => {},
    }
    ProvisionAction::ExecContainer {
        container: ctx.env.wikifarm_instance.clone(),
        cmd,
        workdir: ctx.target_dir.clone(),
    }
}

/// Lays out the outside action of a stage. Stages that build SQL from
/// identifiers fail here, before any side effect, when an identifier is
/// outside the whitelist or the password holds control characters.
pub fn stage_action(ctx: &ProvisionContext, stage: u8, wiki_id: Option<u64>) -> (r: Result<
    Option<ProvisionAction>,
    String,
>)
    requires
        stage == 4 ==> wiki_id is Some,
    ensures
        stage == 0 ==> (r matches Ok(Some(ProvisionAction::SymlinkTemplate { template, dest }))
            && template@ == ctx.env.wikifarm_template@ && dest@ == ctx.target_dir@),
        stage == 1 ==> (r matches Ok(Some(ProvisionAction::WriteWikiConfig {
            config_dir,
            cfg,
            bootstrapping,
            marker,
        })) && config_dir@ == ctx.env.wikifarm_config_dir@ && spec_cfg_matches(ctx, &cfg)
            && bootstrapping == true && (marker matches Some(m) && m.target_dir@
                == ctx.target_dir@ && m.content@ == "WIKI_SLUG="@ + ctx.slug@ + "\n"@)),
        stage == 2 ==> {
            if spec_valid_ident(ctx.db_name@) && spec_valid_ident(ctx.db_user@)
                && spec_valid_ident(ctx.env.wiki_shared_db_name@) && !spec_has_control(
                ctx.db_password@,
            ) {
                (r matches Ok(Some(ProvisionAction::RunDbStatements { statements }))
                    && statements@.len() == 10 && forall|k: int| 0 <= k < 10
                    ==> (#[trigger] statements@[k])@ == spec_provision_stmts(
                        ctx.db_name@,
                        ctx.db_user@,
                        spec_sql_escaped(ctx.db_password@),
                        ctx.env.wiki_shared_db_name@,
                    )[k])
            } else {
                r is Err
            }
        },
        stage == 3 ==> (r matches Ok(Some(ProvisionAction::InsertWikiRow {
            name,
            slug,
            language,
            visibility,
            owner_user_id,
            owner_username,
        })) && name@ == ctx.name@ && slug@ == ctx.slug@ && language@ == ctx.language@
            && visibility@ == ctx.visibility@ && owner_user_id == ctx.owner_user_id
            && owner_username@ == ctx.owner_username@),
        stage == 4 ==> (r matches Ok(Some(ProvisionAction::ApplyPermissions {
            wiki_id: w,
            config_dir,
            slug,
        })) && Some(w) == wiki_id && config_dir@ == ctx.env.wikifarm_config_dir@ && slug@
            == ctx.slug@),
        (stage == 5 || stage == 6 || stage == 8 || stage == 9 || stage == 10) ==> (r matches Ok(
            Some(ProvisionAction::ExecContainer { container, cmd, workdir }),
        ) && container@ == ctx.env.wikifarm_instance@ && workdir@ == ctx.target_dir@
            && cmd@.len() == spec_stage_cmd(stage as int).len() && (forall|k: int|
            0 <= k < cmd@.len() ==> (#[trigger] cmd@[k])@ == spec_stage_cmd(stage as int)[k])),
        stage == 7 ==> (r matches Ok(Some(ProvisionAction::WriteWikiConfig {
            config_dir,
            cfg,
            bootstrapping,
            marker,
        })) && config_dir@ == ctx.env.wikifarm_config_dir@ && spec_cfg_matches(ctx, &cfg)
            && bootstrapping == false && marker is None),
        stage == 11 ==> {
            if spec_valid_ident(ctx.db_name@) {
                (r matches Ok(Some(ProvisionAction::GrantOwnerGroups { statement, owner_user_id }))
                    && statement@ == spec_owner_groups_stmt(ctx.db_name@) && owner_user_id
                    == ctx.owner_user_id)
            } else {
                r is Err
            }
        },
        stage >= 12 ==> (r matches Ok(None)),
{
    if stage == 0 {
        Ok(Some(ProvisionAction::SymlinkTemplate {
            template: ctx.env.wikifarm_template.clone(),
            dest: ctx.target_dir.clone(),
        }))
    } else if stage == 1 {
        let marker_content = crate::ini::slug_marker_text(ctx.slug.as_str());
        Ok(Some(ProvisionAction::WriteWikiConfig {
            config_dir: ctx.env.wikifarm_config_dir.clone(),
            cfg: ini_config_of(ctx),
            bootstrapping: true,
            marker: Some(MarkerFile { target_dir: ctx.target_dir.clone(), content: marker_content }),
        }))
    } else if stage == 2 {
        match provision_statements(
            ctx.db_name.as_str(),
            ctx.db_user.as_str(),
            ctx.db_password.as_str(),
            ctx.env.wiki_shared_db_name.as_str(),
        ) {
            Ok(statements) => Ok(Some(ProvisionAction::RunDbStatements { statements })),
            Err(_) => Err(String::from_str("invalid database identifier or password")),
        }
    } else if stage == 3 {
        Ok(Some(ProvisionAction::InsertWikiRow {
            name: ctx.name.clone(),
            slug: ctx.slug.clone(),
            language: ctx.language.clone(),
            visibility: ctx.visibility.clone(),
            owner_user_id: ctx.owner_user_id,
            owner_username: ctx.owner_username.clone(),
        }))
    } else if stage == 4 {
        let w = match wiki_id {
            Some(w) => w,
            None => 0,
        };
        Ok(Some(ProvisionAction::ApplyPermissions {
            wiki_id: w,
            config_dir: ctx.env.wikifarm_config_dir.clone(),
            slug: ctx.slug.clone(),
        }))
    } else if stage == 5 {
        Ok(Some(exec_action(ctx, stage, "installPreConfigured", None, None)))
    } else if stage == 6 {
        Ok(Some(exec_action(
            ctx,
            stage,
            "./extensions/CirrusSearch/maintenance/UpdateSearchIndexConfig.php",
            None,
            None,
        )))
    } else if stage == 7 {
        Ok(Some(ProvisionAction::WriteWikiConfig {
            config_dir: ctx.env.wikifarm_config_dir.clone(),
            cfg: ini_config_of(ctx),
            bootstrapping: false,
            marker: None,
        }))
    } else if stage == 8 {
        Ok(Some(exec_action(
            ctx,
            stage,
            "./extensions/CirrusSearch/maintenance/ForceSearchIndex.php",
            Some("--skipLinks"),
            Some("--indexOnSkip"),
        )))
    } else if stage == 9 {
        Ok(Some(exec_action(
            ctx,
            stage,
            "./extensions/CirrusSearch/maintenance/ForceSearchIndex.php",
            Some("--skipParse"),
            None,
        )))
    } else if stage == 10 {
        Ok(Some(exec_action(
            ctx,
            stage,
            "./extensions/SemanticMediaWiki/maintenance/rebuildData.php",
            None,
            None,
        )))
    } else if stage == 11 {
        match owner_groups_statement(ctx.db_name.as_str()) {
            Ok(statement) => Ok(Some(ProvisionAction::GrantOwnerGroups {
                statement,
                owner_user_id: ctx.owner_user_id,
            })),
            Err(_) => Err(String::from_str("invalid database identifier")),
        }
    } else {
        Ok(None)
    }
}

/// The step a stage records on success; the grant stage records none.
pub open spec fn spec_stage_step(stage: int, wiki_id: Option<u64>) -> Seq<Step> {
    if stage == 0 {
        seq![Step::FsDir]
    } else if stage == 1 {
        seq![Step::IniWritten]
    } else if stage == 2 {
        seq![Step::DbProvisioned]
    } else if stage == 3 {
        seq![Step::InsertWikiRecord(wiki_id->Some_0)]
    } else if stage == 4 {
        seq![Step::WritePermissions(wiki_id->Some_0)]
    } else if stage == 5 {
        seq![Step::DockerInstalled]
    } else if stage == 6 {
        seq![Step::DockerIndexCfg]
    } else if stage == 7 {
        seq![Step::BootstrapFlipped]
    } else if stage == 8 {
        seq![Step::Indexed1]
    } else if stage == 9 {
        seq![Step::Indexed2]
    } else if stage == 10 {
        seq![Step::RebuildSMWData]
    } else {
        Seq::<Step>::empty()
    }
}

/// The steps a run has recorded after completing the stages before
/// `stage`, in pipeline order.
pub open spec fn spec_steps_upto(stage: int, wiki_id: Option<u64>) -> Seq<Step>
    decreases stage,
{
    if stage <= 0 {
        Seq::<Step>::empty()
    } else {
        spec_steps_upto(stage - 1, wiki_id) + spec_stage_step(stage - 1, wiki_id)
    }
}

/// Stages before the wiki-row insert record no id-carrying step, so the
/// recorded prefix does not depend on the id.
proof fn lemma_steps_upto_id_irrelevant(stage: int, a: Option<u64>, b: Option<u64>)
    requires
        stage <= 3,
    ensures
        spec_steps_upto(stage, a) == spec_steps_upto(stage, b),
    decreases stage,
{
    if stage > 0 {
        lemma_steps_upto_id_irrelevant(stage - 1, a, b);
        assert(spec_stage_step(stage - 1, a) == spec_stage_step(stage - 1, b));
    }
}

/// The durable state of one provisioning run: the next stage to perform,
/// the steps recorded so far, the wiki id once the row is inserted, and
/// the failure message once a stage has failed.
#[derive(Debug)]
pub struct ProvisionMachine {
    pub stage: u8,
    pub steps: Vec<Step>,
    pub wiki_id: Option<u64>,
    pub failure: Option<String>,
}

impl ProvisionMachine {
    /// The machine's invariant: the stage is within the pipeline, the
    /// wiki id is known from the insert stage on, and the recorded steps
    /// are exactly those of the completed stages, in order.
    pub open spec fn wf(&self) -> bool {
        &&& self.stage <= 12
        &&& (self.stage >= 4 ==> self.wiki_id is Some)
        &&& self.steps@ == spec_steps_upto(self.stage as int, self.wiki_id)
    }

    /// A run about to perform its first stage.
    pub fn new() -> (r: Self)
        ensures
            r.wf(),
            r.stage == 0,
            r.failure is None,
            r.steps@.len() == 0,
            r.wiki_id is None,
    {
        let r = ProvisionMachine { stage: 0, steps: Vec::new(), wiki_id: None, failure: None };
        proof {
            assert(spec_steps_upto(0, None::<u64>) =~= Seq::<Step>::empty());
        }
        r
    }

    /// Whether the pipeline has run every stage.
    pub fn is_done(&self) -> (r: bool)
        ensures
            r == (self.stage == 12),
    {
        self.stage == 12
    }

    /// Records one stage's success and moves to the next stage; the
    /// insert stage hands in the new wiki row's id.
    pub fn advance(&mut self, produced_id: Option<u64>)
        requires
            old(self).wf(),
            old(self).failure is None,
            old(self).stage < 12,
            old(self).stage == 3 ==> produced_id is Some,
        ensures
            final(self).wf(),
            final(self).failure is None,
            final(self).stage == old(self).stage + 1,
            final(self).wiki_id == (if old(self).stage == 3 {
                produced_id
            } else {
                old(self).wiki_id
            }),
    {
        let ghost old_stage = self.stage as int;
        let ghost old_id = self.wiki_id;
        if self.stage == 0 {
            self.steps.push(Step::FsDir);
        } else if self.stage == 1 {
            self.steps.push(Step::IniWritten);
        } else if self.stage == 2 {
            self.steps.push(Step::DbProvisioned);
        } else if self.stage == 3 {
            let id = match produced_id {
                Some(id) => id,
                None => 0,
            };
            self.wiki_id = Some(id);
            self.steps.push(Step::InsertWikiRecord(id));
        } else if self.stage == 4 {
            let id = match self.wiki_id {
                Some(id) => id,
                None => 0,
            };
            self.steps.push(Step::WritePermissions(id));
        } else if self.stage == 5 {
            self.steps.push(Step::DockerInstalled);
        } else if self.stage == 6 {
            self.steps.push(Step::DockerIndexCfg);
        } else if self.stage == 7 {
            self.steps.push(Step::BootstrapFlipped);
        } else if self.stage == 8 {
            self.steps.push(Step::Indexed1);
        } else if self.stage == 9 {
            self.steps.push(Step::Indexed2);
        } else if self.stage == 10 {
            self.steps.push(Step::RebuildSMWData);
        }
        self.stage = self.stage + 1;
        proof {
            if old_stage == 3 {
                lemma_steps_upto_id_irrelevant(3, old_id, self.wiki_id);
            }
            assert(self.steps@ =~= spec_steps_upto(old_stage, self.wiki_id) + spec_stage_step(
                old_stage,
                self.wiki_id,
            ));
        }
    }

    /// Records a stage's failure; the recorded steps stay for rollback.
    pub fn fail(&mut self, message: String)
        ensures
            final(self).failure == Some(message),
            final(self).stage == old(self).stage,
            final(self).steps == old(self).steps,
            final(self).wiki_id == old(self).wiki_id,
    {
        self.failure = Some(message);
    }
}

/// A completed run has recorded every step of the pipeline, in order.
pub proof fn lemma_completed_steps(id: u64)
    ensures
        spec_steps_upto(12, Some(id)) =~= seq![
            Step::FsDir,
            Step::IniWritten,
            Step::DbProvisioned,
            Step::InsertWikiRecord(id),
            Step::WritePermissions(id),
            Step::DockerInstalled,
            Step::DockerIndexCfg,
            Step::BootstrapFlipped,
            Step::Indexed1,
            Step::Indexed2,
            Step::RebuildSMWData,
        ],
{
    reveal_with_fuel(spec_steps_upto, 13);
}

/// One compensating action of rollback, with every value it needs.
#[derive(Debug)]
pub enum CompensationAction {
    RemoveTargetDir { path: String },
    RemoveConfigDir { config_dir: String, slug: String },
    DeprovisionDb { statements: Vec<String> },
    DeleteWikiRow { wiki_id: u64 },
    DeletePermissionRows { wiki_id: u64 },
}

/// Whether a recorded step has a compensating action. Container and
/// index work, and the bootstrap flip, need none and unwind silently;
/// the database step can only be compensated while its identifiers pass
/// the whitelist (they did when it ran).
pub open spec fn step_compensable(s: Step, db_ok: bool) -> bool {
    match s {
        Step::FsDir => true,
        Step::IniWritten => true,
        Step::DbProvisioned => db_ok,
        Step::InsertWikiRecord(_) => true,
        Step::WritePermissions(_) => true,
        _ => false,
    }
}

/// Whether a compensating action undoes a step, with the right values:
/// the target directory removal for the materialized directory, the
/// slug-scoped config removal for the rendered configuration, the drop
/// statements for the database and user, and the row deletions for the
/// wiki row and its permission rows.
pub open spec fn comp_matches(ctx: &ProvisionContext, s: Step, c: &CompensationAction) -> bool {
    match s {
        Step::FsDir => match c {
            CompensationAction::RemoveTargetDir { path } => path@ == ctx.target_dir@,
            _ => false,
        },
        Step::IniWritten => match c {
            CompensationAction::RemoveConfigDir { config_dir, slug } => config_dir@
                == ctx.env.wikifarm_config_dir@ && slug@ == ctx.slug@,
            _ => false,
        },
        Step::DbProvisioned => match c {
            CompensationAction::DeprovisionDb { statements } => statements@.len() == 3
                && forall|k: int| 0 <= k < 3 ==> (#[trigger] statements@[k])@
                    == spec_deprovision_stmts(ctx.db_name@, ctx.db_user@)[k],
            _ => false,
        },
        Step::InsertWikiRecord(id) => match c {
            CompensationAction::DeleteWikiRow { wiki_id } => wiki_id == id,
            _ => false,
        },
        Step::WritePermissions(id) => match c {
            CompensationAction::DeletePermissionRows { wiki_id } => wiki_id == id,
            _ => false,
        },
        _ => false,
    }
}

/// The steps rollback compensates, latest first.
pub open spec fn spec_rollback_order(steps: Seq<Step>, db_ok: bool) -> Seq<Step>
    decreases steps.len(),
{
    if steps.len() == 0 {
        Seq::<Step>::empty()
    } else {
        (if step_compensable(steps.last(), db_ok) {
            seq![steps.last()]
        } else {
            Seq::<Step>::empty()
        }) + spec_rollback_order(steps.drop_last(), db_ok)
    }
}

/// Putting one step in front leaves the unwinding of the rest first and
/// the new step's compensation, if any, last.
proof fn lemma_rollback_order_cons(a: Step, t: Seq<Step>, db_ok: bool)
    ensures
        spec_rollback_order(seq![a] + t, db_ok) == spec_rollback_order(t, db_ok) + (
        if step_compensable(a, db_ok) {
            seq![a]
        } else {
            Seq::<Step>::empty()
        }),
    decreases t.len(),
{
    let s = seq![a] + t;
    if t.len() == 0 {
        assert(s.len() == 1);
        assert(s.last() == a);
        assert(s.drop_last() =~= Seq::<Step>::empty());
        assert(spec_rollback_order(s.drop_last(), db_ok) =~= Seq::<Step>::empty());
        assert(spec_rollback_order(t, db_ok) =~= Seq::<Step>::empty());
        if step_compensable(a, db_ok) {
            assert(spec_rollback_order(s, db_ok) =~= seq![a]);
            assert(spec_rollback_order(t, db_ok) + seq![a] =~= seq![a]);
        } else {
            assert(spec_rollback_order(s, db_ok) =~= Seq::<Step>::empty());
            assert(spec_rollback_order(t, db_ok) + Seq::<Step>::empty() =~= Seq::<Step>::empty());
        }
    } else {
        assert(s.last() == t.last());
        assert(s.drop_last() =~= seq![a] + t.drop_last());
        lemma_rollback_order_cons(a, t.drop_last(), db_ok);
        let ia = if step_compensable(a, db_ok) { seq![a] } else { Seq::<Step>::empty() };
        let il = if step_compensable(t.last(), db_ok) { seq![t.last()] } else {
            Seq::<Step>::empty()
        };
        assert(spec_rollback_order(s, db_ok) == il + (spec_rollback_order(t.drop_last(), db_ok)
            + ia));
        assert(il + (spec_rollback_order(t.drop_last(), db_ok) + ia) =~= (il
            + spec_rollback_order(t.drop_last(), db_ok)) + ia);
        assert(spec_rollback_order(t, db_ok) == il + spec_rollback_order(t.drop_last(), db_ok));
    }
}

/// Lays out the compensating actions for a step stack: the recognized
/// steps, latest first, each with its compensation; unrecognized steps
/// unwind silently. The database compensation is included exactly when
/// its identifiers pass the whitelist.
pub fn rollback(ctx: &ProvisionContext, steps: &Vec<Step>) -> (r: Vec<CompensationAction>)
    ensures
        r@.len() == spec_rollback_order(
            steps@,
            spec_valid_ident(ctx.db_name@) && spec_valid_ident(ctx.db_user@),
        ).len(),
        forall|k: int| 0 <= k < r@.len() ==> comp_matches(
            ctx,
            spec_rollback_order(
                steps@,
                spec_valid_ident(ctx.db_name@) && spec_valid_ident(ctx.db_user@),
            )[k],
            &(#[trigger] r@[k]),
        ),
{
    let ghost db_ok = spec_valid_ident(ctx.db_name@) && spec_valid_ident(ctx.db_user@);
    let mut r: Vec<CompensationAction> = Vec::new();
    let mut k: usize = steps.len();
    proof {
        assert(steps@.skip(k as int).len() == 0);
        assert(spec_rollback_order(steps@.skip(k as int), db_ok) =~= Seq::<Step>::empty());
    }
    while k > 0
        invariant
            k <= steps@.len(),
            db_ok == (spec_valid_ident(ctx.db_name@) && spec_valid_ident(ctx.db_user@)),
            r@.len() == spec_rollback_order(steps@.skip(k as int), db_ok).len(),
            forall|m: int| 0 <= m < r@.len() ==> comp_matches(
                ctx,
                spec_rollback_order(steps@.skip(k as int), db_ok)[m],
                &(#[trigger] r@[m]),
            ),
        decreases k,
    {
        k = k - 1;
        let s = steps[k];
        let ghost pre = r@;
        match s {
            Step::FsDir => {
                r.push(CompensationAction::RemoveTargetDir { path: ctx.target_dir.clone() });
            },
            Step::IniWritten => {
                r.push(CompensationAction::RemoveConfigDir {
                    config_dir: ctx.env.wikifarm_config_dir.clone(),
                    slug: ctx.slug.clone(),
                });
            },
            Step::DbProvisioned => {
                match deprovision_statements(ctx.db_name.as_str(), ctx.db_user.as_str()) {
                    Ok(statements) => {
                        r.push(CompensationAction::DeprovisionDb { statements });
                    },
                    Err(_) => {},
                }
            },
            Step::InsertWikiRecord(id) => {
                r.push(CompensationAction::DeleteWikiRow { wiki_id: id });
            },
            Step::WritePermissions(id) => {
                r.push(CompensationAction::DeletePermissionRows { wiki_id: id });
            },
            _ => {},
        }
        proof {
            assert(steps@.skip(k as int) =~= seq![steps@[k as int]] + steps@.skip(k as int + 1));
            lemma_rollback_order_cons(steps@[k as int], steps@.skip(k as int + 1), db_ok);
            let ord = spec_rollback_order(steps@.skip(k as int), db_ok);
            let ord1 = spec_rollback_order(steps@.skip(k as int + 1), db_ok);
            if step_compensable(steps@[k as int], db_ok) {
                assert(ord =~= ord1 + seq![steps@[k as int]]);
                assert(r@.len() == pre.len() + 1);
                assert(forall|m: int| 0 <= m < pre.len() ==> r@[m] == pre[m]);
                assert(comp_matches(ctx, steps@[k as int], &r@[pre.len() as int]));
            } else {
                assert(ord =~= ord1);
                assert(r@ == pre);
            }
        }
    }
    proof {
        assert(steps@.skip(0) =~= steps@);
    }
    r
}

/// Rollback undoes every recorded effect: for any step stack and the
/// compensation list laid out for it, each step that created something
/// durable — the materialized directory, the rendered configuration,
/// the database and user, the wiki row, the permission rows — has a
/// compensation in the list that undoes exactly it; the list runs latest
/// step first.
pub proof fn lemma_rollback_covers(
    ctx: &ProvisionContext,
    steps: Seq<Step>,
    comps: Seq<CompensationAction>,
)
    requires
        spec_valid_ident(ctx.db_name@),
        spec_valid_ident(ctx.db_user@),
        comps.len() == spec_rollback_order(steps, true).len(),
        forall|k: int| 0 <= k < comps.len() ==> comp_matches(
            ctx,
            spec_rollback_order(steps, true)[k],
            &(#[trigger] comps[k]),
        ),
    ensures
        forall|i: int| 0 <= i < steps.len() && step_compensable(#[trigger] steps[i], true)
            ==> exists|k: int| 0 <= k < comps.len() && comp_matches(ctx, steps[i], &(
            #[trigger] comps[k])),
{
    assert forall|i: int| 0 <= i < steps.len() && step_compensable(#[trigger] steps[i], true)
        implies exists|k: int| 0 <= k < comps.len() && comp_matches(ctx, steps[i], &(
    #[trigger] comps[k])) by {
        lemma_rollback_order_complete(steps, true, i);
        let m = choose|m: int| 0 <= m < spec_rollback_order(steps, true).len()
            && spec_rollback_order(steps, true)[m] == steps[i];
        assert(comp_matches(ctx, steps[i], &comps[m]));
    }
}

/// Every compensable step of a stack appears in its unwinding order.
proof fn lemma_rollback_order_complete(steps: Seq<Step>, db_ok: bool, i: int)
    requires
        0 <= i < steps.len(),
        step_compensable(steps[i], db_ok),
    ensures
        exists|m: int| 0 <= m < spec_rollback_order(steps, db_ok).len()
            && spec_rollback_order(steps, db_ok)[m] == steps[i],
    decreases steps.len(),
{
    let ord = spec_rollback_order(steps, db_ok);
    let head = if step_compensable(steps.last(), db_ok) { seq![steps.last()] } else {
        Seq::<Step>::empty()
    };
    if i == steps.len() - 1 {
        assert(ord[0] == steps[i]);
    } else {
        lemma_rollback_order_complete(steps.drop_last(), db_ok, i);
        let m0 = choose|m0: int| 0 <= m0 < spec_rollback_order(steps.drop_last(), db_ok).len()
            && spec_rollback_order(steps.drop_last(), db_ok)[m0] == steps.drop_last()[i];
        assert(steps.drop_last()[i] == steps[i]);
        assert(ord[head.len() + m0] == steps[i]);
    }
}


/// The statement the wiki-row insert runs: a fresh ready row, not
/// featured, with no domain or path; binds are the name, slug, language,
/// owner id, owner name and visibility, in that order.
pub fn insert_wiki_sql() -> (r: &'static str)
    ensures
        r@ == "INSERT INTO wikifarm_wikis (name, slug, domain, path, language, owner_user_id, owner_username, visibility, status, is_featured) VALUES (?, ?, NULL, NULL, ?, ?, ?, ?, 'ready', 0)"@,
{
    "INSERT INTO wikifarm_wikis (name, slug, domain, path, language, owner_user_id, owner_username, visibility, status, is_featured) VALUES (?, ?, NULL, NULL, ?, ?, ?, ?, 'ready', 0)"
}

} // verus!
