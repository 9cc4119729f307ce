//! The process-wide configuration snapshot: which settings exist, which
//! are required, and which defaults the optional ones take. Reading the
//! actual process environment happens outside the library; the raw
//! values flow through here once at startup.

use vstd::prelude::*;

verus! {

/// The raw environment values, as read from the process environment:
/// one optional value per setting.
#[derive(Debug)]
pub struct RawEnv {
    pub wikifarm_dir: Option<String>,
    pub wikifarm_template: Option<String>,
    pub wikifarm_config_dir: Option<String>,
    pub wikifarm_instance: Option<String>,
    pub wiki_host: Option<String>,
    pub wiki_db_host: Option<String>,
    pub wiki_shared_db_name: Option<String>,
    pub opensearch_user: Option<String>,
    pub opensearch_port: Option<String>,
    pub opensearch_transport: Option<String>,
    pub opensearch_password: Option<String>,
    pub opensearch_endpoint: Option<String>,
    pub redis_password: Option<String>,
    pub redis_server: Option<String>,
    pub wiki_aws_region: Option<String>,
}

/// The settled configuration snapshot.
#[derive(Clone, Debug)]
pub struct WikifarmEnv {
    pub wikifarm_dir: String,
    pub wikifarm_template: String,
    pub wikifarm_config_dir: String,
    pub wikifarm_instance: String,
    pub wiki_host: String,
    pub wiki_db_host: String,
    pub wiki_shared_db_name: String,
    pub opensearch_user: String,
    pub opensearch_port: String,
    pub opensearch_transport: String,
    pub opensearch_password: String,
    pub opensearch_endpoint: String,
    pub redis_password: String,
    pub redis_server: String,
    pub wiki_aws_region: String,
}

/// Whether every required setting is present; the three directory
/// settings are optional and take defaults.
pub open spec fn spec_env_complete(raw: &RawEnv) -> bool {
    raw.wikifarm_instance is Some && raw.wiki_host is Some && raw.wiki_db_host is Some
        && raw.wiki_shared_db_name is Some && raw.opensearch_user is Some
        && raw.opensearch_port is Some && raw.opensearch_transport is Some
        && raw.opensearch_password is Some && raw.opensearch_endpoint is Some
        && raw.redis_password is Some && raw.redis_server is Some && raw.wiki_aws_region is Some
}

fn opt_or(v: Option<String>, d: &str) -> (r: String)
    ensures
        r@ == (match v { Some(s) => s@, None => d@ }),
{
    match v {
        Some(s) => s,
        None => String::from_str(d),
    }
}

impl WikifarmEnv {
    /// Settles the snapshot: accepted exactly when every required
    /// setting is present; `WIKIFARM_DIR`, `WIKIFARM_TEMPLATE` and
    /// `WIKIFARM_CONFIG_DIR` default to `/srv/wikis`, `/template` and
    /// `/config`.
    pub fn gather(raw: RawEnv) -> (r: Result<WikifarmEnv, String>)
        ensures
            (r is Ok) == spec_env_complete(&raw),
            match r {
                Ok(e) => {
                    &&& e.wikifarm_dir@ == (match raw.wikifarm_dir {
                        Some(s) => s@,
                        None => "/srv/wikis"@,
                    })
                    &&& e.wikifarm_template@ == (match raw.wikifarm_template {
                        Some(s) => s@,
                        None => "/template"@,
                    })
                    &&& e.wikifarm_config_dir@ == (match raw.wikifarm_config_dir {
                        Some(s) => s@,
                        None => "/config"@,
                    })
                    &&& raw.wikifarm_instance matches Some(v) && e.wikifarm_instance@ == v@
                    &&& raw.wiki_host matches Some(v) && e.wiki_host@ == v@
                    &&& raw.wiki_db_host matches Some(v) && e.wiki_db_host@ == v@
                    &&& raw.wiki_shared_db_name matches Some(v) && e.wiki_shared_db_name@ == v@
                    &&& raw.opensearch_user matches Some(v) && e.opensearch_user@ == v@
                    &&& raw.opensearch_port matches Some(v) && e.opensearch_port@ == v@
                    &&& raw.opensearch_transport matches Some(v) && e.opensearch_transport@ == v@
                    &&& raw.opensearch_password matches Some(v) && e.opensearch_password@ == v@
                    &&& raw.opensearch_endpoint matches Some(v) && e.opensearch_endpoint@ == v@
                    &&& raw.redis_password matches Some(v) && e.redis_password@ == v@
                    &&& raw.redis_server matches Some(v) && e.redis_server@ == v@
                    &&& raw.wiki_aws_region matches Some(v) && e.wiki_aws_region@ == v@
                },
                Err(m) => "missing env "@.is_prefix_of(m@),
            },
    {
        let RawEnv {
            wikifarm_dir,
            wikifarm_template,
            wikifarm_config_dir,
            wikifarm_instance,
            wiki_host,
            wiki_db_host,
            wiki_shared_db_name,
            opensearch_user,
            opensearch_port,
            opensearch_transport,
            opensearch_password,
            opensearch_endpoint,
            redis_password,
            redis_server,
            wiki_aws_region,
        } = raw;
        let Some(wikifarm_instance) = wikifarm_instance else {
            return Err(missing("WIKIFARM_INSTANCE"));
        };
        let Some(wiki_host) = wiki_host else {
            return Err(missing("WIKI_HOST"));
        };
        let Some(wiki_db_host) = wiki_db_host else {
            return Err(missing("WIKI_DB_HOST"));
        };
        let Some(wiki_shared_db_name) = wiki_shared_db_name else {
            return Err(missing("WIKI_SHARED_DB_NAME"));
        };
        let Some(opensearch_user) = opensearch_user else {
            return Err(missing("OPENSEARCH_USER"));
        };
        let Some(opensearch_port) = opensearch_port else {
            return Err(missing("OPENSEARCH_PORT"));
        };
        let Some(opensearch_transport) = opensearch_transport else {
            return Err(missing("OPENSEARCH_TRANSPORT"));
        };
        let Some(opensearch_password) = opensearch_password else {
            return Err(missing("OPENSEARCH_PASSWORD"));
        };
        let Some(opensearch_endpoint) = opensearch_endpoint else {
            return Err(missing("OPENSEARCH_ENDPOINT"));
        };
        let Some(redis_password) = redis_password else {
            return Err(missing("REDIS_PASSWORD"));
        };
        let Some(redis_server) = redis_server else {
            return Err(missing("REDIS_SERVER"));
        };
        let Some(wiki_aws_region) = wiki_aws_region else {
            return Err(missing("WIKI_AWS_REGION"));
        };
        Ok(WikifarmEnv {
            wikifarm_dir: opt_or(wikifarm_dir, "/srv/wikis"),
            wikifarm_template: opt_or(wikifarm_template, "/template"),
            wikifarm_config_dir: opt_or(wikifarm_config_dir, "/config"),
            wikifarm_instance,
            wiki_host,
            wiki_db_host,
            wiki_shared_db_name,
            opensearch_user,
            opensearch_port,
            opensearch_transport,
            opensearch_password,
            opensearch_endpoint,
            redis_password,
            redis_server,
            wiki_aws_region,
        })
    }
}

fn missing(key: &str) -> (r: String)
    ensures
        "missing env "@.is_prefix_of(r@),
        r@ == "missing env "@ + key@,
{
    let r = String::from_str("missing env ").concat(key);
    proof {
        assert(r@.subrange(0, "missing env "@.len() as int) =~= "missing env "@);
    }
    r
}

} // verus!
