//! The run's configuration: source and target databases, the business scope
//! and the configured table lists.
use vstd::prelude::*;

use crate::text::{int_decimal, push_char, push_i64, push_str};

verus! {

/// Configured table names, per category.
#[derive(Debug, Clone)]
pub struct TablesConfig {
    pub batch_tables: Vec<String>,
    pub partitioned_tables: Vec<String>,
    pub double_partitioned_tables: Vec<String>,
    pub triple_partitioned_tables: Vec<String>,
    pub redshift_tables: Vec<String>,
}

/// Where a database is and how to log in.
#[derive(Debug, Clone)]
pub struct DbConfig {
    pub username: String,
    pub password: String,
    pub host: String,
    pub port: String,
    pub database: String,
}

/// The business scope that bounds an extraction run.
#[derive(Debug, Clone)]
pub struct BatchConfig {
    pub study_id: i64,
    pub area_id: u8,
    pub lifecycle_id: u8,
    pub subject_id: Option<i64>,
    pub job_id: Option<i64>,
    pub limit: Option<i64>,
}

#[derive(Debug, Clone)]
pub struct DbTechnology {
    pub category: String,
}

#[derive(Debug, Clone)]
pub struct TargetPath {
    pub path: String,
}

#[derive(Debug, Clone, Copy, PartialEq, Eq)]
pub enum LogLevel {
    Error,
    Warn,
    Info,
    Debug,
    Trace,
}

#[derive(Debug, Clone)]
pub struct LogsConfig {
    pub log_level: LogLevel,
}

/// The whole configuration of a run.
#[derive(Debug, Clone)]
pub struct Config {
    pub source: DbConfig,
    pub redshift_db: DbConfig,
    pub target_db: Option<DbConfig>,
    pub target_path: TargetPath,
    pub tables: TablesConfig,
    pub technology: DbTechnology,
    pub business: BatchConfig,
    pub log: LogsConfig,
}

/// The business scope as integers.
pub struct ScopeView {
    pub study: int,
    pub area: int,
    pub lifecycle: int,
    pub subject: Option<int>,
    pub job: Option<int>,
    pub limit: Option<int>,
}

pub open spec fn opt_int(o: Option<i64>) -> Option<int> {
    match o {
        Some(v) => Some(v as int),
        None => None,
    }
}

impl View for BatchConfig {
    type V = ScopeView;

    open spec fn view(&self) -> ScopeView {
        ScopeView {
            study: self.study_id as int,
            area: self.area_id as int,
            lifecycle: self.lifecycle_id as int,
            subject: opt_int(self.subject_id),
            job: opt_int(self.job_id),
            limit: opt_int(self.limit),
        }
    }
}

/// `<scheme>://<user>:<password>@<host>:<port>/<database>`
pub open spec fn url_text(scheme: Seq<char>, db: DbConfig) -> Seq<char> {
    scheme + "://"@ + db.username@ + seq![':'] + db.password@ + seq!['@'] + db.host@ + seq![':']
        + db.port@ + seq!['/'] + db.database@
}

pub fn connection_url(scheme: &str, db_config: &DbConfig) -> (r: String)
    ensures
        r@ == url_text(scheme@, *db_config),
{
    let mut url = String::new();
    push_str(&mut url, scheme);
    push_str(&mut url, "://");
    push_str(&mut url, db_config.username.as_str());
    push_char(&mut url, ':');
    push_str(&mut url, db_config.password.as_str());
    push_char(&mut url, '@');
    push_str(&mut url, db_config.host.as_str());
    push_char(&mut url, ':');
    push_str(&mut url, db_config.port.as_str());
    push_char(&mut url, '/');
    push_str(&mut url, db_config.database.as_str());
    proof {
        assert(url@ =~= url_text(scheme@, *db_config));
    }
    url
}

/// The connection URL of a MySQL source or target database.
pub fn get_url(db_config: &DbConfig) -> (r: String)
    ensures
        r@ == url_text("mysql"@, *db_config),
{
    connection_url("mysql", db_config)
}

/// `<base>_<lifecycle_id>_<area_id>`: the physical name of a table
/// partitioned by lifecycle and area.
pub open spec fn partition_name(base: Seq<char>, scope: ScopeView) -> Seq<char> {
    base + seq!['_'] + int_decimal(scope.lifecycle) + seq!['_'] + int_decimal(scope.area)
}

impl BatchConfig {
    pub fn partition_table_name(&self, base: &String) -> (r: String)
        ensures
            r@ == partition_name(base@, self@),
    {
        let mut name = base.clone();
        push_char(&mut name, '_');
        push_i64(&mut name, self.lifecycle_id as i64);
        push_char(&mut name, '_');
        push_i64(&mut name, self.area_id as i64);
        name
    }
}

} // verus!
