use vstd::prelude::*;

use crate::job::Job;
use crate::text::{chars_of, equals_at, last_index, last_index_range};

verus! {

/// Settings of the daemon process. Paths are kept as text.
#[derive(Debug, PartialEq, Eq)]
pub struct ServerConfig {
    pub tick_interval_ms: u64,
    pub max_concurrent_jobs: u32,
    pub data_dir: String,
    pub socket_path: String,
}

/// Where and how the daemon logs.
#[derive(Debug, PartialEq, Eq)]
pub struct LoggingConfig {
    pub level: String,
    pub format: String,
    pub output: Option<String>,
}

/// How long run history is kept.
#[derive(Debug, Clone, Copy, PartialEq, Eq, Structural)]
pub struct RetentionConfig {
    pub history_days: u32,
    pub max_history_per_job: u32,
}

/// The daemon's configuration, with jobs defined in it.
#[derive(Debug)]
pub struct Config {
    pub server: ServerConfig,
    pub logging: LoggingConfig,
    pub retention: RetentionConfig,
    pub jobs: Vec<Job>,
}

/// The text formats a configuration file may be written in.
#[derive(Debug, Clone, Copy, PartialEq, Eq, Structural)]
pub enum ConfigFormat {
    Yaml,
    Toml,
}

/// Why a configuration file was refused.
#[derive(Debug, Clone, Copy, PartialEq, Eq, Structural)]
pub enum ConfigError {
    /// The file name's extension is not `.yaml`, `.yml` or `.toml`.
    UnsupportedFormat,
}

pub const DEFAULT_SOCKET_PATH: &'static str = "/var/run/lunasched/lunasched.sock";

pub const DEFAULT_DB_PATH: &'static str = "/var/lib/lunasched/lunasched.db";

pub const DEFAULT_CONFIG_PATH: &'static str = "/etc/lunasched/config.yaml";

pub const DEFAULT_LOG_FILE: &'static str = "/var/log/lunasched/daemon.log";

pub const DEFAULT_JOBS_LOG_FILE: &'static str = "/var/log/lunasched/jobs.log";

pub const USER_SOCKET_PATH: &'static str = "/tmp/lunasched.sock";

pub const USER_DB_PATH: &'static str = "lunasched.db";

pub const USER_CONFIG_PATH: &'static str = "~/.config/lunasched/config.yaml";

pub const USER_LOG_FILE: &'static str = "lunasched-daemon.log";

pub const USER_JOBS_LOG_FILE: &'static str = "lunasched-jobs.log";

pub fn default_tick_interval() -> (r: u64)
    ensures
        r == 1000,
{
    1000
}

pub fn default_max_concurrent() -> (r: u32)
    ensures
        r == 10,
{
    10
}

pub fn default_data_dir() -> (r: String)
    ensures
        r@ == "/var/lib/lunasched"@,
{
    "/var/lib/lunasched".to_owned()
}

pub fn default_socket_path() -> (r: String)
    ensures
        r@ == DEFAULT_SOCKET_PATH@,
{
    DEFAULT_SOCKET_PATH.to_owned()
}

pub fn default_log_level() -> (r: String)
    ensures
        r@ == "info"@,
{
    "info".to_owned()
}

pub fn default_log_format() -> (r: String)
    ensures
        r@ == "text"@,
{
    "text".to_owned()
}

pub fn default_history_days() -> (r: u32)
    ensures
        r == 30,
{
    30
}

pub fn default_max_history_per_job() -> (r: u32)
    ensures
        r == 100,
{
    100
}

impl Default for ServerConfig {
    fn default() -> (r: Self)
        ensures
            r.tick_interval_ms == 1000,
            r.max_concurrent_jobs == 10,
            r.data_dir@ == "/var/lib/lunasched"@,
            r.socket_path@ == DEFAULT_SOCKET_PATH@,
    {
        ServerConfig {
            tick_interval_ms: default_tick_interval(),
            max_concurrent_jobs: default_max_concurrent(),
            data_dir: default_data_dir(),
            socket_path: default_socket_path(),
        }
    }
}

impl Default for LoggingConfig {
    fn default() -> (r: Self)
        ensures
            r.level@ == "info"@,
            r.format@ == "text"@,
            r.output is None,
    {
        LoggingConfig { level: default_log_level(), format: default_log_format(), output: None }
    }
}

impl Default for RetentionConfig {
    fn default() -> (r: Self)
        ensures
            r.history_days == 30,
            r.max_history_per_job == 100,
    {
        RetentionConfig {
            history_days: default_history_days(),
            max_history_per_job: default_max_history_per_job(),
        }
    }
}

impl Default for Config {
    fn default() -> (r: Self)
        ensures
            r.server.tick_interval_ms == 1000,
            r.server.max_concurrent_jobs == 10,
            r.server.data_dir@ == "/var/lib/lunasched"@,
            r.server.socket_path@ == DEFAULT_SOCKET_PATH@,
            r.logging.level@ == "info"@,
            r.logging.format@ == "text"@,
            r.logging.output is None,
            r.retention.history_days == 30,
            r.retention.max_history_per_job == 100,
            r.jobs@.len() == 0,
    {
        Config {
            server: ServerConfig::default(),
            logging: LoggingConfig::default(),
            retention: RetentionConfig::default(),
            jobs: Vec::new(),
        }
    }
}

/// The extension of the last segment of a path: the text after its last
/// `.`, where that `.` is not the segment's first character.
pub open spec fn extension_of(path: Seq<char>) -> Option<Seq<char>> {
    let start = match last_index(path, '/') {
        Some(i) => i + 1,
        None => 0,
    };
    let name = path.subrange(start, path.len() as int);
    match last_index(name, '.') {
        Some(d) => if d > 0 {
            Some(name.subrange(d + 1, name.len() as int))
        } else {
            None
        },
        None => None,
    }
}

/// The format a configuration file is read in, by its extension.
pub open spec fn format_spec(path: Seq<char>) -> Result<ConfigFormat, ConfigError> {
    match extension_of(path) {
        Some(e) => if e == seq!['y', 'a', 'm', 'l'] || e == seq!['y', 'm', 'l'] {
            Ok(ConfigFormat::Yaml)
        } else if e == seq!['t', 'o', 'm', 'l'] {
            Ok(ConfigFormat::Toml)
        } else {
            Err(ConfigError::UnsupportedFormat)
        },
        None => Err(ConfigError::UnsupportedFormat),
    }
}

impl Config {
    /// Picks the format of a configuration file from its extension:
    /// `.yaml` or `.yml` for YAML, `.toml` for TOML.
    pub fn format_of(path: &str) -> (r: Result<ConfigFormat, ConfigError>)
        ensures
            r == format_spec(path@),
    {
        let cs = chars_of(path);
        let n = cs.len();
        proof {
            assert(cs@.subrange(0, n as int) =~= path@);
        }
        let start: usize = match last_index_range(&cs, 0, n, '/') {
            Some(i) => i + 1,
            None => 0,
        };
        let ext = match last_index_range(&cs, start, n, '.') {
            Some(d) => {
                if d > start {
                    Some(d + 1)
                } else {
                    None
                }
            },
            None => None,
        };
        match ext {
            Some(e) => {
                proof {
                    let name = cs@.subrange(start as int, n as int);
                    assert(name.subrange(e - start, name.len() as int) =~= cs@.subrange(
                        e as int,
                        n as int,
                    ));
                }
                if equals_at(&cs, e, n, &vec!['y', 'a', 'm', 'l']) || equals_at(
                    &cs,
                    e,
                    n,
                    &vec!['y', 'm', 'l'],
                ) {
                    Ok(ConfigFormat::Yaml)
                } else if equals_at(&cs, e, n, &vec!['t', 'o', 'm', 'l']) {
                    Ok(ConfigFormat::Toml)
                } else {
                    Err(ConfigError::UnsupportedFormat)
                }
            },
            None => Err(ConfigError::UnsupportedFormat),
        }
    }

    /// Merges `other` into this configuration: its server, logging and
    /// retention settings win, a log output is replaced only where `other`
    /// names one, and its jobs are appended.
    pub fn merge(&mut self, other: Config)
        ensures
            final(self).server == other.server,
            final(self).logging.level == other.logging.level,
            final(self).logging.format == other.logging.format,
            final(self).logging.output == if other.logging.output is Some {
                other.logging.output
            } else {
                old(self).logging.output
            },
            final(self).retention == other.retention,
            final(self).jobs@ == old(self).jobs@ + other.jobs@,
    {
        let Config { server, logging, retention, jobs } = other;
        let mut jobs = jobs;
        self.server.tick_interval_ms = server.tick_interval_ms;
        self.server.max_concurrent_jobs = server.max_concurrent_jobs;
        self.server.data_dir = server.data_dir;
        self.server.socket_path = server.socket_path;
        self.logging.level = logging.level;
        self.logging.format = logging.format;
        if logging.output.is_some() {
            self.logging.output = logging.output;
        }
        self.retention.history_days = retention.history_days;
        self.retention.max_history_per_job = retention.max_history_per_job;
        self.jobs.append(&mut jobs);
    }
}

} // verus!
