//! A per-host job scheduler: schedule evaluation, retries with backoff, the
//! scheduler core's tick and completion handling, and the decisions of the
//! control plane, each verified against its contract.

pub mod backoff;
pub mod chance;
pub mod clock;
pub mod config;
pub mod control;
pub mod evaluate;
pub mod job;
pub mod laws;
pub mod notifier;
pub mod running;
pub mod schedule;
pub mod scheduler;
pub mod store;
pub mod supervisor;
pub mod table;
pub mod text;

pub use backoff::calculate_backoff_delay;
pub use clock::CivilTime;
pub use config::{Config, ConfigError, ConfigFormat, LoggingConfig, RetentionConfig, ServerConfig};
pub use control::{HistoryEntry, Request, Response};
pub use job::{
    BackoffStrategy, CalendarParams, ExecutionMode, Job, JobHooks, JobId, JobPriority, JobStatus,
    KeyValue, NotificationChannel, NotificationConfig, ResourceLimits, RetryPolicy,
    ScheduleConfig,
};
pub use notifier::Notifier;
pub use running::JobExecutionContext;
pub use schedule::{parse_schedule, ScheduleError};
pub use scheduler::{RetryState, RunOutcome, RunStatus, Scheduler};
