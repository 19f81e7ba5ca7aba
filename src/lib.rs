//! Periodic archive-and-upload backups: the artifact naming scheme, the
//! retention rule, the per-cycle pipeline decisions and the job schedule.

pub mod config;
pub mod name;
pub mod pipeline;
pub mod retention;
pub mod schedule;
pub mod timestamp;

pub use config::{validate_config, Backup, Config, ConfigError, S3};
pub use name::{digest_suffix, hash_suffix, CpsdFileName, NameError};
pub use pipeline::{compression_outcome, tar_args, Action, Cycle, CycleError, CycleResult, Event, Stage};
pub use retention::{find_remove_files, RemoteEntry};
pub use schedule::JobSchedule;
pub use timestamp::Timestamp;
