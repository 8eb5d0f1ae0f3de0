//! Orchestration core of a deterministic-replay test harness: run
//! configuration, the per-iteration seed schedule, the hand-off of recorded
//! randomness between iterations, and the seed line printed on failure.
pub mod config;
pub mod decimal;
pub mod harness;
pub mod report;

pub use config::{
    resolve_config, resolve_config_now, ConfigError, ConfigOptions, RunConfig, TimeLimitSetting,
    CHECK_DETERMINISTIC_OPTION, ITERATION_COUNT_OPTION, SEED_OPTION, TIME_LIMIT_OPTION,
};
pub use decimal::{format_u64, parse_u64};
pub use harness::{Harness, IterationPlan, Outcome, Phase};
pub use report::report_line;
