use madsim_harness::{
    resolve_config, resolve_config_now, ConfigError, ConfigOptions, TimeLimitSetting,
};
use std::time::Duration;

fn options(seed: Option<&str>, count: Option<&str>) -> ConfigOptions {
    ConfigOptions {
        seed: seed.map(|s| s.to_string()),
        iteration_count: count.map(|s| s.to_string()),
        time_limit: TimeLimitSetting::Unset,
        check_deterministic: false,
    }
}

#[test]
fn defaults_apply_when_options_are_absent() {
    let cfg = resolve_config(&options(None, None), 1_700_000_000).unwrap();
    assert_eq!(cfg.base_seed, 1_700_000_000);
    assert_eq!(cfg.iteration_count, 1);
    assert!(!cfg.check_deterministic);
    assert_eq!(cfg.time_limit, None);
}

#[test]
fn unset_seed_follows_the_clock() {
    let a = resolve_config(&options(None, Some("1")), 1_000).unwrap();
    let b = resolve_config(&options(None, Some("1")), 1_001).unwrap();
    assert_eq!(a.base_seed, 1_000);
    assert_eq!(b.base_seed, 1_001);
    assert_ne!(a.base_seed, b.base_seed);
}

#[test]
fn unset_seed_reads_the_system_clock() {
    let cfg = resolve_config_now(&options(None, None)).unwrap();
    assert!(cfg.base_seed > 1_600_000_000);
}

#[test]
fn given_seed_ignores_the_clock() {
    let cfg = resolve_config_now(&options(Some("42"), Some("3"))).unwrap();
    assert_eq!(cfg.base_seed, 42);
    assert_eq!(cfg.iteration_count, 3);
}

#[test]
fn non_numeric_seed_is_rejected() {
    let r = resolve_config(&options(Some("not-a-number"), None), 5);
    assert_eq!(r.unwrap_err(), ConfigError::MalformedSeed);
    let r = resolve_config_now(&options(Some("not-a-number"), None));
    assert_eq!(r.unwrap_err(), ConfigError::MalformedSeed);
}

#[test]
fn malformed_counts_are_rejected() {
    for count in ["", "x", "0", "-1", "1.5", "18446744073709551616"] {
        let r = resolve_config(&options(Some("1"), Some(count)), 5);
        assert_eq!(r.unwrap_err(), ConfigError::MalformedIterationCount, "{}", count);
    }
}

#[test]
fn malformed_count_is_rejected_in_check_mode() {
    let mut opts = options(Some("1"), Some("many"));
    opts.check_deterministic = true;
    assert_eq!(resolve_config(&opts, 5).unwrap_err(), ConfigError::MalformedIterationCount);
}

#[test]
fn malformed_time_limit_is_rejected() {
    let mut opts = options(Some("1"), Some("2"));
    opts.time_limit = TimeLimitSetting::Malformed;
    assert_eq!(resolve_config(&opts, 5).unwrap_err(), ConfigError::MalformedTimeLimit);
}

#[test]
fn seed_error_comes_before_count_and_time_limit_errors() {
    let mut opts = options(Some("s"), Some("c"));
    opts.time_limit = TimeLimitSetting::Malformed;
    assert_eq!(resolve_config(&opts, 5).unwrap_err(), ConfigError::MalformedSeed);
    opts.seed = Some("1".to_string());
    assert_eq!(resolve_config(&opts, 5).unwrap_err(), ConfigError::MalformedIterationCount);
}

#[test]
fn time_limit_is_kept() {
    let mut opts = options(Some("1"), None);
    opts.time_limit = TimeLimitSetting::Limit(Duration::from_secs(3));
    let cfg = resolve_config(&opts, 5).unwrap();
    assert_eq!(cfg.time_limit, Some(Duration::from_secs(3)));
}

#[test]
fn check_mode_forces_two_iterations() {
    let mut opts = options(Some("7"), Some("10"));
    opts.check_deterministic = true;
    let cfg = resolve_config(&opts, 5).unwrap();
    assert_eq!(cfg.iteration_count, 2);
    assert_eq!(cfg.base_seed, 7);
    assert!(cfg.check_deterministic);
}

#[test]
fn check_mode_ignores_a_zero_count() {
    let mut opts = options(Some("7"), Some("0"));
    opts.check_deterministic = true;
    let cfg = resolve_config(&opts, 5).unwrap();
    assert_eq!(cfg.iteration_count, 2);
    assert_eq!(cfg.base_seed, 7);
    assert!(cfg.check_deterministic);
}

#[test]
fn check_mode_with_zero_count_reports_malformed_time_limit() {
    let mut opts = options(Some("7"), Some("0"));
    opts.check_deterministic = true;
    opts.time_limit = TimeLimitSetting::Malformed;
    assert_eq!(resolve_config(&opts, 5).unwrap_err(), ConfigError::MalformedTimeLimit);
}
