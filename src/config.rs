use core::time::Duration;
use vstd::prelude::*;

use crate::decimal::{parse_u64, u64_of_text};

verus! {

/// Name of the option that holds the base seed.
pub const SEED_OPTION: &'static str = "MADSIM_TEST_SEED";

/// Name of the option that holds the number of iterations.
pub const ITERATION_COUNT_OPTION: &'static str = "MADSIM_TEST_NUM";

/// Name of the option that holds the per-iteration time limit, in seconds.
pub const TIME_LIMIT_OPTION: &'static str = "MADSIM_TEST_TIME_LIMIT";

/// Name of the flag that turns on determinism checking.
pub const CHECK_DETERMINISTIC_OPTION: &'static str = "MADSIM_TEST_CHECK_DETERMINISTIC";

/// The parameters of one harness invocation, fixed before the first iteration.
#[derive(Clone, Copy, Debug)]
pub struct RunConfig {
    pub base_seed: u64,
    pub iteration_count: u64,
    pub check_deterministic: bool,
    pub time_limit: Option<Duration>,
}

impl RunConfig {
    /// At least one iteration, and exactly two in determinism-check mode.
    pub open spec fn wf(&self) -> bool {
        &&& self.iteration_count >= 1
        &&& self.check_deterministic ==> self.iteration_count == 2
    }
}

/// The time-limit option as the caller read it. Its value is a number of
/// seconds with a fractional part, so the caller converts it.
#[derive(Clone, Copy, Debug)]
pub enum TimeLimitSetting {
    Unset,
    Malformed,
    Limit(Duration),
}

/// The raw configuration options: `None` where an option is absent.
pub struct ConfigOptions {
    pub seed: Option<String>,
    pub iteration_count: Option<String>,
    pub time_limit: TimeLimitSetting,
    pub check_deterministic: bool,
}

/// Why a configuration could not be resolved.
#[derive(Clone, Copy, Debug, PartialEq, Eq, Structural)]
pub enum ConfigError {
    MalformedSeed,
    MalformedIterationCount,
    MalformedTimeLimit,
    ClockUnavailable,
}

pub open spec fn opt_view(o: Option<String>) -> Option<Seq<char>> {
    match o {
        Some(t) => Some(t@),
        None => None,
    }
}

/// The base seed: the option's value, or the clock reading when it is absent.
pub open spec fn seed_setting(seed: Option<Seq<char>>, now_secs: u64) -> Option<u64> {
    match seed {
        Some(t) => u64_of_text(t),
        None => Some(now_secs),
    }
}

/// The requested count: the option's value when it is a positive integer,
/// one when it is absent. In determinism-check mode the count is replaced by
/// two, so any integer is accepted there.
pub open spec fn count_setting(count: Option<Seq<char>>, check: bool) -> Option<u64> {
    match count {
        Some(t) => match u64_of_text(t) {
            Some(c) => if c >= 1 || check { Some(c) } else { None },
            None => None,
        },
        None => Some(1),
    }
}

/// The configuration that `opts` resolves to when the clock reads `now_secs`
/// seconds since the Unix epoch. Options are checked in the order seed,
/// count, time limit; the first malformed one is reported.
pub open spec fn resolved(opts: ConfigOptions, now_secs: u64) -> Result<RunConfig, ConfigError> {
    let seed = seed_setting(opt_view(opts.seed), now_secs);
    let count = count_setting(opt_view(opts.iteration_count), opts.check_deterministic);
    if seed is None {
        Err(ConfigError::MalformedSeed)
    } else if count is None {
        Err(ConfigError::MalformedIterationCount)
    } else if opts.time_limit is Malformed {
        Err(ConfigError::MalformedTimeLimit)
    } else {
        Ok(
            RunConfig {
                base_seed: seed->0,
                iteration_count: if opts.check_deterministic { 2 } else { count->0 },
                check_deterministic: opts.check_deterministic,
                time_limit: match opts.time_limit {
                    TimeLimitSetting::Limit(d) => Some(d),
                    _ => None,
                },
            },
        )
    }
}

/// Resolves the options into a run configuration, taking `now_secs` as the
/// default seed.
pub fn resolve_config(opts: &ConfigOptions, now_secs: u64) -> (r: Result<RunConfig, ConfigError>)
    ensures
        r == resolved(*opts, now_secs),
        r matches Ok(c) ==> c.wf(),
{
    let seed = match &opts.seed {
        Some(t) => parse_u64(t.as_str()),
        None => Some(now_secs),
    };
    let check = opts.check_deterministic;
    let count = match &opts.iteration_count {
        Some(t) => match parse_u64(t.as_str()) {
            Some(c) => if c >= 1 || check { Some(c) } else { None },
            None => None,
        },
        None => Some(1),
    };
    let base_seed = match seed {
        Some(s) => s,
        None => { return Err(ConfigError::MalformedSeed); },
    };
    let requested = match count {
        Some(c) => c,
        None => { return Err(ConfigError::MalformedIterationCount); },
    };
    let time_limit = match opts.time_limit {
        TimeLimitSetting::Unset => None,
        TimeLimitSetting::Malformed => { return Err(ConfigError::MalformedTimeLimit); },
        TimeLimitSetting::Limit(d) => Some(d),
    };
    Ok(
        RunConfig {
            base_seed,
            iteration_count: if check { 2 } else { requested },
            check_deterministic: check,
            time_limit,
        },
    )
}

/// Relies on `SystemTime::now` and `SystemTime::duration_since`: the whole
/// seconds elapsed since the Unix epoch, or `None` when the clock reads an
/// earlier time. Nothing is known of the value, which changes with time.
#[verifier::external_body]
fn seconds_since_epoch() -> (r: Option<u64>) {
    std::time::SystemTime::now().duration_since(std::time::UNIX_EPOCH).ok().map(|d| d.as_secs())
}

/// Resolves the options, reading the clock for the default seed only when
/// no seed is given.
pub fn resolve_config_now(opts: &ConfigOptions) -> (r: Result<RunConfig, ConfigError>)
    ensures
        opts.seed is Some ==> r == resolved(*opts, 0),
        opts.seed is None ==> r == Err::<RunConfig, ConfigError>(ConfigError::ClockUnavailable)
            || exists|now: u64| r == resolved(*opts, now),
        r matches Ok(c) ==> c.wf(),
{
    let now = match &opts.seed {
        Some(_) => 0,
        None => match seconds_since_epoch() {
            Some(t) => t,
            None => { return Err(ConfigError::ClockUnavailable); },
        },
    };
    resolve_config(opts, now)
}

/// Without a seed option the base seed is the clock reading, so two
/// resolutions at different clock readings get different seeds.
pub proof fn lemma_default_seed_follows_clock(opts: ConfigOptions, now1: u64, now2: u64)
    requires
        opts.seed is None,
        now1 != now2,
        resolved(opts, now1) is Ok,
    ensures
        resolved(opts, now2) is Ok,
        resolved(opts, now1)->Ok_0.base_seed == now1,
        resolved(opts, now2)->Ok_0.base_seed == now2,
        resolved(opts, now1)->Ok_0.base_seed != resolved(opts, now2)->Ok_0.base_seed,
{
}

/// Resolution fails exactly when a seed, count or time-limit option is
/// present but malformed (a count must be an integer, and outside
/// determinism-check mode a positive one), whatever the clock reads; no configuration, and so
/// no iteration and no seed, exists then.
pub proof fn lemma_malformed_option_fails(opts: ConfigOptions, now1: u64, now2: u64)
    ensures
        resolved(opts, now1) is Err <==> {
            ||| (opts.seed is Some && u64_of_text(opts.seed->0@) is None)
            ||| (opts.iteration_count is Some && !(u64_of_text(opts.iteration_count->0@) matches Some(
                c,
            ) && (c >= 1 || opts.check_deterministic)))
            ||| opts.time_limit is Malformed
        },
        resolved(opts, now1) is Err ==> resolved(opts, now2) == resolved(opts, now1),
{
}

/// In determinism-check mode the requested count is ignored: any integer
/// count, or none, gives exactly two iterations from the given seed.
pub proof fn lemma_check_mode_ignores_count(opts: ConfigOptions, now_secs: u64)
    requires
        opts.check_deterministic,
        opts.seed is Some ==> u64_of_text(opts.seed->0@) is Some,
        opts.iteration_count is Some ==> u64_of_text(opts.iteration_count->0@) is Some,
        !(opts.time_limit is Malformed),
    ensures
        resolved(opts, now_secs) is Ok,
        resolved(opts, now_secs)->Ok_0.iteration_count == 2,
        resolved(opts, now_secs)->Ok_0.check_deterministic,
        resolved(opts, now_secs)->Ok_0.base_seed == seed_setting(opt_view(opts.seed), now_secs)->0,
{
}

} // verus!
