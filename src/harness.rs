use core::time::Duration;
use vstd::prelude::*;

use crate::config::RunConfig;

verus! {

/// What the caller needs to set up one iteration's runtime: the seed to
/// build it from, whether to enable determinism checking and with which
/// recorded log, and the time limit to apply.
#[derive(Debug)]
pub struct IterationPlan<L> {
    pub index: u64,
    pub seed: u64,
    pub deterministic_check: bool,
    pub prior_log: Option<L>,
    pub time_limit: Option<Duration>,
}

/// How one iteration ended: it ran to completion and handed back the
/// randomness log its runtime recorded, or it failed.
#[derive(Debug)]
pub enum Outcome<L> {
    Completed(Option<L>),
    Failed,
}

/// Where a harness invocation stands.
#[derive(Clone, Copy, Debug, PartialEq, Eq, Structural)]
pub enum Phase {
    /// The next iteration may start.
    Ready,
    /// An iteration has started and its outcome is awaited.
    Running,
    /// Every iteration completed.
    Done,
    /// An iteration failed; it ran with this seed.
    Failed(u64),
}

/// The abstract state of a harness: its configuration, the index of the
/// current (or next) iteration, the log carried forward from the last
/// completed iteration, and its phase.
pub struct HarnessState<L> {
    pub config: RunConfig,
    pub next: nat,
    pub carried: Option<L>,
    pub phase: Phase,
}

/// The seed of iteration `i`: the base seed in determinism-check mode,
/// otherwise the base seed plus `i`, modulo 2^64.
pub open spec fn seed_of(cfg: RunConfig, i: nat) -> u64 {
    if cfg.check_deterministic {
        cfg.base_seed
    } else {
        ((cfg.base_seed as nat + i) % 0x1_0000_0000_0000_0000) as u64
    }
}

/// The state of a fresh harness.
pub open spec fn initial<L>(cfg: RunConfig) -> HarnessState<L> {
    HarnessState {
        config: cfg,
        next: 0,
        carried: None,
        phase: if cfg.iteration_count == 0 {
            Phase::Done
        } else {
            Phase::Ready
        },
    }
}

impl<L> HarnessState<L> {
    /// The plan of the current iteration.
    pub open spec fn plan(self) -> IterationPlan<L> {
        IterationPlan {
            index: self.next as u64,
            seed: seed_of(self.config, self.next),
            deterministic_check: self.config.check_deterministic,
            prior_log: if self.config.check_deterministic {
                self.carried
            } else {
                None
            },
            time_limit: self.config.time_limit,
        }
    }

    /// The state once the current iteration has started: the carried log
    /// has been handed over.
    pub open spec fn begun(self) -> HarnessState<L> {
        HarnessState { config: self.config, next: self.next, carried: None, phase: Phase::Running }
    }

    /// The state once the current iteration has ended with `o`.
    pub open spec fn finished(self, o: Outcome<L>) -> HarnessState<L> {
        match o {
            Outcome::Completed(log) => HarnessState {
                config: self.config,
                next: self.next + 1,
                carried: log,
                phase: if self.next + 1 >= self.config.iteration_count {
                    Phase::Done
                } else {
                    Phase::Ready
                },
            },
            Outcome::Failed => HarnessState {
                config: self.config,
                next: self.next,
                carried: self.carried,
                phase: Phase::Failed(seed_of(self.config, self.next)),
            },
        }
    }

    /// One round: start an iteration if one may start, and end it with `o`.
    pub open spec fn step(self, o: Outcome<L>) -> HarnessState<L> {
        if self.phase is Ready {
            self.begun().finished(o)
        } else {
            self
        }
    }
}

/// The state after offering the outcomes `os` one round each.
pub open spec fn run<L>(h: HarnessState<L>, os: Seq<Outcome<L>>) -> HarnessState<L>
    decreases os.len(),
{
    if os.len() == 0 {
        h
    } else {
        run(h, os.drop_last()).step(os.last())
    }
}

/// The plans of the iterations that start while the outcomes `os` are
/// offered, in order.
pub open spec fn plans<L>(h: HarnessState<L>, os: Seq<Outcome<L>>) -> Seq<IterationPlan<L>>
    decreases os.len(),
{
    if os.len() == 0 {
        Seq::empty()
    } else {
        let prev = run(h, os.drop_last());
        if prev.phase is Ready {
            plans(h, os.drop_last()).push(prev.plan())
        } else {
            plans(h, os.drop_last())
        }
    }
}

/// The log that an outcome hands back.
pub open spec fn log_of<L>(o: Outcome<L>) -> Option<L> {
    match o {
        Outcome::Completed(log) => log,
        Outcome::Failed => None,
    }
}

pub open spec fn all_completed<L>(os: Seq<Outcome<L>>) -> bool {
    forall|i: int| 0 <= i < os.len() ==> #[trigger] os[i] is Completed
}

/// The orchestrator of one harness invocation. The caller asks for the next
/// iteration's plan, runs it on a fresh runtime, and reports the outcome,
/// until the phase is `Done` or `Failed`.
pub struct Harness<L> {
    config: RunConfig,
    next: u64,
    carried: Option<L>,
    phase: Phase,
}

impl<L> View for Harness<L> {
    type V = HarnessState<L>;

    closed spec fn view(&self) -> HarnessState<L> {
        HarnessState {
            config: self.config,
            next: self.next as nat,
            carried: self.carried,
            phase: self.phase,
        }
    }
}

impl<L> Harness<L> {
    #[verifier::type_invariant]
    spec fn inv(self) -> bool {
        &&& self.next <= self.config.iteration_count
        &&& (self.phase is Ready || self.phase is Running) ==> self.next
            < self.config.iteration_count
        &&& self.phase is Done ==> self.next == self.config.iteration_count
    }

    /// A harness about to run its first iteration.
    pub fn new(config: RunConfig) -> (r: Harness<L>)
        ensures
            r@ == initial::<L>(config),
    {
        Harness {
            config,
            next: 0,
            carried: None,
            phase: if config.iteration_count == 0 {
                Phase::Done
            } else {
                Phase::Ready
            },
        }
    }

    /// The current phase.
    pub fn phase(&self) -> (r: Phase)
        ensures
            r == self@.phase,
    {
        self.phase
    }

    /// The configuration this harness runs.
    pub fn config(&self) -> (r: RunConfig)
        ensures
            r == self@.config,
    {
        self.config
    }

    /// Starts the next iteration and returns its plan, or returns `None`
    /// when no iteration may start: one is running, all have completed, or
    /// one has failed.
    pub fn next_iteration(&mut self) -> (r: Option<IterationPlan<L>>)
        ensures
            old(self)@.phase is Ready ==> r == Some(old(self)@.plan()) && final(self)@ == old(
                self,
            )@.begun(),
            !(old(self)@.phase is Ready) ==> r is None && final(self)@ == old(self)@,
    {
        if self.phase != Phase::Ready {
            return None;
        }
        let check = self.config.check_deterministic;
        let seed = if check {
            self.config.base_seed
        } else {
            self.config.base_seed.wrapping_add(self.next)
        };
        proof {
            use_type_invariant(&*self);
        }
        let mut ready = Harness {
            config: self.config,
            next: self.next,
            carried: None,
            phase: Phase::Running,
        };
        core::mem::swap(self, &mut ready);
        let prior_log = if check {
            ready.carried
        } else {
            None
        };
        Some(
            IterationPlan {
                index: self.next,
                seed,
                deterministic_check: check,
                prior_log,
                time_limit: self.config.time_limit,
            },
        )
    }

    /// Records how the running iteration ended and returns the new phase.
    /// A completed iteration's log is carried to the next one; a failure
    /// ends the invocation, and the phase holds the seed to report.
    pub fn finish_iteration(&mut self, outcome: Outcome<L>) -> (r: Phase)
        requires
            old(self)@.phase is Running,
        ensures
            final(self)@ == old(self)@.finished(outcome),
            r == final(self)@.phase,
    {
        proof {
            use_type_invariant(&*self);
        }
        match outcome {
            Outcome::Completed(log) => {
                let next = self.next + 1;
                let phase = if next >= self.config.iteration_count {
                    Phase::Done
                } else {
                    Phase::Ready
                };
                *self = Harness { config: self.config, next, carried: log, phase };
            },
            Outcome::Failed => {
                let seed = if self.config.check_deterministic {
                    self.config.base_seed
                } else {
                    self.config.base_seed.wrapping_add(self.next)
                };
                self.phase = Phase::Failed(seed);
            },
        }
        self.phase
    }
}

/// While every outcome is a completion and no more iterations than
/// configured have run, iteration `i` starts with seed `seed_of(cfg, i)`,
/// and in determinism-check mode with the log that iteration `i - 1`
/// recorded.
pub proof fn lemma_completed_prefix<L>(cfg: RunConfig, os: Seq<Outcome<L>>)
    requires
        os.len() <= cfg.iteration_count,
        all_completed(os),
    ensures
        run(initial::<L>(cfg), os).config == cfg,
        run(initial::<L>(cfg), os).next == os.len(),
        run(initial::<L>(cfg), os).phase == if os.len() < cfg.iteration_count {
            Phase::Ready
        } else {
            Phase::Done
        },
        run(initial::<L>(cfg), os).carried == if os.len() == 0 {
            None
        } else {
            log_of(os.last())
        },
        plans(initial::<L>(cfg), os).len() == os.len(),
        forall|i: int|
            0 <= i < os.len() ==> {
                let p = #[trigger] plans(initial::<L>(cfg), os)[i];
                &&& p.index == i
                &&& p.seed == seed_of(cfg, i as nat)
                &&& p.deterministic_check == cfg.check_deterministic
                &&& p.prior_log == if cfg.check_deterministic && i > 0 {
                    log_of(os[i - 1])
                } else {
                    None
                }
                &&& p.time_limit == cfg.time_limit
            },
    decreases os.len(),
{
    if os.len() > 0 {
        let pre = os.drop_last();
        assert forall|i: int| 0 <= i < pre.len() implies #[trigger] pre[i] is Completed by {
            assert(pre[i] == os[i]);
        }
        lemma_completed_prefix(cfg, pre);
        let h = initial::<L>(cfg);
        let prev = run(h, pre);
        assert(os.last() is Completed);
        assert(plans(h, os) == plans(h, pre).push(prev.plan()));
        let n = os.len() as int;
        assert forall|i: int| 0 <= i < n implies {
            let p = #[trigger] plans(initial::<L>(cfg), os)[i];
            &&& p.index == i
            &&& p.seed == seed_of(cfg, i as nat)
            &&& p.deterministic_check == cfg.check_deterministic
            &&& p.prior_log == if cfg.check_deterministic && i > 0 {
                log_of(os[i - 1])
            } else {
                None
            }
            &&& p.time_limit == cfg.time_limit
        } by {
            if i < n - 1 {
                assert(plans(initial::<L>(cfg), os)[i] == plans(initial::<L>(cfg), pre)[i]);
                if i > 0 {
                    assert(pre[i - 1] == os[i - 1]);
                }
            } else if i > 0 {
                assert(pre.last() == os[i - 1]);
            }
        }
    }
}

/// Once no iteration may start, further outcomes change nothing and start
/// nothing.
pub proof fn lemma_stopped_stays<L>(h: HarnessState<L>, os: Seq<Outcome<L>>, k: int)
    requires
        0 <= k <= os.len(),
        !(run(h, os.take(k)).phase is Ready),
    ensures
        run(h, os) == run(h, os.take(k)),
        plans(h, os) == plans(h, os.take(k)),
    decreases os.len(),
{
    if os.len() == k {
        assert(os.take(k) =~= os);
    } else {
        assert(os.drop_last().take(k) =~= os.take(k));
        lemma_stopped_stays(h, os.drop_last(), k);
    }
}

/// When the first `iteration_count` iterations complete, exactly that many
/// iterations run, in index order, iteration `i` with seed `seed_of(cfg, i)`,
/// and the invocation ends in `Done` whatever outcomes are offered after.
pub proof fn lemma_all_iterations_run_in_order<L>(cfg: RunConfig, os: Seq<Outcome<L>>)
    requires
        cfg.wf(),
        os.len() >= cfg.iteration_count,
        forall|i: int| 0 <= i < cfg.iteration_count ==> #[trigger] os[i] is Completed,
    ensures
        run(initial::<L>(cfg), os).phase == Phase::Done,
        plans(initial::<L>(cfg), os).len() == cfg.iteration_count,
        forall|i: int|
            0 <= i < cfg.iteration_count ==> (#[trigger] plans(initial::<L>(cfg), os)[i]).index
                == i && plans(initial::<L>(cfg), os)[i].seed == seed_of(cfg, i as nat),
{
    let k = cfg.iteration_count as int;
    let pre = os.take(k);
    assert forall|i: int| 0 <= i < pre.len() implies #[trigger] pre[i] is Completed by {
        assert(pre[i] == os[i]);
    }
    lemma_completed_prefix(cfg, pre);
    lemma_stopped_stays(initial::<L>(cfg), os, k);
}

/// Outside determinism-check mode, and when no seed passes 2^64 - 1, the
/// seeds are the base seed plus the iteration index, strictly increasing.
/// In determinism-check mode every iteration uses the base seed.
pub proof fn lemma_seed_schedule(cfg: RunConfig, i: nat, j: nat)
    requires
        cfg.wf(),
        i < j < cfg.iteration_count,
        !cfg.check_deterministic ==> cfg.base_seed + cfg.iteration_count - 1 <= u64::MAX,
    ensures
        cfg.check_deterministic ==> seed_of(cfg, i) == cfg.base_seed && seed_of(cfg, j)
            == cfg.base_seed,
        !cfg.check_deterministic ==> seed_of(cfg, i) == cfg.base_seed + i && seed_of(cfg, i)
            < seed_of(cfg, j),
{
}

/// In determinism-check mode exactly two iterations run, both with the base
/// seed, with determinism checking on; the first gets no log and the second
/// gets the log the first one recorded.
pub proof fn lemma_check_mode_hands_log_forward<L>(cfg: RunConfig, os: Seq<Outcome<L>>)
    requires
        cfg.wf(),
        cfg.check_deterministic,
        os.len() >= 2,
        os[0] is Completed,
    ensures
        plans(initial::<L>(cfg), os).len() == 2,
        plans(initial::<L>(cfg), os)[0].seed == cfg.base_seed,
        plans(initial::<L>(cfg), os)[1].seed == cfg.base_seed,
        plans(initial::<L>(cfg), os)[0].deterministic_check,
        plans(initial::<L>(cfg), os)[1].deterministic_check,
        plans(initial::<L>(cfg), os)[0].prior_log is None,
        plans(initial::<L>(cfg), os)[1].prior_log == log_of(os[0]),
{
    let h = initial::<L>(cfg);
    let one = os.take(1);
    let two = os.take(2);
    assert(one[0] == os[0]);
    lemma_completed_prefix(cfg, one);
    assert(two.drop_last() =~= one);
    assert(two.last() == os[1]);
    assert(!(run(h, two).phase is Ready));
    lemma_stopped_stays(h, os, 2);
    assert(plans(h, two)[0] == plans(h, one)[0]);
}

/// When iteration `k` fails after iterations `0 .. k` completed, exactly
/// `k + 1` iterations run, the invocation ends in `Failed` with the seed of
/// iteration `k`, and no later outcome starts anything. That seed is the
/// base seed in determinism-check mode, and otherwise the base seed plus `k`
/// when the sum fits in 64 bits.
pub proof fn lemma_failure_stops_the_run<L>(cfg: RunConfig, os: Seq<Outcome<L>>, k: nat)
    requires
        k < cfg.iteration_count,
        k < os.len(),
        forall|i: int| 0 <= i < k ==> #[trigger] os[i] is Completed,
        os[k as int] is Failed,
    ensures
        run(initial::<L>(cfg), os).phase == Phase::Failed(seed_of(cfg, k)),
        plans(initial::<L>(cfg), os).len() == k + 1,
        plans(initial::<L>(cfg), os)[k as int].seed == seed_of(cfg, k),
        cfg.check_deterministic ==> seed_of(cfg, k) == cfg.base_seed,
        !cfg.check_deterministic && cfg.base_seed + k <= u64::MAX ==> seed_of(cfg, k)
            == cfg.base_seed + k,
        forall|i: int|
            0 <= i <= k ==> (#[trigger] plans(initial::<L>(cfg), os)[i]).index == i && plans(
                initial::<L>(cfg),
                os,
            )[i].seed == seed_of(cfg, i as nat),
{
    let h = initial::<L>(cfg);
    let pre = os.take(k as int);
    let upto = os.take(k + 1 as int);
    assert forall|i: int| 0 <= i < pre.len() implies #[trigger] pre[i] is Completed by {
        assert(pre[i] == os[i]);
    }
    lemma_completed_prefix(cfg, pre);
    assert(upto.drop_last() =~= pre);
    assert(upto.last() == os[k as int]);
    lemma_stopped_stays(h, os, k + 1 as int);
    assert forall|i: int| 0 <= i < k implies plans(h, upto)[i] == plans(h, pre)[i] by {}
}

} // verus!
