//! The orchestrator's tick decision.
//!
//! Once per tick the service either publishes a fresh triangulation, or
//! projects the last fresh one forward, or reports that no position is
//! available. Times are nanoseconds since the service started. The tick
//! time never goes backwards: a clock reading behind the last tick is
//! taken as the last tick's time.
use vstd::prelude::*;

verus! {

/// What a tick publishes. `time` is the instant the published value is
/// valid for.
#[derive(Clone, Copy, Debug, PartialEq, Eq, Structural)]
pub enum TickDecision {
    /// Publish the fresh triangulation, not extrapolated.
    Fresh { time: u64 },
    /// Publish the last fresh position projected forward by `by`
    /// nanoseconds, from the fix taken at `from`.
    Extrapolate { time: u64, from: u64, by: u64 },
    /// Publish "no position available".
    Unavailable { time: u64 },
}

/// State of the tick loop: the extrapolation horizon (`None` when
/// extrapolation is off), the time of the last fresh fix, and the time of
/// the last tick.
#[derive(Clone, Copy, Debug, PartialEq, Eq, Structural)]
pub struct TickScheduler {
    pub horizon: Option<u64>,
    pub last_fresh: Option<u64>,
    pub last_time: u64,
}

/// The time a tick read at `now` is given.
pub open spec fn tick_time(s: TickScheduler, now: u64) -> u64 {
    if now < s.last_time {
        s.last_time
    } else {
        now
    }
}

/// One tick: a fresh fix is always published as it is. Without one, the last
/// fresh fix is projected forward when extrapolation is on, a fix exists,
/// and the time since it is positive and within the horizon; otherwise no
/// position is available.
pub open spec fn spec_tick(s: TickScheduler, now: u64, fresh: bool) -> (TickScheduler, TickDecision) {
    let t = tick_time(s, now);
    if fresh {
        (TickScheduler { last_fresh: Some(t), last_time: t, ..s }, TickDecision::Fresh { time: t })
    } else {
        let d = match (s.horizon, s.last_fresh) {
            (Some(h), Some(f)) => if f < t && t - f <= h {
                TickDecision::Extrapolate { time: t, from: f, by: (t - f) as u64 }
            } else {
                TickDecision::Unavailable { time: t }
            },
            _ => TickDecision::Unavailable { time: t },
        };
        (TickScheduler { last_time: t, ..s }, d)
    }
}

/// The time a decision is valid for.
pub open spec fn decision_time(d: TickDecision) -> u64 {
    match d {
        TickDecision::Fresh { time } => time,
        TickDecision::Extrapolate { time, .. } => time,
        TickDecision::Unavailable { time } => time,
    }
}

impl TickScheduler {
    /// The scheduler's invariant: the last fresh fix is no later than the
    /// last tick.
    pub open spec fn wf(&self) -> bool {
        match self.last_fresh {
            Some(f) => f <= self.last_time,
            None => true,
        }
    }

    /// A scheduler that has seen no tick; `horizon` is `None` to run
    /// without extrapolation.
    pub fn new(horizon: Option<u64>) -> (r: TickScheduler)
        ensures
            r.wf(),
            r == (TickScheduler { horizon, last_fresh: None, last_time: 0 }),
    {
        TickScheduler { horizon, last_fresh: None, last_time: 0 }
    }

    /// Decides what the tick read at `now` publishes; `fresh` tells whether
    /// triangulation gave an estimate on this tick.
    pub fn tick(&mut self, now: u64, fresh: bool) -> (r: TickDecision)
        requires
            old(self).wf(),
        ensures
            final(self).wf(),
            (*final(self), r) == spec_tick(*old(self), now, fresh),
            decision_time(r) >= old(self).last_time,
            decision_time(r) == final(self).last_time,
            r matches TickDecision::Extrapolate { by, .. } ==> ({
                &&& 0 < by
                &&& old(self).horizon is Some
                &&& by <= old(self).horizon->0
            }),
    {
        let t: u64 = if now < self.last_time {
            self.last_time
        } else {
            now
        };
        if fresh {
            self.last_fresh = Some(t);
            self.last_time = t;
            return TickDecision::Fresh { time: t };
        }
        let d = match (self.horizon, self.last_fresh) {
            (Some(h), Some(f)) => if f < t && t - f <= h {
                TickDecision::Extrapolate { time: t, from: f, by: t - f }
            } else {
                TickDecision::Unavailable { time: t }
            },
            _ => TickDecision::Unavailable { time: t },
        };
        self.last_time = t;
        d
    }
}

/// The scheduler after a fresh tick at `fix` and then stale ticks at `later`,
/// with the last decision taken.
pub open spec fn run_after_fix(s: TickScheduler, fix: u64, later: Seq<u64>) -> (TickScheduler, TickDecision)
    decreases later.len(),
{
    if later.len() == 0 {
        spec_tick(s, fix, true)
    } else {
        let (s1, _) = run_after_fix(s, fix, later.drop_last());
        spec_tick(s1, later.last(), false)
    }
}

proof fn lemma_run_after_fix(s: TickScheduler, fix: u64, later: Seq<u64>)
    requires
        s.wf(),
    ensures
        run_after_fix(s, fix, later).0.wf(),
        run_after_fix(s, fix, later).0.horizon == s.horizon,
        run_after_fix(s, fix, later).0.last_fresh == Some(tick_time(s, fix)),
    decreases later.len(),
{
    if later.len() > 0 {
        lemma_run_after_fix(s, fix, later.drop_last());
    }
}

/// After the last fresh fix, every later tick without a fresh estimate
/// publishes "no position available" once more time than the horizon has
/// passed since that fix, and with extrapolation off it does so at once;
/// within the horizon, it publishes the fix projected by the time elapsed.
pub proof fn lemma_horizon_enforced(s: TickScheduler, fix: u64, later: Seq<u64>)
    requires
        s.wf(),
        later.len() > 0,
    ensures
        ({
            let f = tick_time(s, fix);
            let (s_end, d) = run_after_fix(s, fix, later);
            let t = s_end.last_time;
            &&& decision_time(d) == t
            &&& (s.horizon is None ==> d == TickDecision::Unavailable { time: t })
            &&& (s.horizon is Some && t - f > s.horizon->0 ==> d == TickDecision::Unavailable { time: t })
            &&& (s.horizon is Some && f < t && t - f <= s.horizon->0 ==> d == TickDecision::Extrapolate {
                time: t,
                from: f,
                by: (t - f) as u64,
            })
        }),
{
    lemma_run_after_fix(s, fix, later.drop_last());
}

} // verus!
