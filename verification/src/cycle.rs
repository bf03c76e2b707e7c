use vstd::prelude::*;
use crate::addr::{Ipv4, spec_sentinel};
use crate::protocol::{FetchError, UpdateError};

verus! {

/// What the loop decides to do on one tick, once the resolver's outcome is
/// in hand.
#[derive(Clone, Copy, PartialEq, Eq, Structural, Debug)]
pub enum Decision {
    /// The resolver failed: log it and wait for the next tick.
    SkipFetchFailed,
    /// The resolved address equals the last known one: nothing to send.
    SkipUnchanged,
    /// The resolved address differs: send an update with it.
    AttemptUpdate(Ipv4),
}

/// The loop's whole mutable state: the last address a confirmed update
/// established, starting from the loopback placeholder so that the first
/// resolved address is always seen as changed.
pub struct LoopState {
    pub last_known: Ipv4,
}

/// The decision a cycle takes from the last known address and the
/// resolver's outcome, `None` standing for a failed resolution.
pub open spec fn spec_decide(last: Ipv4, resolved: Option<Ipv4>) -> Decision {
    match resolved {
        None => Decision::SkipFetchFailed,
        Some(x) => if x == last {
            Decision::SkipUnchanged
        } else {
            Decision::AttemptUpdate(x)
        },
    }
}

/// The last known address after an update attempt: advanced only by a
/// confirmed success.
pub open spec fn spec_record(last: Ipv4, x: Ipv4, ok: bool) -> Ipv4 {
    if ok {
        x
    } else {
        last
    }
}

/// One whole cycle, as a function of the last known address, the
/// resolver's outcome, and whether an attempted update would be confirmed:
/// the next last-known address, and whether the updater was invoked.
pub open spec fn spec_cycle(last: Ipv4, resolved: Option<Ipv4>, update_ok: bool) -> (Ipv4, bool) {
    match spec_decide(last, resolved) {
        Decision::SkipFetchFailed => (last, false),
        Decision::SkipUnchanged => (last, false),
        Decision::AttemptUpdate(x) => (spec_record(last, x, update_ok), true),
    }
}

/// The last known address after a run of cycles. Each tick of the run is a
/// pair: the resolver's outcome, and whether an attempted update would be
/// confirmed on that tick.
pub open spec fn spec_run(start: Ipv4, ticks: Seq<(Option<Ipv4>, bool)>) -> Ipv4
    decreases ticks.len(),
{
    if ticks.len() == 0 {
        start
    } else {
        spec_cycle(spec_run(start, ticks.drop_last()), ticks.last().0, ticks.last().1).0
    }
}

/// Whether the updater is invoked on tick `i` of a run.
pub open spec fn spec_invoked(start: Ipv4, ticks: Seq<(Option<Ipv4>, bool)>, i: int) -> bool {
    spec_cycle(spec_run(start, ticks.take(i)), ticks[i].0, ticks[i].1).1
}

impl LoopState {
    /// The state the loop starts from: the loopback placeholder.
    pub fn start() -> (r: LoopState)
        ensures
            r.last_known == spec_sentinel(),
    {
        LoopState { last_known: Ipv4::sentinel() }
    }

    /// Takes the cycle's decision from the resolver's outcome: a failure
    /// skips the cycle, an unchanged address skips the update call, a
    /// changed address is sent to the updater.
    pub fn decide(&self, fetched: &Result<Ipv4, FetchError>) -> (d: Decision)
        ensures
            d == spec_decide(
                self.last_known,
                match fetched {
                    Ok(x) => Some(*x),
                    Err(_) => None::<Ipv4>,
                },
            ),
    {
        match fetched {
            Ok(x) => {
                if *x == self.last_known {
                    Decision::SkipUnchanged
                } else {
                    Decision::AttemptUpdate(*x)
                }
            },
            Err(_) => Decision::SkipFetchFailed,
        }
    }

    /// Records an update attempt's outcome: a confirmed success advances
    /// the last known address to the sent one; a failure leaves it as it
    /// was, so the same change is retried on the next tick.
    pub fn record(&mut self, x: Ipv4, outcome: &Result<(), UpdateError>)
        ensures
            final(self).last_known == spec_record(old(self).last_known, x, outcome is Ok),
    {
        if outcome.is_ok() {
            self.last_known = x;
        }
    }
}

/// The exec decision and recording, taken together, act out one cycle of
/// `spec_cycle`: the decision says whether the updater is invoked, and
/// recording the attempt's outcome yields the cycle's next state.
pub proof fn lemma_exec_cycle_agrees(last: Ipv4, resolved: Option<Ipv4>, update_ok: bool)
    ensures
        spec_decide(last, resolved) is AttemptUpdate <==> spec_cycle(last, resolved, update_ok).1,
        spec_decide(last, resolved) matches Decision::AttemptUpdate(x) ==> spec_cycle(
            last,
            resolved,
            update_ok,
        ).0 == spec_record(last, x, update_ok),
        !(spec_decide(last, resolved) is AttemptUpdate) ==> spec_cycle(
            last,
            resolved,
            update_ok,
        ).0 == last,
{
}

} // verus!
