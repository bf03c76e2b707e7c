use vstd::prelude::*;
use crate::addr::{Ipv4, spec_sentinel};
use crate::cycle::{Decision, spec_decide, spec_cycle, spec_run, spec_invoked, spec_record};

verus! {

/// While every tick of a run resolves to the current last-known address or
/// fails to resolve, the state never moves off that address.
proof fn lemma_stalled_prefixes(start: Ipv4, ticks: Seq<(Option<Ipv4>, bool)>, m: int)
    requires
        0 <= m <= ticks.len(),
        forall|i: int|
            0 <= i < m ==> ((#[trigger] ticks[i]).0 is Some ==> spec_cycle(
                start,
                ticks[i].0,
                ticks[i].1,
            ).0 == start),
    ensures
        forall|i: int| 0 <= i <= m ==> spec_run(start, #[trigger] ticks.take(i)) == start,
    decreases m,
{
    if m > 0 {
        lemma_stalled_prefixes(start, ticks, m - 1);
        assert(ticks.take(m).drop_last() =~= ticks.take(m - 1));
        assert(ticks.take(m).last() == ticks[m - 1]);
        assert(spec_run(start, ticks.take(m)) == start);
    } else {
        assert(ticks.take(0) =~= Seq::<(Option<Ipv4>, bool)>::empty());
    }
}

/// Idempotence of an unchanged address: over any run whose resolved
/// addresses all equal the starting last-known address, the updater is
/// never invoked and the state never changes.
pub proof fn lemma_unchanged_never_updates(start: Ipv4, ticks: Seq<(Option<Ipv4>, bool)>)
    requires
        forall|i: int|
            0 <= i < ticks.len() ==> ((#[trigger] ticks[i]).0 is Some ==> ticks[i].0->Some_0
                == start),
    ensures
        spec_run(start, ticks) == start,
        forall|i: int| 0 <= i < ticks.len() ==> !spec_invoked(start, ticks, i),
{
    lemma_stalled_prefixes(start, ticks, ticks.len() as int);
    assert(ticks.take(ticks.len() as int) =~= ticks);
    assert forall|i: int| 0 <= i < ticks.len() implies !spec_invoked(start, ticks, i) by {
        assert(spec_run(start, ticks.take(i)) == start);
    }
}

/// Monotone convergence: if every tick up to the first confirmed update
/// resolves to the same changed address, and the updater fails on every
/// earlier tick, the state stays where it was through every failed
/// attempt, the updater is invoked on every one of those ticks with no
/// skipping, and the state becomes the new address exactly after the first
/// success.
pub proof fn lemma_monotone_convergence(
    start: Ipv4,
    x: Ipv4,
    ticks: Seq<(Option<Ipv4>, bool)>,
    n: int,
)
    requires
        x != start,
        0 <= n < ticks.len(),
        forall|i: int| 0 <= i <= n ==> (#[trigger] ticks[i]).0 == Some(x),
        forall|i: int| 0 <= i < n ==> !(#[trigger] ticks[i]).1,
        ticks[n].1,
    ensures
        forall|i: int| 0 <= i <= n ==> spec_run(start, #[trigger] ticks.take(i)) == start,
        spec_run(start, ticks.take(n + 1)) == x,
        forall|i: int| 0 <= i <= n ==> spec_invoked(start, ticks, i),
{
    lemma_stalled_prefixes(start, ticks, n);
    assert(ticks.take(n + 1).drop_last() =~= ticks.take(n));
    assert(ticks.take(n + 1).last() == ticks[n]);
    assert(spec_run(start, ticks.take(n + 1)) == spec_record(start, x, true));
    assert forall|i: int| 0 <= i <= n implies spec_invoked(start, ticks, i) by {
        assert(spec_run(start, ticks.take(i)) == start);
        assert(spec_decide(start, ticks[i].0) == Decision::AttemptUpdate(x));
    }
}

/// First-cycle forced update: from the starting state, any successfully
/// resolved address other than the loopback placeholder is decided as a
/// change, so the first successful resolution triggers exactly one update
/// attempt.
pub proof fn lemma_first_cycle_forced_update(x: Ipv4, update_ok: bool)
    requires
        x != spec_sentinel(),
    ensures
        spec_decide(spec_sentinel(), Some(x)) == Decision::AttemptUpdate(x),
        spec_cycle(spec_sentinel(), Some(x), update_ok).1,
{
}

/// Failure isolation: a cycle whose resolution failed, or whose update
/// attempt went unconfirmed, leaves the state exactly as it was, and the
/// following cycle runs as if from that state alone, with a fresh
/// resolution attempt deciding it.
pub proof fn lemma_failure_isolation(
    last: Ipv4,
    failed: (Option<Ipv4>, bool),
    next: (Option<Ipv4>, bool),
)
    requires
        failed.0 is None || !failed.1,
    ensures
        spec_cycle(last, failed.0, failed.1).0 == last,
        spec_run(last, seq![failed, next]) == spec_cycle(last, next.0, next.1).0,
        spec_invoked(last, seq![failed, next], 1) == spec_cycle(last, next.0, next.1).1,
{
    let s = seq![failed, next];
    assert(s.drop_last() =~= seq![failed]);
    assert(seq![failed].drop_last() =~= Seq::<(Option<Ipv4>, bool)>::empty());
    assert(s.take(1) =~= seq![failed]);
    assert(seq![failed].last() == failed);
    assert(spec_run(last, Seq::<(Option<Ipv4>, bool)>::empty()) == last);
    assert(seq![failed].drop_last() == Seq::<(Option<Ipv4>, bool)>::empty());
    assert(spec_run(last, seq![failed]) == spec_cycle(last, failed.0, failed.1).0);
    assert(s.last() == next);
    assert(spec_run(last, s) == spec_cycle(spec_run(last, seq![failed]), next.0, next.1).0);
}

} // verus!
