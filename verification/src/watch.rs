//! Filesystem watch events and the debounce stage.
//!
//! The watcher hands the debounce stage a stream of timestamped events. On
//! the first actionable (non-access) event the stage arms a fixed quiet
//! period; every event that arrives before the quiet period elapses is
//! drained without further effect, and exactly one rebuild is triggered at
//! the end of the period. `rebuild_times` is the mathematical model of that
//! policy; `debounce_schedule` is its executable form.

use vstd::prelude::*;

verus! {

/// The kind tag of a filesystem change notification.
#[derive(Clone, Copy, PartialEq, Eq, Structural, Debug)]
pub enum EventKind {
    Modify,
    Create,
    Remove,
    Access,
    Other,
}

/// One filesystem change, stamped with its arrival time in milliseconds.
#[derive(Clone, Copy, PartialEq, Eq, Structural, Debug)]
pub struct WatchEvent {
    pub at_ms: u64,
    pub kind: EventKind,
}

/// Access-kind events are never actionable; every other kind is.
pub open spec fn actionable(k: EventKind) -> bool {
    !(k is Access)
}

/// Executable form of `actionable`.
pub fn is_actionable(k: EventKind) -> (r: bool)
    ensures
        r == actionable(k),
{
    k != EventKind::Access
}

/// Events are considered in arrival order.
pub open spec fn sorted_by_arrival(evs: Seq<WatchEvent>) -> bool {
    forall|i: int, j: int| 0 <= i < j < evs.len() ==> evs[i].at_ms <= evs[j].at_ms
}

/// Drop the leading events that arrived before time `t`: what draining the
/// queue at time `t` leaves behind.
pub open spec fn drop_until(evs: Seq<WatchEvent>, t: int) -> Seq<WatchEvent>
    decreases evs.len(),
{
    if evs.len() == 0 {
        evs
    } else if evs[0].at_ms < t {
        drop_until(evs.drop_first(), t)
    } else {
        evs
    }
}

/// The times at which the debounce stage triggers a rebuild: the first
/// actionable event arms a quiet period; everything that arrives before the
/// period elapses is absorbed into that one trigger.
pub open spec fn rebuild_times(evs: Seq<WatchEvent>, quiet: u64) -> Seq<int>
    decreases evs.len(),
    via rebuild_times_decreases
{
    if evs.len() == 0 {
        Seq::empty()
    } else if !actionable(evs[0].kind) {
        rebuild_times(evs.drop_first(), quiet)
    } else {
        seq![evs[0].at_ms + quiet] + rebuild_times(
            drop_until(evs.drop_first(), evs[0].at_ms + quiet),
            quiet,
        )
    }
}

#[via_fn]
proof fn rebuild_times_decreases(evs: Seq<WatchEvent>, quiet: u64) {
    if evs.len() > 0 && actionable(evs[0].kind) {
        lemma_drop_until_len(evs.drop_first(), evs[0].at_ms + quiet);
    }
}

/// Draining never adds events.
pub proof fn lemma_drop_until_len(evs: Seq<WatchEvent>, t: int)
    ensures
        drop_until(evs, t).len() <= evs.len(),
    decreases evs.len(),
{
    if evs.len() > 0 && evs[0].at_ms < t {
        lemma_drop_until_len(evs.drop_first(), t);
    }
}

/// Draining relates suffixes: if every event in `[a, b)` arrived before `t`
/// and the event at `b` (if any) did not, draining the suffix at `a` leaves
/// exactly the suffix at `b`.
proof fn lemma_drop_until_skip(evs: Seq<WatchEvent>, t: int, a: int, b: int)
    requires
        0 <= a <= b <= evs.len(),
        forall|k: int| a <= k < b ==> evs[k].at_ms < t,
        b == evs.len() || evs[b].at_ms >= t,
    ensures
        drop_until(evs.skip(a), t) == evs.skip(b),
    decreases b - a,
{
    if a == b {
        if a == evs.len() {
            assert(evs.skip(a) =~= Seq::empty());
        } else {
            assert(evs.skip(a)[0] == evs[a]);
        }
    } else {
        assert(evs.skip(a)[0] == evs[a]);
        assert(evs.skip(a).drop_first() =~= evs.skip(a + 1));
        lemma_drop_until_skip(evs, t, a + 1, b);
    }
}

/// Compute the whole rebuild schedule for a recorded stream of events.
pub fn debounce_schedule(events: &Vec<WatchEvent>, quiet_ms: u64) -> (r: Vec<u64>)
    requires
        quiet_ms >= 1,
        sorted_by_arrival(events@),
        forall|k: int| 0 <= k < events@.len() ==> events@[k].at_ms + quiet_ms <= u64::MAX,
    ensures
        r@.map_values(|t: u64| t as int) == rebuild_times(events@, quiet_ms),
{
    let mut out: Vec<u64> = Vec::new();
    let mut i: usize = 0;
    proof {
        assert(events@.skip(0) =~= events@);
    }
    while i < events.len()
        invariant
            i <= events.len(),
            quiet_ms >= 1,
            sorted_by_arrival(events@),
            forall|k: int| 0 <= k < events@.len() ==> events@[k].at_ms + quiet_ms <= u64::MAX,
            out@.map_values(|t: u64| t as int) + rebuild_times(events@.skip(i as int), quiet_ms)
                =~= rebuild_times(events@, quiet_ms),
        decreases events.len() - i,
    {
        if !is_actionable(events[i].kind) {
            proof {
                assert(events@.skip(i as int).drop_first() =~= events@.skip(i as int + 1));
            }
            i = i + 1;
        } else {
            let deadline = events[i].at_ms + quiet_ms;
            let ghost pre = out@;
            out.push(deadline);
            let mut j: usize = i + 1;
            while j < events.len() && events[j].at_ms < deadline
                invariant
                    i < j <= events.len(),
                    deadline == events@[i as int].at_ms + quiet_ms,
                    forall|k: int| i + 1 <= k < j ==> events@[k].at_ms < deadline,
                decreases events.len() - j,
            {
                j = j + 1;
            }
            proof {
                lemma_drop_until_skip(events@, deadline as int, i as int + 1, j as int);
                assert(events@.skip(i as int).drop_first() =~= events@.skip(i as int + 1));
                assert(events@.skip(i as int)[0] == events@[i as int]);
                assert(out@.map_values(|t: u64| t as int) =~= pre.map_values(|t: u64| t as int)
                    + seq![deadline as int]);
            }
            i = j;
        }
    }
    proof {
        assert(events@.skip(events@.len() as int) =~= Seq::<WatchEvent>::empty());
    }
    out
}

/// The tail of a stream in arrival order is itself in arrival order.
proof fn lemma_sorted_tail(evs: Seq<WatchEvent>)
    requires
        sorted_by_arrival(evs),
        evs.len() > 0,
    ensures
        sorted_by_arrival(evs.drop_first()),
{
    let tail = evs.drop_first();
    assert forall|p: int, q: int| 0 <= p < q < tail.len() implies tail[p].at_ms
        <= tail[q].at_ms by {
        assert(tail[p] == evs[p + 1]);
        assert(tail[q] == evs[q + 1]);
    }
}

/// The actionable subsequence of an event stream.
pub open spec fn actionable_only(evs: Seq<WatchEvent>) -> Seq<WatchEvent>
    decreases evs.len(),
{
    if evs.len() == 0 {
        evs
    } else if actionable(evs[0].kind) {
        seq![evs[0]] + actionable_only(evs.drop_first())
    } else {
        actionable_only(evs.drop_first())
    }
}

/// The actionable subsequence keeps only actionable events, keeps them in
/// order, and invents none.
pub proof fn lemma_actionable_only_props(evs: Seq<WatchEvent>)
    ensures
        actionable_only(evs).len() <= evs.len(),
        forall|k: int|
            0 <= k < actionable_only(evs).len() ==> actionable(#[trigger] actionable_only(evs)[k].kind),
        forall|k: int|
            0 <= k < actionable_only(evs).len() ==> exists|m: int|
                0 <= m < evs.len() && #[trigger] actionable_only(evs)[k] == evs[m],
        sorted_by_arrival(evs) ==> sorted_by_arrival(actionable_only(evs)),
    decreases evs.len(),
{
    if evs.len() == 0 {
    } else {
        let tail = evs.drop_first();
        lemma_actionable_only_props(tail);
        assert forall|k: int|
            0 <= k < actionable_only(tail).len() implies exists|m: int|
                0 <= m < evs.len() && #[trigger] actionable_only(tail)[k] == evs[m] by {
            let m0 = choose|m0: int| 0 <= m0 < tail.len() && actionable_only(tail)[k] == tail[m0];
            assert(tail[m0] == evs[m0 + 1]);
        }
        if actionable(evs[0].kind) {
            let ao = actionable_only(evs);
            assert(ao =~= seq![evs[0]] + actionable_only(tail));
            assert(ao[0] == evs[0]);
            assert forall|k: int| 1 <= k < ao.len() implies exists|m: int|
                0 <= m < evs.len() && #[trigger] ao[k] == evs[m] by {
                assert(ao[k] == actionable_only(tail)[k - 1]);
            }
            if sorted_by_arrival(evs) {
                assert forall|i: int, j: int| 0 <= i < j < ao.len() implies ao[i].at_ms
                    <= ao[j].at_ms by {
                    if i == 0 {
                        let m = choose|m: int|
                            0 <= m < tail.len() && actionable_only(tail)[j - 1] == tail[m];
                        assert(tail[m] == evs[m + 1]);
                        assert(evs[0].at_ms <= evs[m + 1].at_ms);
                    } else {
                        assert(ao[i] == actionable_only(tail)[i - 1]);
                        assert(ao[j] == actionable_only(tail)[j - 1]);
                        lemma_sorted_tail(evs);
                    }
                }
            }
        } else {
            if sorted_by_arrival(evs) {
                lemma_sorted_tail(evs);
            }
        }
    }
}

/// Draining keeps the arrival order.
proof fn lemma_drop_until_sorted(evs: Seq<WatchEvent>, t: int)
    requires
        sorted_by_arrival(evs),
    ensures
        sorted_by_arrival(drop_until(evs, t)),
    decreases evs.len(),
{
    if evs.len() > 0 && evs[0].at_ms < t {
        let tail = evs.drop_first();
        lemma_sorted_tail(evs);
        lemma_drop_until_sorted(tail, t);
    }
}

/// Draining commutes with taking the actionable subsequence.
proof fn lemma_drop_until_commutes(evs: Seq<WatchEvent>, t: int)
    requires
        sorted_by_arrival(evs),
    ensures
        actionable_only(drop_until(evs, t)) == drop_until(actionable_only(evs), t),
    decreases evs.len(),
{
    if evs.len() == 0 {
    } else {
        let tail = evs.drop_first();
        lemma_sorted_tail(evs);
        if evs[0].at_ms < t {
            lemma_drop_until_commutes(tail, t);
            if actionable(evs[0].kind) {
                let ao = actionable_only(evs);
                assert(ao == seq![evs[0]] + actionable_only(tail));
                assert(ao.len() > 0 && ao[0] == evs[0]);
                assert(ao.drop_first() =~= actionable_only(tail));
            }
        } else {
            // Nothing is drained from `evs`; show nothing is drained from
            // its actionable subsequence either.
            assert(drop_until(evs, t) == evs);
            lemma_actionable_only_props(evs);
            let ao = actionable_only(evs);
            if ao.len() > 0 {
                let m = choose|m: int| 0 <= m < evs.len() && ao[0] == evs[m];
                assert(evs[0].at_ms <= evs[m].at_ms);
                assert(ao[0].at_ms >= t);
                assert(drop_until(ao, t) == ao);
            }
        }
    }
}

/// Access-kind events are invisible to the debounce stage: the rebuild
/// schedule of a stream equals that of its actionable subsequence, so
/// access events mixed into a burst never contribute a trigger.
pub proof fn lemma_access_events_invisible(evs: Seq<WatchEvent>, quiet: u64)
    requires
        sorted_by_arrival(evs),
    ensures
        rebuild_times(evs, quiet) == rebuild_times(actionable_only(evs), quiet),
    decreases evs.len(),
{
    if evs.len() == 0 {
    } else {
        let tail = evs.drop_first();
        lemma_sorted_tail(evs);
        if !actionable(evs[0].kind) {
            lemma_access_events_invisible(tail, quiet);
        } else {
            let d = evs[0].at_ms + quiet;
            let drained = drop_until(tail, d);
            lemma_drop_until_len(tail, d);
            lemma_drop_until_sorted(tail, d);
            lemma_access_events_invisible(drained, quiet);
            lemma_drop_until_commutes(tail, d);
            let ao = actionable_only(evs);
            assert(ao == seq![evs[0]] + actionable_only(tail));
            assert(ao.len() > 0 && ao[0] == evs[0]);
            assert(ao.drop_first() =~= actionable_only(tail));
            assert(rebuild_times(ao, quiet) == seq![evs[0].at_ms + quiet] + rebuild_times(
                drop_until(actionable_only(tail), d),
                quiet,
            ));
        }
    }
}

/// If every event arrives before `t`, draining at `t` empties the queue.
proof fn lemma_drop_until_all_early(evs: Seq<WatchEvent>, t: int)
    requires
        forall|k: int| 0 <= k < evs.len() ==> (#[trigger] evs[k].at_ms) < t,
    ensures
        drop_until(evs, t) =~= Seq::<WatchEvent>::empty(),
    decreases evs.len(),
{
    if evs.len() > 0 {
        lemma_drop_until_all_early(evs.drop_first(), t);
    }
}

/// A burst of one or more actionable events, all delivered within less than
/// the quiet period of the first of them, triggers exactly one rebuild, at
/// the end of the quiet period. Access-kind events anywhere in the stream
/// change nothing.
pub proof fn lemma_burst_triggers_one_rebuild(evs: Seq<WatchEvent>, quiet: u64)
    requires
        quiet >= 1,
        sorted_by_arrival(evs),
        actionable_only(evs).len() >= 1,
        forall|k: int|
            0 <= k < actionable_only(evs).len() ==> (#[trigger] actionable_only(evs)[k].at_ms)
                < actionable_only(evs)[0].at_ms + quiet,
    ensures
        rebuild_times(evs, quiet).len() == 1,
        rebuild_times(evs, quiet)[0] == actionable_only(evs)[0].at_ms + quiet,
{
    lemma_access_events_invisible(evs, quiet);
    lemma_actionable_only_props(evs);
    let ao = actionable_only(evs);
    let d = ao[0].at_ms + quiet;
    assert(actionable(ao[0].kind));
    assert forall|k: int| 0 <= k < ao.drop_first().len() implies (#[trigger] ao.drop_first()[k].at_ms)
        < d by {
        assert(ao.drop_first()[k] == ao[k + 1]);
    }
    lemma_drop_until_all_early(ao.drop_first(), d);
    assert(rebuild_times(ao, quiet) == seq![ao[0].at_ms + quiet] + rebuild_times(
        drop_until(ao.drop_first(), d),
        quiet,
    ));
    assert(rebuild_times(drop_until(ao.drop_first(), d), quiet) =~= Seq::<int>::empty());
}

/// In arrival order, everything left after draining at `t` arrived at or
/// after `t`.
proof fn lemma_drop_until_lower_bound(evs: Seq<WatchEvent>, t: int)
    requires
        sorted_by_arrival(evs),
    ensures
        forall|k: int| 0 <= k < drop_until(evs, t).len() ==> (#[trigger] drop_until(evs, t)[k].at_ms)
            >= t,
    decreases evs.len(),
{
    if evs.len() > 0 {
        if evs[0].at_ms < t {
            let tail = evs.drop_first();
            lemma_sorted_tail(evs);
            lemma_drop_until_lower_bound(tail, t);
        } else {
            assert forall|k: int| 0 <= k < evs.len() implies (#[trigger] evs[k].at_ms) >= t by {
                if k > 0 {
                    assert(evs[0].at_ms <= evs[k].at_ms);
                }
            }
        }
    }
}

/// A lower bound on arrivals is a lower bound on what draining leaves.
proof fn lemma_drop_until_keeps_lower_bound(evs: Seq<WatchEvent>, d: int, t: int)
    requires
        forall|k: int| 0 <= k < evs.len() ==> (#[trigger] evs[k].at_ms) >= t,
    ensures
        forall|k: int| 0 <= k < drop_until(evs, d).len() ==> (#[trigger] drop_until(evs, d)[k].at_ms)
            >= t,
    decreases evs.len(),
{
    if evs.len() > 0 && evs[0].at_ms < d {
        let tail = evs.drop_first();
        assert forall|k: int| 0 <= k < tail.len() implies (#[trigger] tail[k].at_ms) >= t by {
            assert(tail[k] == evs[k + 1]);
        }
        lemma_drop_until_keeps_lower_bound(tail, d, t);
    }
}

/// If every event arrives at or after `t`, every rebuild fires at or after
/// `t` plus the quiet period.
proof fn lemma_rebuild_times_lower_bound(evs: Seq<WatchEvent>, quiet: u64, t: int)
    requires
        forall|k: int| 0 <= k < evs.len() ==> (#[trigger] evs[k].at_ms) >= t,
    ensures
        forall|k: int| 0 <= k < rebuild_times(evs, quiet).len() ==> (#[trigger] rebuild_times(
            evs,
            quiet,
        )[k]) >= t + quiet,
    decreases evs.len(),
{
    if evs.len() > 0 {
        let tail = evs.drop_first();
        assert forall|k: int| 0 <= k < tail.len() implies (#[trigger] tail[k].at_ms) >= t by {
            assert(tail[k] == evs[k + 1]);
        }
        if !actionable(evs[0].kind) {
            lemma_rebuild_times_lower_bound(tail, quiet, t);
            assert forall|k: int| 0 <= k < rebuild_times(evs, quiet).len() implies (
            #[trigger] rebuild_times(evs, quiet)[k]) >= t + quiet by {
                assert(rebuild_times(evs, quiet)[k] == rebuild_times(tail, quiet)[k]);
            }
        } else {
            let d = evs[0].at_ms + quiet;
            let rest = drop_until(tail, d);
            lemma_drop_until_len(tail, d);
            lemma_drop_until_keeps_lower_bound(tail, d, t);
            lemma_rebuild_times_lower_bound(rest, quiet, t);
            assert forall|k: int| 0 <= k < rebuild_times(evs, quiet).len() implies (
            #[trigger] rebuild_times(evs, quiet)[k]) >= t + quiet by {
                if k > 0 {
                    assert(rebuild_times(evs, quiet)[k] == rebuild_times(rest, quiet)[k - 1]);
                } else {
                    assert(evs[0].at_ms >= t);
                    assert(rebuild_times(evs, quiet)[0] == d);
                }
            }
        }
    }
}

/// Rebuilds are serial: consecutive triggers are at least a full quiet
/// period apart, so a new debounce cycle only begins after the previous
/// trigger — there is never more than one rebuild in flight.
pub proof fn lemma_rebuild_triggers_are_serial(evs: Seq<WatchEvent>, quiet: u64)
    requires
        quiet >= 1,
        sorted_by_arrival(evs),
    ensures
        forall|i: int, j: int|
            0 <= i < j < rebuild_times(evs, quiet).len() ==> (#[trigger] rebuild_times(
                evs,
                quiet,
            )[i]) + quiet <= (#[trigger] rebuild_times(evs, quiet)[j]),
    decreases evs.len(),
{
    if evs.len() > 0 {
        let tail = evs.drop_first();
        lemma_sorted_tail(evs);
        if !actionable(evs[0].kind) {
            lemma_rebuild_triggers_are_serial(tail, quiet);
            assert forall|i: int, j: int|
                0 <= i < j < rebuild_times(evs, quiet).len() implies (#[trigger] rebuild_times(
                evs,
                quiet,
            )[i]) + quiet <= (#[trigger] rebuild_times(evs, quiet)[j]) by {
                assert(rebuild_times(evs, quiet)[i] == rebuild_times(tail, quiet)[i]);
                assert(rebuild_times(evs, quiet)[j] == rebuild_times(tail, quiet)[j]);
            }
        } else {
            let d = evs[0].at_ms + quiet;
            let rest = drop_until(tail, d);
            lemma_drop_until_len(tail, d);
            lemma_drop_until_sorted(tail, d);
            lemma_drop_until_lower_bound(tail, d);
            lemma_rebuild_times_lower_bound(rest, quiet, d);
            lemma_rebuild_triggers_are_serial(rest, quiet);
            let rt = rebuild_times(evs, quiet);
            assert forall|i: int, j: int| 0 <= i < j < rt.len() implies (#[trigger] rt[i]) + quiet
                <= (#[trigger] rt[j]) by {
                assert(rt[j] == rebuild_times(rest, quiet)[j - 1]);
                if i == 0 {
                    assert(rt[0] == d);
                    assert(rebuild_times(rest, quiet)[j - 1] >= d + quiet);
                } else {
                    assert(rt[i] == rebuild_times(rest, quiet)[i - 1]);
                }
            }
        }
    }
}

/// A stream with no actionable event triggers no rebuild at all.
pub proof fn lemma_access_only_never_rebuilds(evs: Seq<WatchEvent>, quiet: u64)
    requires
        forall|k: int| 0 <= k < evs.len() ==> !actionable(#[trigger] evs[k].kind),
    ensures
        rebuild_times(evs, quiet) =~= Seq::<int>::empty(),
    decreases evs.len(),
{
    if evs.len() > 0 {
        lemma_access_only_never_rebuilds(evs.drop_first(), quiet);
    }
}

} // verus!
