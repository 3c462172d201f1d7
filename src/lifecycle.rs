//! Laws of the incident lifecycle, stated over the model of the engine that
//! `IncidentTracker::refresh` and `IncidentTracker::evaluate` are proved to
//! follow.
use vstd::prelude::*;

use crate::config::MonitorType;
use crate::instatus::{
    covers, is_active, parse_status, update_request, ComponentView, IncidentStatus,
    IncidentView, LatencyPost,
};
use crate::velocity::{
    active_incidents, already_open, evaluation, incident_ids, refreshed, up_fold, up_step,
    ActionView, MonitorError, Outcome, Probe, TrackerView,
};

verus! {

/// One cycle in which the check of a monitor fails: the incident list
/// fetched at its start, how long the check took, and the local time of
/// the evaluation.
pub ghost struct DownCycle {
    pub incidents: Seq<IncidentView>,
    pub elapsed_ms: u128,
    pub started: Seq<char>,
}

/// The state after, and the requests of, a run of cycles in which the check
/// of the uptime monitor `name` fails every time.
pub open spec fn down_cycles(
    t: TrackerView,
    name: Seq<char>,
    comps: Seq<ComponentView>,
    metrics: Map<Seq<char>, Seq<char>>,
    cycles: Seq<DownCycle>,
    now_millis: u64,
) -> (TrackerView, Seq<ActionView>)
    decreases cycles.len(),
{
    if cycles.len() == 0 {
        (t, Seq::empty())
    } else {
        let (t1, acts1) = down_cycles(t, name, comps, metrics, cycles.drop_last(), now_millis);
        let c = cycles.last();
        let (t2, r) = evaluation(
            refreshed(t1, c.incidents),
            name,
            MonitorType::Uptime,
            Probe { elapsed_ms: c.elapsed_ms, outcome: Outcome::Down },
            comps,
            metrics,
            now_millis,
            c.started,
        );
        (t2, acts1 + r.unwrap())
    }
}

/// No duplicate incidents: over any run of failed checks of an uptime
/// monitor during which every fetched incident list holds an active incident
/// covering it, not one request is made, and so no second incident is opened.
pub proof fn lemma_no_duplicate_incidents(
    t: TrackerView,
    name: Seq<char>,
    comps: Seq<ComponentView>,
    metrics: Map<Seq<char>, Seq<char>>,
    cycles: Seq<DownCycle>,
    now_millis: u64,
)
    requires
        forall|k: int|
            0 <= k < cycles.len() ==> already_open(
                active_incidents((#[trigger] cycles[k]).incidents),
                name,
            ),
    ensures
        down_cycles(t, name, comps, metrics, cycles, now_millis).1 == Seq::<ActionView>::empty(),
    decreases cycles.len(),
{
    if cycles.len() > 0 {
        let c = cycles.last();
        assert(already_open(active_incidents(cycles[cycles.len() - 1].incidents), name));
        assert forall|k: int| 0 <= k < cycles.drop_last().len() implies already_open(
            active_incidents((#[trigger] cycles.drop_last()[k]).incidents),
            name,
        ) by {
            assert(cycles.drop_last()[k] == cycles[k]);
        }
        lemma_no_duplicate_incidents(t, name, comps, metrics, cycles.drop_last(), now_millis);
        assert(Seq::<ActionView>::empty() + Seq::<ActionView>::empty() =~= Seq::<
            ActionView,
        >::empty());
    }
}

/// The state after, and the requests of, `n` cycles that each fetch the same
/// incident list and then see a successful check of the uptime monitor
/// `name`.
pub open spec fn up_cycles(t: TrackerView, name: Seq<char>, incs: Seq<IncidentView>, n: nat) -> (
    TrackerView,
    Seq<ActionView>,
)
    decreases n,
{
    if n == 0 {
        (t, Seq::empty())
    } else {
        let (t1, acts1) = up_cycles(t, name, incs, (n - 1) as nat);
        let t2 = refreshed(t1, incs);
        let (cd, acts2) = up_fold(t2.snapshot, name, t2.countdown, t2.threshold);
        (TrackerView { countdown: cd, ..t2 }, acts1 + acts2)
    }
}

/// `x` is the one incident of the snapshot that covers `name`.
pub open spec fn sole_cover(snapshot: Seq<IncidentView>, name: Seq<char>, x: int) -> bool {
    &&& 0 <= x < snapshot.len()
    &&& covers(snapshot[x], name)
    &&& forall|j: int| 0 <= j < snapshot.len() && j != x ==> !covers(#[trigger] snapshot[j], name)
}

proof fn lemma_fold_untouched(
    snapshot: Seq<IncidentView>,
    name: Seq<char>,
    cd: Map<Seq<char>, u64>,
    threshold: u64,
)
    requires
        forall|j: int| 0 <= j < snapshot.len() ==> !covers(#[trigger] snapshot[j], name),
    ensures
        up_fold(snapshot, name, cd, threshold) == (cd, Seq::<ActionView>::empty()),
    decreases snapshot.len(),
{
    if snapshot.len() > 0 {
        assert(!covers(snapshot[snapshot.len() - 1], name));
        assert forall|j: int| 0 <= j < snapshot.drop_last().len() implies !covers(
            #[trigger] snapshot.drop_last()[j],
            name,
        ) by {
            assert(snapshot.drop_last()[j] == snapshot[j]);
        }
        lemma_fold_untouched(snapshot.drop_last(), name, cd, threshold);
    }
}

proof fn lemma_fold_sole(
    snapshot: Seq<IncidentView>,
    name: Seq<char>,
    cd: Map<Seq<char>, u64>,
    threshold: u64,
    x: int,
)
    requires
        sole_cover(snapshot, name, x),
    ensures
        up_fold(snapshot, name, cd, threshold) == up_step(snapshot[x], cd, threshold),
    decreases snapshot.len(),
{
    let rest = snapshot.drop_last();
    if x == snapshot.len() - 1 {
        assert forall|j: int| 0 <= j < rest.len() implies !covers(#[trigger] rest[j], name) by {
            assert(rest[j] == snapshot[j]);
        }
        lemma_fold_untouched(rest, name, cd, threshold);
        let acts = up_step(snapshot[x], cd, threshold).1;
        assert(Seq::<ActionView>::empty() + acts =~= acts);
    } else {
        assert(!covers(snapshot[snapshot.len() - 1], name));
        assert forall|j: int| 0 <= j < rest.len() && j != x implies !covers(#[trigger] rest[j], name) by {
            assert(rest[j] == snapshot[j]);
        }
        assert(rest[x] == snapshot[x]);
        lemma_fold_sole(rest, name, cd, threshold, x);
    }
}

proof fn lemma_id_kept(incs: Seq<IncidentView>, x: int)
    requires
        0 <= x < active_incidents(incs).len(),
    ensures
        incident_ids(active_incidents(incs)).to_set().contains(active_incidents(incs)[x].id),
{
    let ids = incident_ids(active_incidents(incs));
    assert(ids[x] == active_incidents(incs)[x].id);
}

/// Progression, first step: where the one active incident covering an
/// uptime monitor is identified, the next successful check moves it to
/// monitoring, with a countdown of the full threshold.
pub proof fn lemma_identified_moves_to_monitoring(
    t: TrackerView,
    name: Seq<char>,
    incs: Seq<IncidentView>,
    x: int,
)
    requires
        sole_cover(active_incidents(incs), name, x),
        parse_status(active_incidents(incs)[x].status) == Some(IncidentStatus::Identified),
    ensures
        ({
            let inc = active_incidents(incs)[x];
            let (t1, acts) = up_cycles(t, name, incs, 1);
            &&& acts == seq![ActionView::Update(inc.id, update_request(inc, IncidentStatus::Monitoring))]
            &&& t1.countdown.contains_key(inc.id)
            &&& t1.countdown[inc.id] == t.threshold
            &&& t1.snapshot == active_incidents(incs)
        }),
{
    assert(up_cycles(t, name, incs, 0) == (t, Seq::<ActionView>::empty()));
    let t2 = refreshed(t, incs);
    lemma_fold_sole(t2.snapshot, name, t2.countdown, t2.threshold, x);
    let acts = up_step(active_incidents(incs)[x], t2.countdown, t2.threshold).1;
    assert(Seq::<ActionView>::empty() + acts =~= acts);
}

proof fn lemma_counting_down(t: TrackerView, name: Seq<char>, incs: Seq<IncidentView>, x: int, k: nat)
    requires
        sole_cover(active_incidents(incs), name, x),
        parse_status(active_incidents(incs)[x].status) == Some(IncidentStatus::Monitoring),
        t.countdown.contains_key(active_incidents(incs)[x].id),
        t.countdown[active_incidents(incs)[x].id] == t.threshold,
        k <= t.threshold,
    ensures
        ({
            let id = active_incidents(incs)[x].id;
            let (tk, acts) = up_cycles(t, name, incs, k);
            &&& acts == Seq::<ActionView>::empty()
            &&& tk.threshold == t.threshold
            &&& tk.countdown.contains_key(id)
            &&& tk.countdown[id] == t.threshold - k
        }),
    decreases k,
{
    if k > 0 {
        lemma_counting_down(t, name, incs, x, (k - 1) as nat);
        let t1 = up_cycles(t, name, incs, (k - 1) as nat).0;
        let t2 = refreshed(t1, incs);
        lemma_id_kept(incs, x);
        lemma_fold_sole(t2.snapshot, name, t2.countdown, t2.threshold, x);
        assert(Seq::<ActionView>::empty() + Seq::<ActionView>::empty() =~= Seq::<
            ActionView,
        >::empty());
    }
}

/// Progression, to the end: where the one active incident covering an
/// uptime monitor is monitored with a full countdown, the next `threshold`
/// successful checks only count down, to zero, and the one after resolves it.
pub proof fn lemma_monitoring_resolves_after_threshold(
    t: TrackerView,
    name: Seq<char>,
    incs: Seq<IncidentView>,
    x: int,
)
    requires
        sole_cover(active_incidents(incs), name, x),
        parse_status(active_incidents(incs)[x].status) == Some(IncidentStatus::Monitoring),
        t.countdown.contains_key(active_incidents(incs)[x].id),
        t.countdown[active_incidents(incs)[x].id] == t.threshold,
    ensures
        forall|k: nat|
            k <= t.threshold ==> {
                let (tk, acts) = #[trigger] up_cycles(t, name, incs, k);
                &&& acts == Seq::<ActionView>::empty()
                &&& tk.countdown.contains_key(active_incidents(incs)[x].id)
                &&& tk.countdown[active_incidents(incs)[x].id] == t.threshold - k
            },
        ({
            let inc = active_incidents(incs)[x];
            up_cycles(t, name, incs, (t.threshold + 1) as nat).1 == seq![
                ActionView::Update(inc.id, update_request(inc, IncidentStatus::Resolved)),
            ]
        }),
{
    assert forall|k: nat| k <= t.threshold implies {
        let (tk, acts) = #[trigger] up_cycles(t, name, incs, k);
        &&& acts == Seq::<ActionView>::empty()
        &&& tk.countdown.contains_key(active_incidents(incs)[x].id)
        &&& tk.countdown[active_incidents(incs)[x].id] == t.threshold - k
    } by {
        lemma_counting_down(t, name, incs, x, k);
    }
    let n = t.threshold as nat;
    lemma_counting_down(t, name, incs, x, n);
    let t1 = up_cycles(t, name, incs, n).0;
    let t2 = refreshed(t1, incs);
    lemma_id_kept(incs, x);
    lemma_fold_sole(t2.snapshot, name, t2.countdown, t2.threshold, x);
    let acts = up_step(active_incidents(incs)[x], t2.countdown, t2.threshold).1;
    assert(Seq::<ActionView>::empty() + acts =~= acts);
}

/// Latency isolation: evaluating a latency monitor leaves the incident state
/// as it was and asks for no incident request; a failed check of it asks for
/// nothing at all.
pub proof fn lemma_latency_isolation(
    t: TrackerView,
    name: Seq<char>,
    probe: Probe,
    comps: Seq<ComponentView>,
    metrics: Map<Seq<char>, Seq<char>>,
    now_millis: u64,
    started: Seq<char>,
)
    ensures
        ({
            let (t2, r) = evaluation(
                t,
                name,
                MonitorType::Latency,
                probe,
                comps,
                metrics,
                now_millis,
                started,
            );
            &&& t2 == t
            &&& r matches Ok(acts) ==> forall|i: int|
                0 <= i < acts.len() ==> (#[trigger] acts[i]) is Report
            &&& probe.outcome == Outcome::Down ==> r == Ok::<Seq<ActionView>, MonitorError>(
                Seq::empty(),
            )
        }),
{
}

/// Metric fidelity: a successful check of a latency monitor that has a metric
/// reports exactly one data point to that metric, whose value is the time the
/// check took and whose timestamp is the time of the evaluation.
pub proof fn lemma_metric_fidelity(
    t: TrackerView,
    name: Seq<char>,
    elapsed_ms: u128,
    comps: Seq<ComponentView>,
    metrics: Map<Seq<char>, Seq<char>>,
    now_millis: u64,
    started: Seq<char>,
)
    requires
        metrics.contains_key(name),
    ensures
        evaluation(
            t,
            name,
            MonitorType::Latency,
            Probe { elapsed_ms: elapsed_ms, outcome: Outcome::Up },
            comps,
            metrics,
            now_millis,
            started,
        ).1 == Ok::<Seq<ActionView>, MonitorError>(
            seq![ActionView::Report(metrics[name], LatencyPost { timestamp: now_millis, value: elapsed_ms })],
        ),
{
}

proof fn lemma_active_only(incs: Seq<IncidentView>)
    ensures
        forall|i: int|
            0 <= i < active_incidents(incs).len() ==> is_active(#[trigger] active_incidents(incs)[i]),
    decreases incs.len(),
{
    if incs.len() > 0 {
        lemma_active_only(incs.drop_last());
        let earlier = active_incidents(incs.drop_last());
        assert forall|i: int|
            0 <= i < active_incidents(incs).len() implies is_active(
            #[trigger] active_incidents(incs)[i],
        ) by {
            if i < earlier.len() {
                assert(is_active(earlier[i]));
            }
        }
    }
}

/// No stale state: after a refresh the snapshot holds active incidents only,
/// and the countdown holds ids of snapshot incidents only.
pub proof fn lemma_refresh_prunes(t: TrackerView, incs: Seq<IncidentView>)
    ensures
        ({
            let r = refreshed(t, incs);
            &&& forall|i: int| 0 <= i < r.snapshot.len() ==> is_active(#[trigger] r.snapshot[i])
            &&& forall|id: Seq<char>|
                #[trigger] r.countdown.contains_key(id) ==> incident_ids(r.snapshot).contains(id)
        }),
{
    lemma_active_only(incs);
}

/// Idempotent snapshot: fetching the same incident list twice gives the
/// state that fetching it once gives, and the snapshot depends on the list
/// alone.
pub proof fn lemma_refresh_idempotent(t: TrackerView, u: TrackerView, incs: Seq<IncidentView>)
    ensures
        refreshed(refreshed(t, incs), incs) == refreshed(t, incs),
        refreshed(u, incs).snapshot == refreshed(t, incs).snapshot,
{
    let once = refreshed(t, incs);
    let ids = incident_ids(active_incidents(incs)).to_set();
    assert(once.countdown.restrict(ids) =~= once.countdown);
}

} // verus!
