use vstd::prelude::*;

use crate::config::MonitorType;
use crate::instatus::{
    ComponentView,
    component_views, covers, creation_request, incident_views, is_active, parse_status,
    update_request, ComponentResponse, Incident, IncidentPost, IncidentPostView, IncidentStatus,
    IncidentUpdate, IncidentUpdateView, IncidentView, LatencyPost,
};
use crate::metrics::{id_views, MetricMap};
use crate::table::{string_views, NameTable};

verus! {

/// For each incident in monitoring, by id, how many more successful cycles it
/// must see before it is resolved.
pub type MonitoringCountdown = NameTable<u64>;

/// How one health check of an endpoint came out.
#[derive(PartialEq, Eq, Structural, Clone, Copy, Debug)]
pub enum Outcome {
    Up,
    Down,
}

/// One health check: how long it took, in milliseconds, and how it came out.
#[derive(PartialEq, Eq, Structural, Clone, Copy, Debug)]
pub struct Probe {
    pub elapsed_ms: u128,
    pub outcome: Outcome,
}

/// The wall-clock time at which a monitor was evaluated: in epoch
/// milliseconds, and as the local date and time that incidents are stamped with.
#[derive(Debug)]
pub struct Timestamp {
    pub epoch_millis: u64,
    pub started: String,
}

/// A request the engine asks the caller to send to the status page.
#[derive(Debug)]
pub enum Action {
    /// Open an incident.
    CreateIncident(IncidentPost),
    /// Move the incident `incident_id` to another status.
    UpdateIncident { incident_id: String, update: IncidentUpdate },
    /// Add a data point to the metric `metric_id`.
    ReportLatency { metric_id: String, point: LatencyPost },
}

/// A fault that stops the engine.
#[derive(PartialEq, Eq, Structural, Clone, Copy, Debug)]
pub enum MonitorError {
    /// A latency monitor has no metric of its name on the status page.
    MissingMetric,
}

pub ghost enum ActionView {
    Create(IncidentPostView),
    Update(Seq<char>, IncidentUpdateView),
    Report(Seq<char>, LatencyPost),
}

impl View for Action {
    type V = ActionView;

    open spec fn view(&self) -> ActionView {
        match self {
            Action::CreateIncident(p) => ActionView::Create(p@),
            Action::UpdateIncident { incident_id, update } => ActionView::Update(
                incident_id@,
                update@,
            ),
            Action::ReportLatency { metric_id, point } => ActionView::Report(metric_id@, *point),
        }
    }
}

pub open spec fn action_views(v: Seq<Action>) -> Seq<ActionView> {
    v.map_values(|a: Action| a@)
}

pub open spec fn result_views(r: Result<Vec<Action>, MonitorError>) -> Result<
    Seq<ActionView>,
    MonitorError,
> {
    match r {
        Ok(v) => Ok(action_views(v@)),
        Err(e) => Err(e),
    }
}

/// A check is up exactly when a response came back with a 2xx status.
pub open spec fn outcome_of(status: Option<u16>) -> Outcome {
    match status {
        Some(code) => if 200 <= code < 300 {
            Outcome::Up
        } else {
            Outcome::Down
        },
        None => Outcome::Down,
    }
}

/// Classifies a health check by the status code of its response, `None`
/// where no response came (timeout, refused connection, unknown host).
pub fn classify(status: Option<u16>) -> (r: Outcome)
    ensures
        r == outcome_of(status),
{
    match status {
        Some(code) => if 200 <= code && code < 300 {
            Outcome::Up
        } else {
            Outcome::Down
        },
        None => Outcome::Down,
    }
}

// ---------------------------------------------------------------------------
// The model of the engine
// ---------------------------------------------------------------------------

/// What the engine holds between two evaluations: this cycle's active
/// incidents, the countdown of the monitored ones, and the number of
/// successful cycles that resolves an incident.
pub ghost struct TrackerView {
    pub snapshot: Seq<IncidentView>,
    pub countdown: Map<Seq<char>, u64>,
    pub threshold: u64,
}

/// The active incidents of a list, in its order.
pub open spec fn active_incidents(incs: Seq<IncidentView>) -> Seq<IncidentView>
    decreases incs.len(),
{
    if incs.len() == 0 {
        Seq::empty()
    } else {
        let earlier = active_incidents(incs.drop_last());
        if is_active(incs.last()) {
            earlier.push(incs.last())
        } else {
            earlier
        }
    }
}

pub open spec fn incident_ids(incs: Seq<IncidentView>) -> Seq<Seq<char>> {
    incs.map_values(|i: IncidentView| i.id)
}

/// A fresh incident list replaces the snapshot by its active incidents and
/// drops the countdown of every incident no longer among them.
pub open spec fn refreshed(t: TrackerView, incs: Seq<IncidentView>) -> TrackerView {
    let snapshot = active_incidents(incs);
    TrackerView {
        snapshot: snapshot,
        countdown: t.countdown.restrict(incident_ids(snapshot).to_set()),
        threshold: t.threshold,
    }
}

/// Some incident of the snapshot covers the monitor `name`.
pub open spec fn already_open(snapshot: Seq<IncidentView>, name: Seq<char>) -> bool {
    exists|i: int| 0 <= i < snapshot.len() && covers(#[trigger] snapshot[i], name)
}

/// What a successful check of one of its monitors does to an incident:
/// an identified incident goes to monitoring with a full countdown; a
/// monitored one counts down, and is resolved once its countdown is at zero.
/// A monitored incident without a countdown starts one.
pub open spec fn up_step(inc: IncidentView, cd: Map<Seq<char>, u64>, threshold: u64) -> (
    Map<Seq<char>, u64>,
    Seq<ActionView>,
) {
    match parse_status(inc.status) {
        Some(IncidentStatus::Identified) => (
            cd.insert(inc.id, threshold),
            seq![ActionView::Update(inc.id, update_request(inc, IncidentStatus::Monitoring))],
        ),
        Some(IncidentStatus::Monitoring) => if !cd.contains_key(inc.id) {
            (cd.insert(inc.id, threshold), Seq::empty())
        } else if cd[inc.id] == 0 {
            (cd, seq![ActionView::Update(inc.id, update_request(inc, IncidentStatus::Resolved))])
        } else {
            (cd.insert(inc.id, (cd[inc.id] - 1) as u64), Seq::empty())
        },
        _ => (cd, Seq::empty()),
    }
}

/// A successful check of the monitor `name` applied, in snapshot order, to
/// every incident that covers it.
pub open spec fn up_fold(
    snapshot: Seq<IncidentView>,
    name: Seq<char>,
    cd: Map<Seq<char>, u64>,
    threshold: u64,
) -> (Map<Seq<char>, u64>, Seq<ActionView>)
    decreases snapshot.len(),
{
    if snapshot.len() == 0 {
        (cd, Seq::empty())
    } else {
        let (cd1, acts1) = up_fold(snapshot.drop_last(), name, cd, threshold);
        if covers(snapshot.last(), name) {
            let (cd2, acts2) = up_step(snapshot.last(), cd1, threshold);
            (cd2, acts1 + acts2)
        } else {
            (cd1, acts1)
        }
    }
}

/// One evaluation of the monitor `name` of kind `kind`, whose check came out
/// as `probe`.
pub open spec fn evaluation(
    t: TrackerView,
    name: Seq<char>,
    kind: MonitorType,
    probe: Probe,
    comps: Seq<ComponentView>,
    metrics: Map<Seq<char>, Seq<char>>,
    now_millis: u64,
    started: Seq<char>,
) -> (TrackerView, Result<Seq<ActionView>, MonitorError>) {
    match (kind, probe.outcome) {
        (MonitorType::Uptime, Outcome::Down) => (
            t,
            Ok(
                if already_open(t.snapshot, name) {
                    Seq::empty()
                } else {
                    seq![ActionView::Create(creation_request(name, comps, started))]
                },
            ),
        ),
        (MonitorType::Uptime, Outcome::Up) => {
            let (cd, acts) = up_fold(t.snapshot, name, t.countdown, t.threshold);
            (TrackerView { countdown: cd, ..t }, Ok(acts))
        },
        (MonitorType::Latency, Outcome::Up) => (
            t,
            if metrics.contains_key(name) {
                Ok(
                    seq![ActionView::Report(metrics[name], LatencyPost { timestamp: now_millis, value: probe.elapsed_ms })],
                )
            } else {
                Err(MonitorError::MissingMetric)
            },
        ),
        (MonitorType::Latency, Outcome::Down) => (t, Ok(Seq::empty())),
    }
}

// ---------------------------------------------------------------------------
// The engine
// ---------------------------------------------------------------------------

/// The state the poll loop owns across cycles: the active incidents fetched
/// this cycle and the countdown of the monitored ones.
pub struct IncidentTracker {
    snapshot: Vec<Incident>,
    countdown: MonitoringCountdown,
    threshold: u64,
}

impl View for IncidentTracker {
    type V = TrackerView;

    closed spec fn view(&self) -> TrackerView {
        TrackerView {
            snapshot: incident_views(self.snapshot@),
            countdown: self.countdown@,
            threshold: self.threshold,
        }
    }
}

/// The actions of an optional one.
pub open spec fn opt_actions(a: Option<Action>) -> Seq<ActionView> {
    match a {
        Some(x) => seq![x@],
        None => Seq::empty(),
    }
}

/// Applies a successful check of one of its monitors to `inc`.
fn step_up(countdown: &mut MonitoringCountdown, inc: &Incident, threshold: u64) -> (r: Option<
    Action,
>)
    requires
        old(countdown).wf(),
    ensures
        final(countdown).wf(),
        (final(countdown)@, opt_actions(r)) == up_step(inc@, old(countdown)@, threshold),
{
    match inc.lifecycle_status() {
        Some(IncidentStatus::Identified) => {
            countdown.set(&inc.id, threshold);
            Some(
                Action::UpdateIncident {
                    incident_id: inc.id.clone(),
                    update: IncidentUpdate::for_incident(inc, IncidentStatus::Monitoring),
                },
            )
        },
        Some(IncidentStatus::Monitoring) => {
            let current: Option<u64> = match countdown.get(&inc.id) {
                Some(left) => Some(*left),
                None => None,
            };
            match current {
            None => {
                countdown.set(&inc.id, threshold);
                None
            },
            Some(0) => Some(
                Action::UpdateIncident {
                    incident_id: inc.id.clone(),
                    update: IncidentUpdate::for_incident(inc, IncidentStatus::Resolved),
                },
            ),
            Some(left) => {
                countdown.set(&inc.id, left - 1);
                None
            },
            }
        },
        _ => None,
    }
}

impl IncidentTracker {
    /// The countdown holds each incident id once.
    pub closed spec fn wf(&self) -> bool {
        self.countdown.wf()
    }

    /// A tracker with no incident, resolving a monitored incident after
    /// `threshold` further successful cycles.
    pub fn new(threshold: u64) -> (r: IncidentTracker)
        ensures
            r.wf(),
            r@ == (TrackerView {
                snapshot: Seq::empty(),
                countdown: Map::empty(),
                threshold: threshold,
            }),
    {
        let r = IncidentTracker { snapshot: Vec::new(), countdown: NameTable::new(), threshold };
        assert(r@.snapshot =~= Seq::<IncidentView>::empty());
        r
    }

    /// Starts a cycle from the incident list just fetched: keeps its active
    /// incidents as the snapshot and prunes the countdown to them.
    pub fn refresh(&mut self, incidents: &Vec<Incident>)
        requires
            old(self).wf(),
        ensures
            final(self).wf(),
            final(self)@ == refreshed(old(self)@, incident_views(incidents@)),
    {
        let ghost all = incident_views(incidents@);
        let mut active: Vec<Incident> = Vec::new();
        let mut ids: Vec<String> = Vec::new();
        let mut i: usize = 0;
        while i < incidents.len()
            invariant
                i <= incidents@.len(),
                all == incident_views(incidents@),
                incident_views(active@) == active_incidents(all.subrange(0, i as int)),
                string_views(ids@) == incident_ids(incident_views(active@)),
            decreases incidents@.len() - i,
        {
            assert(all.subrange(0, i as int + 1).drop_last() =~= all.subrange(0, i as int));
            assert(all.subrange(0, i as int + 1).last() == incidents@[i as int]@);
            match incidents[i].lifecycle_status() {
                Some(IncidentStatus::Identified) | Some(IncidentStatus::Monitoring) => {
                    let ghost before = active@;
                    let ghost before_ids = ids@;
                    let inc = incidents[i].clone();
                    ids.push(incidents[i].id.clone());
                    active.push(inc);
                    assert(incident_views(active@) =~= incident_views(before).push(
                        incidents@[i as int]@,
                    ));
                    assert(string_views(ids@) =~= string_views(before_ids).push(
                        incidents@[i as int]@.id,
                    ));
                    assert(incident_ids(incident_views(active@)) =~= incident_ids(
                        incident_views(before),
                    ).push(incidents@[i as int]@.id));
                },
                _ => {},
            }
            i = i + 1;
        }
        assert(all.subrange(0, incidents@.len() as int) =~= all);
        self.snapshot = active;
        self.countdown.retain_keys(&ids);
    }

    /// Whether some incident of the snapshot covers the monitor `name`.
    pub fn is_open_for(&self, name: &String) -> (r: bool)
        ensures
            r == already_open(self@.snapshot, name@),
    {
        let ghost snap = self@.snapshot;
        let mut i: usize = 0;
        while i < self.snapshot.len()
            invariant
                i <= self.snapshot@.len(),
                snap == incident_views(self.snapshot@),
                forall|k: int| 0 <= k < i ==> !covers(#[trigger] snap[k], name@),
            decreases self.snapshot@.len() - i,
        {
            if self.snapshot[i].covers(name) {
                assert(covers(snap[i as int], name@));
                return true;
            }
            i = i + 1;
        }
        false
    }

    /// The incident to open after a failed check of the uptime monitor
    /// `name`, unless an active incident already covers it.
    pub fn on_down(&self, name: &String, components: &Vec<ComponentResponse>, now: &Timestamp) -> (r:
        Option<IncidentPost>)
        ensures
            r is None <==> already_open(self@.snapshot, name@),
            r matches Some(p) ==> p@ == creation_request(
                name@,
                component_views(components@),
                now.started@,
            ),
    {
        if self.is_open_for(name) {
            None
        } else {
            Some(IncidentPost::for_outage(name, components, &now.started))
        }
    }

    /// Applies a successful check of the uptime monitor `name` to each
    /// active incident that covers it.
    pub fn on_up(&mut self, name: &String) -> (r: Vec<Action>)
        requires
            old(self).wf(),
        ensures
            final(self).wf(),
            final(self)@ == (TrackerView {
                countdown: up_fold(
                    old(self)@.snapshot,
                    name@,
                    old(self)@.countdown,
                    old(self)@.threshold,
                ).0,
                ..old(self)@
            }),
            action_views(r@) == up_fold(
                old(self)@.snapshot,
                name@,
                old(self)@.countdown,
                old(self)@.threshold,
            ).1,
    {
        let ghost snap = self@.snapshot;
        let ghost cd0 = self@.countdown;
        let ghost thr0 = self.threshold;
        let mut actions: Vec<Action> = Vec::new();
        let mut i: usize = 0;
        while i < self.snapshot.len()
            invariant
                i <= self.snapshot@.len(),
                snap == incident_views(self.snapshot@),
                self.threshold == thr0,
                self.countdown.wf(),
                (self.countdown@, action_views(actions@)) == up_fold(
                    snap.subrange(0, i as int),
                    name@,
                    cd0,
                    self.threshold,
                ),
            decreases self.snapshot@.len() - i,
        {
            assert(snap.subrange(0, i as int + 1).drop_last() =~= snap.subrange(0, i as int));
            assert(snap.subrange(0, i as int + 1).last() == self.snapshot@[i as int]@);
            if self.snapshot[i].covers(name) {
                let ghost before = actions@;
                let stepped = step_up(&mut self.countdown, &self.snapshot[i], self.threshold);
                match stepped {
                    Some(a) => {
                        actions.push(a);
                    },
                    None => {},
                }
                assert(action_views(actions@) =~= action_views(before) + opt_actions(stepped));
            }
            i = i + 1;
        }
        assert(snap.subrange(0, self.snapshot@.len() as int) =~= snap);
        actions
    }

    /// Evaluates the monitor `name` of kind `kind` after its check came out
    /// as `probe`: the requests to send, or the fault that stops the engine.
    pub fn evaluate(
        &mut self,
        name: &String,
        kind: MonitorType,
        probe: Probe,
        components: &Vec<ComponentResponse>,
        metrics: &MetricMap,
        now: &Timestamp,
    ) -> (r: Result<Vec<Action>, MonitorError>)
        requires
            old(self).wf(),
            metrics.wf(),
        ensures
            final(self).wf(),
            (final(self)@, result_views(r)) == evaluation(
                old(self)@,
                name@,
                kind,
                probe,
                component_views(components@),
                id_views(metrics@),
                now.epoch_millis,
                now.started@,
            ),
    {
        match (kind, probe.outcome) {
            (MonitorType::Uptime, Outcome::Down) => {
                let mut actions: Vec<Action> = Vec::new();
                match self.on_down(name, components, now) {
                    Some(post) => actions.push(Action::CreateIncident(post)),
                    None => {},
                }
                assert(action_views(actions@) =~= evaluation(
                    self@,
                    name@,
                    kind,
                    probe,
                    component_views(components@),
                    id_views(metrics@),
                    now.epoch_millis,
                    now.started@,
                ).1.unwrap());
                Ok(actions)
            },
            (MonitorType::Uptime, Outcome::Up) => Ok(self.on_up(name)),
            (MonitorType::Latency, Outcome::Up) => match metrics.get(name) {
                Some(id) => {
                    let mut actions: Vec<Action> = Vec::new();
                    actions.push(
                        Action::ReportLatency {
                            metric_id: id.clone(),
                            point: LatencyPost { timestamp: now.epoch_millis, value: probe.elapsed_ms },
                        },
                    );
                    assert(action_views(actions@) =~= evaluation(
                        self@,
                        name@,
                        kind,
                        probe,
                        component_views(components@),
                        id_views(metrics@),
                        now.epoch_millis,
                        now.started@,
                    ).1.unwrap());
                    Ok(actions)
                },
                None => Err(MonitorError::MissingMetric),
            },
            (MonitorType::Latency, Outcome::Down) => {
                let actions: Vec<Action> = Vec::new();
                assert(action_views(actions@) =~= Seq::<ActionView>::empty());
                Ok(actions)
            },
        }
    }

    /// The active incidents of this cycle.
    pub fn snapshot(&self) -> (r: &Vec<Incident>)
        ensures
            incident_views(r@) == self@.snapshot,
    {
        &self.snapshot
    }

    /// The remaining cycles of the monitored incident `id`, if it has a
    /// countdown.
    pub fn remaining(&self, id: &String) -> (r: Option<u64>)
        requires
            self.wf(),
        ensures
            r == (if self@.countdown.contains_key(id@) {
                Some(self@.countdown[id@])
            } else {
                None
            }),
    {
        match self.countdown.get(id) {
            Some(left) => Some(*left),
            None => None,
        }
    }
}

} // verus!
