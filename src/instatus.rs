use vstd::prelude::*;
use vstd::string::StringExecFns;

use crate::table::string_views;

verus! {

/// A status page of the remote service.
#[derive(Debug)]
pub struct StatusPage {
    /// ID of the status page
    pub id: String,
    /// Name of the status page
    pub name: String,
}

impl Clone for StatusPage {
    fn clone(&self) -> (r: Self)
        ensures
            r == *self,
    {
        StatusPage { id: self.id.clone(), name: self.name.clone() }
    }
}

/// A latency metric of the remote service.
#[derive(Debug)]
pub struct Metric {
    /// ID of the metric
    pub id: String,
    /// Name of the metric
    pub name: String,
}

impl Clone for Metric {
    fn clone(&self) -> (r: Self)
        ensures
            r == *self,
    {
        Metric { id: self.id.clone(), name: self.name.clone() }
    }
}

/// One latency data point: when it was taken, in epoch milliseconds, and the
/// response time in milliseconds.
#[derive(PartialEq, Eq, Structural, Clone, Copy, Debug)]
pub struct LatencyPost {
    pub timestamp: u64,
    pub value: u128,
}

/// The state a request asks the remote service to give one component.
#[derive(Debug)]
pub struct ComponentStatus {
    pub id: String,
    pub status: String,
}

/// The body of an incident-creation request.
#[derive(Debug)]
pub struct IncidentPost {
    pub name: String,
    pub message: String,
    pub components: Vec<String>,
    pub started: String,
    pub status: String,
    pub notify: bool,
    pub statuses: Vec<ComponentStatus>,
}

/// The body of an incident-update request.
#[derive(Debug)]
pub struct IncidentUpdate {
    pub message: String,
    pub components: Vec<String>,
    pub started: String,
    pub status: String,
    pub notify: bool,
    pub statuses: Vec<ComponentStatus>,
}

/// A component of the status page: a piece of visible infrastructure.
#[derive(Debug)]
pub struct ComponentResponse {
    pub id: String,
    pub name: String,
}

impl Clone for ComponentResponse {
    fn clone(&self) -> (r: Self)
        ensures
            r == *self,
    {
        ComponentResponse { id: self.id.clone(), name: self.name.clone() }
    }
}

/// An incident as the remote service lists it.
#[derive(Debug)]
pub struct Incident {
    pub id: String,
    pub started: String,
    pub status: String,
    pub components: Vec<ComponentResponse>,
}

impl Clone for Incident {
    fn clone(&self) -> (r: Self)
        ensures
            r@ == self@,
    {
        Incident {
            id: self.id.clone(),
            started: self.started.clone(),
            status: self.status.clone(),
            components: self.components.clone(),
        }
    }
}

// ---------------------------------------------------------------------------
// Mathematical views
// ---------------------------------------------------------------------------

pub ghost struct ComponentView {
    pub id: Seq<char>,
    pub name: Seq<char>,
}

pub ghost struct IncidentView {
    pub id: Seq<char>,
    pub started: Seq<char>,
    pub status: Seq<char>,
    pub components: Seq<ComponentView>,
}

pub ghost struct ComponentStatusView {
    pub id: Seq<char>,
    pub status: Seq<char>,
}

pub ghost struct IncidentPostView {
    pub name: Seq<char>,
    pub message: Seq<char>,
    pub components: Seq<Seq<char>>,
    pub started: Seq<char>,
    pub status: Seq<char>,
    pub notify: bool,
    pub statuses: Seq<ComponentStatusView>,
}

pub ghost struct IncidentUpdateView {
    pub message: Seq<char>,
    pub components: Seq<Seq<char>>,
    pub started: Seq<char>,
    pub status: Seq<char>,
    pub notify: bool,
    pub statuses: Seq<ComponentStatusView>,
}

impl View for ComponentResponse {
    type V = ComponentView;

    open spec fn view(&self) -> ComponentView {
        ComponentView { id: self.id@, name: self.name@ }
    }
}

pub open spec fn component_views(v: Seq<ComponentResponse>) -> Seq<ComponentView> {
    v.map_values(|c: ComponentResponse| c@)
}

impl View for Incident {
    type V = IncidentView;

    open spec fn view(&self) -> IncidentView {
        IncidentView {
            id: self.id@,
            started: self.started@,
            status: self.status@,
            components: component_views(self.components@),
        }
    }
}

pub open spec fn incident_views(v: Seq<Incident>) -> Seq<IncidentView> {
    v.map_values(|i: Incident| i@)
}

impl View for ComponentStatus {
    type V = ComponentStatusView;

    open spec fn view(&self) -> ComponentStatusView {
        ComponentStatusView { id: self.id@, status: self.status@ }
    }
}

pub open spec fn status_views(v: Seq<ComponentStatus>) -> Seq<ComponentStatusView> {
    v.map_values(|c: ComponentStatus| c@)
}

impl View for IncidentPost {
    type V = IncidentPostView;

    open spec fn view(&self) -> IncidentPostView {
        IncidentPostView {
            name: self.name@,
            message: self.message@,
            components: string_views(self.components@),
            started: self.started@,
            status: self.status@,
            notify: self.notify,
            statuses: status_views(self.statuses@),
        }
    }
}

impl View for IncidentUpdate {
    type V = IncidentUpdateView;

    open spec fn view(&self) -> IncidentUpdateView {
        IncidentUpdateView {
            message: self.message@,
            components: string_views(self.components@),
            started: self.started@,
            status: self.status@,
            notify: self.notify,
            statuses: status_views(self.statuses@),
        }
    }
}

// ---------------------------------------------------------------------------
// Statuses and their wire text
// ---------------------------------------------------------------------------

/// The lifecycle of an incident: identified, then monitoring, then resolved.
#[derive(PartialEq, Eq, Structural, Clone, Copy, Debug)]
pub enum IncidentStatus {
    Identified,
    Monitoring,
    Resolved,
}

pub open spec fn status_text(s: IncidentStatus) -> Seq<char> {
    match s {
        IncidentStatus::Identified => "IDENTIFIED"@,
        IncidentStatus::Monitoring => "MONITORING"@,
        IncidentStatus::Resolved => "RESOLVED"@,
    }
}

/// The status that a wire text names, if any.
pub open spec fn parse_status(t: Seq<char>) -> Option<IncidentStatus> {
    if t == "IDENTIFIED"@ {
        Some(IncidentStatus::Identified)
    } else if t == "MONITORING"@ {
        Some(IncidentStatus::Monitoring)
    } else if t == "RESOLVED"@ {
        Some(IncidentStatus::Resolved)
    } else {
        None
    }
}

/// An incident is active while it is identified or monitored.
pub open spec fn is_active(inc: IncidentView) -> bool {
    parse_status(inc.status) == Some(IncidentStatus::Identified) || parse_status(inc.status)
        == Some(IncidentStatus::Monitoring)
}

/// Some component of the incident carries the given name.
pub open spec fn covers(inc: IncidentView, name: Seq<char>) -> bool {
    exists|j: int| 0 <= j < inc.components.len() && (#[trigger] inc.components[j]).name == name
}

pub open spec fn operational_text() -> Seq<char> {
    "OPERATIONAL"@
}

pub open spec fn major_outage_text() -> Seq<char> {
    "MAJOROUTAGE"@
}

pub open spec fn update_message() -> Seq<char> {
    "A fix has been implemented. We are monitoring the service closely."@
}

/// The ids of the components named `name`, in their order.
pub open spec fn impacted_ids(comps: Seq<ComponentView>, name: Seq<char>) -> Seq<Seq<char>>
    decreases comps.len(),
{
    if comps.len() == 0 {
        Seq::empty()
    } else {
        let earlier = impacted_ids(comps.drop_last(), name);
        if comps.last().name == name {
            earlier.push(comps.last().id)
        } else {
            earlier
        }
    }
}

/// The request that opens an incident for the monitor `name`.
pub open spec fn creation_request(
    name: Seq<char>,
    comps: Seq<ComponentView>,
    started: Seq<char>,
) -> IncidentPostView {
    let ids = impacted_ids(comps, name);
    IncidentPostView {
        name: name + " Issues"@,
        message: "We've identified issues with the "@ + name + ". Engineers have been notified."@,
        components: ids,
        started: started,
        status: status_text(IncidentStatus::Identified),
        notify: true,
        statuses: outage_statuses(ids),
    }
}

/// Each of the given components marked as in a major outage.
pub open spec fn outage_statuses(ids: Seq<Seq<char>>) -> Seq<ComponentStatusView> {
    ids.map_values(|id: Seq<char>| ComponentStatusView { id: id, status: major_outage_text() })
}

/// The request that moves an incident to `status`, every component of it
/// marked operational.
pub open spec fn update_request(inc: IncidentView, status: IncidentStatus) -> IncidentUpdateView {
    IncidentUpdateView {
        message: update_message(),
        components: inc.components.map_values(|c: ComponentView| c.id),
        started: inc.started,
        status: status_text(status),
        notify: true,
        statuses: inc.components.map_values(
            |c: ComponentView| ComponentStatusView { id: c.id, status: operational_text() },
        ),
    }
}

impl IncidentStatus {
    /// The wire text of the status.
    pub fn text(&self) -> (r: String)
        ensures
            r@ == status_text(*self),
    {
        match self {
            IncidentStatus::Identified => String::from_str("IDENTIFIED"),
            IncidentStatus::Monitoring => String::from_str("MONITORING"),
            IncidentStatus::Resolved => String::from_str("RESOLVED"),
        }
    }

    /// The status that a wire text names, if any.
    pub fn parse(t: &String) -> (r: Option<IncidentStatus>)
        ensures
            r == parse_status(t@),
    {
        if *t == String::from_str("IDENTIFIED") {
            Some(IncidentStatus::Identified)
        } else if *t == String::from_str("MONITORING") {
            Some(IncidentStatus::Monitoring)
        } else if *t == String::from_str("RESOLVED") {
            Some(IncidentStatus::Resolved)
        } else {
            None
        }
    }
}

impl Incident {
    /// Whether some component of the incident carries the given name.
    pub fn covers(&self, name: &String) -> (r: bool)
        ensures
            r == covers(self@, name@),
    {
        let mut j: usize = 0;
        while j < self.components.len()
            invariant
                j <= self.components@.len(),
                forall|k: int| 0 <= k < j ==> (#[trigger] self.components@[k])@.name != name@,
            decreases self.components@.len() - j,
        {
            if self.components[j].name == *name {
                assert(self@.components[j as int].name == name@);
                return true;
            }
            j = j + 1;
        }
        assert forall|k: int| 0 <= k < self@.components.len() implies (
        #[trigger] self@.components[k]).name != name@ by {
            assert(self@.components[k] == self.components@[k]@);
        }
        false
    }

    /// The status of the incident, if its wire text names one.
    pub fn lifecycle_status(&self) -> (r: Option<IncidentStatus>)
        ensures
            r == parse_status(self@.status),
    {
        IncidentStatus::parse(&self.status)
    }
}

impl IncidentPost {
    /// The request that opens an incident for the monitor `name`, impacting
    /// every component of that name.
    pub fn for_outage(name: &String, components: &Vec<ComponentResponse>, started: &String) -> (r:
        IncidentPost)
        ensures
            r@ == creation_request(name@, component_views(components@), started@),
    {
        let mut ids: Vec<String> = Vec::new();
        let mut statuses: Vec<ComponentStatus> = Vec::new();
        let ghost comps = component_views(components@);
        let mut i: usize = 0;
        while i < components.len()
            invariant
                i <= components@.len(),
                comps == component_views(components@),
                string_views(ids@) == impacted_ids(comps.subrange(0, i as int), name@),
                status_views(statuses@) == outage_statuses(string_views(ids@)),
            decreases components@.len() - i,
        {
            assert(comps.subrange(0, i as int + 1).drop_last() =~= comps.subrange(0, i as int));
            assert(comps.subrange(0, i as int + 1).last() == components@[i as int]@);
            if components[i].name == *name {
                let ghost old_ids = ids@;
                let ghost old_statuses = statuses@;
                let id = components[i].id.clone();
                ids.push(components[i].id.clone());
                statuses.push(ComponentStatus { id: id, status: String::from_str("MAJOROUTAGE") });
                assert(string_views(ids@) =~= string_views(old_ids).push(components@[i as int].id@));
                assert(status_views(statuses@) =~= status_views(old_statuses).push(
                    ComponentStatusView { id: components@[i as int].id@, status: major_outage_text() },
                ));
            }
            assert(string_views(ids@) =~= impacted_ids(comps.subrange(0, i as int + 1), name@));
            assert(status_views(statuses@) =~= outage_statuses(string_views(ids@)));
            i = i + 1;
        }
        assert(comps.subrange(0, components@.len() as int) =~= comps);
        let title = name.clone().concat(" Issues");
        let message = String::from_str("We've identified issues with the ").concat(name.as_str()).concat(
            ". Engineers have been notified.",
        );
        IncidentPost {
            name: title,
            message: message,
            components: ids,
            started: started.clone(),
            status: IncidentStatus::Identified.text(),
            notify: true,
            statuses: statuses,
        }
    }
}

impl IncidentUpdate {
    /// The request that moves `incident` to `status`, every component of it
    /// marked operational.
    pub fn for_incident(incident: &Incident, status: IncidentStatus) -> (r: IncidentUpdate)
        ensures
            r@ == update_request(incident@, status),
    {
        let mut ids: Vec<String> = Vec::new();
        let mut statuses: Vec<ComponentStatus> = Vec::new();
        let ghost comps = incident@.components;
        let mut i: usize = 0;
        while i < incident.components.len()
            invariant
                i <= incident.components@.len(),
                comps == incident@.components,
                ids@.len() == i,
                statuses@.len() == i,
                forall|k: int| 0 <= k < i ==> (#[trigger] ids@[k])@ == comps[k].id,
                forall|k: int|
                    0 <= k < i ==> (#[trigger] statuses@[k])@ == (ComponentStatusView {
                        id: comps[k].id,
                        status: operational_text(),
                    }),
            decreases incident.components@.len() - i,
        {
            assert(comps[i as int] == incident.components@[i as int]@);
            ids.push(incident.components[i].id.clone());
            statuses.push(
                ComponentStatus { id: incident.components[i].id.clone(), status: String::from_str("OPERATIONAL") },
            );
            i = i + 1;
        }
        let r = IncidentUpdate {
            message: String::from_str(
                "A fix has been implemented. We are monitoring the service closely.",
            ),
            components: ids,
            started: incident.started.clone(),
            status: status.text(),
            notify: true,
            statuses: statuses,
        };
        assert(r@.components =~= update_request(incident@, status).components);
        assert(r@.statuses =~= update_request(incident@, status).statuses);
        r
    }
}

/// The last page of the list whose name is `name`.
pub open spec fn last_page_named(pages: Seq<StatusPage>, name: Seq<char>) -> Option<StatusPage>
    decreases pages.len(),
{
    if pages.len() == 0 {
        None
    } else if pages.last().name@ == name {
        Some(pages.last())
    } else {
        last_page_named(pages.drop_last(), name)
    }
}

/// Picks the status page of the configured name out of the pages the
/// credential can see; where several share the name, the last one listed.
pub fn find_status_page(pages: &Vec<StatusPage>, name: &String) -> (r: Option<StatusPage>)
    ensures
        r == last_page_named(pages@, name@),
        r is None <==> forall|i: int| 0 <= i < pages@.len() ==> (#[trigger] pages@[i]).name@ != name@,
{
    let mut found: Option<StatusPage> = None;
    let mut i: usize = 0;
    while i < pages.len()
        invariant
            i <= pages@.len(),
            found == last_page_named(pages@.subrange(0, i as int), name@),
            found is None <==> forall|k: int| 0 <= k < i ==> (#[trigger] pages@[k]).name@ != name@,
        decreases pages@.len() - i,
    {
        assert(pages@.subrange(0, i as int + 1).drop_last() =~= pages@.subrange(0, i as int));
        if pages[i].name == *name {
            found = Some(pages[i].clone());
        }
        i = i + 1;
    }
    assert(pages@.subrange(0, pages@.len() as int) =~= pages@);
    found
}

} // verus!
