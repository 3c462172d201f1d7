use velocity::config::MonitorType;
use velocity::instatus::{ComponentResponse, Incident, Metric};
use velocity::metrics::{build_metric_map, MetricMap};
use velocity::table::NameTable;
use velocity::velocity::{
    classify, Action, IncidentTracker, MonitorError, Outcome, Probe, Timestamp,
};

fn s(t: &str) -> String {
    t.to_string()
}

fn component(id: &str, name: &str) -> ComponentResponse {
    ComponentResponse { id: s(id), name: s(name) }
}

fn incident(id: &str, status: &str, components: Vec<ComponentResponse>) -> Incident {
    Incident { id: s(id), started: s("2024-01-01 00:00:00.000"), status: s(status), components }
}

fn now() -> Timestamp {
    Timestamp { epoch_millis: 1_700_000_000_000, started: s("2023-11-14 22:13:20.000") }
}

fn up(ms: u128) -> Probe {
    Probe { elapsed_ms: ms, outcome: Outcome::Up }
}

fn down() -> Probe {
    Probe { elapsed_ms: 5000, outcome: Outcome::Down }
}

fn no_metrics() -> MetricMap {
    NameTable::new()
}

fn page_components() -> Vec<ComponentResponse> {
    vec![component("c1", "api"), component("c2", "db"), component("c3", "api")]
}

#[test]
fn first_outage_opens_one_incident() {
    let mut tracker = IncidentTracker::new(60);
    tracker.refresh(&vec![]);
    let actions = tracker
        .evaluate(&s("api"), MonitorType::Uptime, down(), &page_components(), &no_metrics(), &now())
        .unwrap();
    assert_eq!(actions.len(), 1);
    match &actions[0] {
        Action::CreateIncident(post) => {
            assert_eq!(post.status, "IDENTIFIED");
            assert_eq!(post.components, vec![s("c1"), s("c3")]);
            assert_eq!(post.name, "api Issues");
            assert_eq!(
                post.message,
                "We've identified issues with the api. Engineers have been notified."
            );
            assert_eq!(post.started, "2023-11-14 22:13:20.000");
            assert!(post.notify);
            assert_eq!(post.statuses.len(), 2);
            assert_eq!(post.statuses[0].id, "c1");
            assert_eq!(post.statuses[0].status, "MAJOROUTAGE");
            assert_eq!(post.statuses[1].id, "c3");
            assert_eq!(post.statuses[1].status, "MAJOROUTAGE");
        }
        other => panic!("expected a creation request, got {:?}", other),
    }
}

#[test]
fn outage_with_no_component_of_its_name_still_opens_incident() {
    let mut tracker = IncidentTracker::new(60);
    tracker.refresh(&vec![]);
    let actions = tracker
        .evaluate(&s("cache"), MonitorType::Uptime, down(), &page_components(), &no_metrics(), &now())
        .unwrap();
    assert_eq!(actions.len(), 1);
    match &actions[0] {
        Action::CreateIncident(post) => {
            assert!(post.components.is_empty());
            assert!(post.statuses.is_empty());
            assert_eq!(post.name, "cache Issues");
        }
        other => panic!("expected a creation request, got {:?}", other),
    }
}

#[test]
fn repeated_outages_of_a_covered_monitor_open_nothing() {
    let mut tracker = IncidentTracker::new(60);
    let list = vec![incident("inc1", "IDENTIFIED", vec![component("c1", "api")])];
    for _ in 0..5 {
        tracker.refresh(&list);
        let actions = tracker
            .evaluate(&s("api"), MonitorType::Uptime, down(), &page_components(), &no_metrics(), &now())
            .unwrap();
        assert!(actions.is_empty());
    }
    assert_eq!(tracker.remaining(&s("inc1")), None);
}

#[test]
fn resolved_incident_does_not_cover_its_monitor() {
    let mut tracker = IncidentTracker::new(60);
    tracker.refresh(&vec![incident("old", "RESOLVED", vec![component("c1", "api")])]);
    assert!(tracker.snapshot().is_empty());
    let actions = tracker
        .evaluate(&s("api"), MonitorType::Uptime, down(), &page_components(), &no_metrics(), &now())
        .unwrap();
    assert_eq!(actions.len(), 1);
    assert!(matches!(actions[0], Action::CreateIncident(_)));
}

fn expect_update(action: &Action, id: &str, status: &str) {
    match action {
        Action::UpdateIncident { incident_id, update } => {
            assert_eq!(incident_id, id);
            assert_eq!(update.status, status);
        }
        other => panic!("expected an update request, got {:?}", other),
    }
}

#[test]
fn identified_incident_moves_to_monitoring_then_resolves() {
    let threshold: u64 = 2;
    let mut tracker = IncidentTracker::new(threshold);
    let api = vec![component("c1", "api")];
    let comps = page_components();
    let metrics = no_metrics();

    tracker.refresh(&vec![incident("inc1", "IDENTIFIED", api.clone())]);
    let actions = tracker
        .evaluate(&s("api"), MonitorType::Uptime, up(40), &comps, &metrics, &now())
        .unwrap();
    assert_eq!(actions.len(), 1);
    expect_update(&actions[0], "inc1", "MONITORING");
    assert_eq!(tracker.remaining(&s("inc1")), Some(2));

    let monitoring = vec![incident("inc1", "MONITORING", api.clone())];
    let mut expected_left: u64 = 2;
    for _ in 0..threshold {
        tracker.refresh(&monitoring);
        let actions = tracker
            .evaluate(&s("api"), MonitorType::Uptime, up(40), &comps, &metrics, &now())
            .unwrap();
        assert!(actions.is_empty());
        expected_left -= 1;
        assert_eq!(tracker.remaining(&s("inc1")), Some(expected_left));
    }

    tracker.refresh(&monitoring);
    let actions = tracker
        .evaluate(&s("api"), MonitorType::Uptime, up(40), &comps, &metrics, &now())
        .unwrap();
    assert_eq!(actions.len(), 1);
    expect_update(&actions[0], "inc1", "RESOLVED");
}

#[test]
fn monitoring_countdown_of_two_resolves_on_the_third_success() {
    let mut tracker = IncidentTracker::new(2);
    let api = vec![component("c1", "api")];
    let comps = page_components();
    let metrics = no_metrics();
    tracker.refresh(&vec![incident("inc1", "IDENTIFIED", api.clone())]);
    tracker.evaluate(&s("api"), MonitorType::Uptime, up(10), &comps, &metrics, &now()).unwrap();
    assert_eq!(tracker.remaining(&s("inc1")), Some(2));

    let monitoring = vec![incident("inc1", "MONITORING", api.clone())];
    tracker.refresh(&monitoring);
    let first = tracker.evaluate(&s("api"), MonitorType::Uptime, up(10), &comps, &metrics, &now()).unwrap();
    assert!(first.is_empty());
    assert_eq!(tracker.remaining(&s("inc1")), Some(1));

    tracker.refresh(&monitoring);
    let second = tracker.evaluate(&s("api"), MonitorType::Uptime, up(10), &comps, &metrics, &now()).unwrap();
    assert!(second.is_empty());
    assert_eq!(tracker.remaining(&s("inc1")), Some(0));

    tracker.refresh(&monitoring);
    let third = tracker.evaluate(&s("api"), MonitorType::Uptime, up(10), &comps, &metrics, &now()).unwrap();
    assert_eq!(third.len(), 1);
    expect_update(&third[0], "inc1", "RESOLVED");
}

#[test]
fn update_marks_every_component_operational() {
    let mut tracker = IncidentTracker::new(5);
    let comps = vec![component("c1", "api"), component("c9", "edge")];
    tracker.refresh(&vec![incident("inc7", "IDENTIFIED", comps.clone())]);
    let actions = tracker
        .evaluate(&s("edge"), MonitorType::Uptime, up(3), &page_components(), &no_metrics(), &now())
        .unwrap();
    assert_eq!(actions.len(), 1);
    match &actions[0] {
        Action::UpdateIncident { incident_id, update } => {
            assert_eq!(incident_id, "inc7");
            assert_eq!(update.status, "MONITORING");
            assert_eq!(update.components, vec![s("c1"), s("c9")]);
            assert_eq!(update.started, "2024-01-01 00:00:00.000");
            assert!(update.notify);
            assert_eq!(
                update.message,
                "A fix has been implemented. We are monitoring the service closely."
            );
            assert_eq!(update.statuses.len(), 2);
            assert_eq!(update.statuses[0].id, "c1");
            assert_eq!(update.statuses[0].status, "OPERATIONAL");
            assert_eq!(update.statuses[1].id, "c9");
            assert_eq!(update.statuses[1].status, "OPERATIONAL");
        }
        other => panic!("expected an update request, got {:?}", other),
    }
}

#[test]
fn success_of_another_monitor_leaves_incident_alone() {
    let mut tracker = IncidentTracker::new(5);
    tracker.refresh(&vec![incident("inc1", "IDENTIFIED", vec![component("c1", "api")])]);
    let actions = tracker
        .evaluate(&s("db"), MonitorType::Uptime, up(3), &page_components(), &no_metrics(), &now())
        .unwrap();
    assert!(actions.is_empty());
    assert_eq!(tracker.remaining(&s("inc1")), None);
}

#[test]
fn monitored_incident_without_countdown_starts_one() {
    let mut tracker = IncidentTracker::new(4);
    tracker.refresh(&vec![incident("inc2", "MONITORING", vec![component("c1", "api")])]);
    let actions = tracker
        .evaluate(&s("api"), MonitorType::Uptime, up(3), &page_components(), &no_metrics(), &now())
        .unwrap();
    assert!(actions.is_empty());
    assert_eq!(tracker.remaining(&s("inc2")), Some(4));
}

#[test]
fn zero_threshold_resolves_on_next_success() {
    let mut tracker = IncidentTracker::new(0);
    let api = vec![component("c1", "api")];
    tracker.refresh(&vec![incident("inc1", "IDENTIFIED", api.clone())]);
    tracker.evaluate(&s("api"), MonitorType::Uptime, up(1), &page_components(), &no_metrics(), &now()).unwrap();
    assert_eq!(tracker.remaining(&s("inc1")), Some(0));
    tracker.refresh(&vec![incident("inc1", "MONITORING", api)]);
    let actions = tracker
        .evaluate(&s("api"), MonitorType::Uptime, up(1), &page_components(), &no_metrics(), &now())
        .unwrap();
    assert_eq!(actions.len(), 1);
    expect_update(&actions[0], "inc1", "RESOLVED");
}

#[test]
fn missing_metric_is_fatal() {
    let mut tracker = IncidentTracker::new(60);
    tracker.refresh(&vec![]);
    let metrics = build_metric_map(
        &vec![Metric { id: s("m1"), name: s("search-latency") }],
        &vec![s("search-latency"), s("checkout-latency")],
    );
    let r = tracker.evaluate(
        &s("checkout-latency"),
        MonitorType::Latency,
        up(250),
        &page_components(),
        &metrics,
        &now(),
    );
    assert_eq!(r.unwrap_err(), MonitorError::MissingMetric);
}

#[test]
fn latency_success_reports_elapsed_time_and_clock() {
    let mut tracker = IncidentTracker::new(60);
    tracker.refresh(&vec![]);
    let metrics = build_metric_map(
        &vec![Metric { id: s("m1"), name: s("checkout-latency") }],
        &vec![s("checkout-latency")],
    );
    let actions = tracker
        .evaluate(&s("checkout-latency"), MonitorType::Latency, up(123), &page_components(), &metrics, &now())
        .unwrap();
    assert_eq!(actions.len(), 1);
    match &actions[0] {
        Action::ReportLatency { metric_id, point } => {
            assert_eq!(metric_id, "m1");
            assert_eq!(point.value, 123);
            assert_eq!(point.timestamp, 1_700_000_000_000);
        }
        other => panic!("expected a latency report, got {:?}", other),
    }
}

#[test]
fn latency_monitor_never_touches_incidents() {
    let mut tracker = IncidentTracker::new(3);
    let list = vec![
        incident("inc1", "IDENTIFIED", vec![component("c1", "checkout-latency")]),
    ];
    tracker.refresh(&list);
    let metrics = build_metric_map(
        &vec![Metric { id: s("m1"), name: s("checkout-latency") }],
        &vec![s("checkout-latency")],
    );
    let down_actions = tracker
        .evaluate(&s("checkout-latency"), MonitorType::Latency, down(), &page_components(), &metrics, &now())
        .unwrap();
    assert!(down_actions.is_empty());
    let up_actions = tracker
        .evaluate(&s("checkout-latency"), MonitorType::Latency, up(9), &page_components(), &metrics, &now())
        .unwrap();
    assert_eq!(up_actions.len(), 1);
    assert!(matches!(up_actions[0], Action::ReportLatency { .. }));
    assert_eq!(tracker.remaining(&s("inc1")), None);

    let mut fresh = IncidentTracker::new(3);
    fresh.refresh(&vec![]);
    let none = fresh
        .evaluate(&s("checkout-latency"), MonitorType::Latency, down(), &page_components(), &metrics, &now())
        .unwrap();
    assert!(none.is_empty());
}

#[test]
fn refreshing_twice_gives_the_same_state() {
    let mut tracker = IncidentTracker::new(3);
    let api = vec![component("c1", "api")];
    tracker.refresh(&vec![incident("inc1", "IDENTIFIED", api.clone())]);
    tracker.evaluate(&s("api"), MonitorType::Uptime, up(1), &page_components(), &no_metrics(), &now()).unwrap();

    let list = vec![
        incident("inc1", "MONITORING", api.clone()),
        incident("inc2", "RESOLVED", api.clone()),
        incident("inc3", "IDENTIFIED", vec![component("c2", "db")]),
    ];
    tracker.refresh(&list);
    let first: Vec<String> = tracker.snapshot().iter().map(|i| i.id.clone()).collect();
    let first_left = tracker.remaining(&s("inc1"));
    tracker.refresh(&list);
    let second: Vec<String> = tracker.snapshot().iter().map(|i| i.id.clone()).collect();
    assert_eq!(first, vec![s("inc1"), s("inc3")]);
    assert_eq!(first, second);
    assert_eq!(first_left, Some(3));
    assert_eq!(tracker.remaining(&s("inc1")), first_left);
}

#[test]
fn refresh_prunes_countdown_of_closed_incidents() {
    let mut tracker = IncidentTracker::new(3);
    let api = vec![component("c1", "api")];
    tracker.refresh(&vec![incident("inc1", "IDENTIFIED", api.clone())]);
    tracker.evaluate(&s("api"), MonitorType::Uptime, up(1), &page_components(), &no_metrics(), &now()).unwrap();
    assert_eq!(tracker.remaining(&s("inc1")), Some(3));
    tracker.refresh(&vec![incident("inc1", "RESOLVED", api)]);
    assert_eq!(tracker.remaining(&s("inc1")), None);
    assert!(tracker.snapshot().is_empty());
}

#[test]
fn classify_by_status_code() {
    assert_eq!(classify(Some(200)), Outcome::Up);
    assert_eq!(classify(Some(204)), Outcome::Up);
    assert_eq!(classify(Some(299)), Outcome::Up);
    assert_eq!(classify(Some(199)), Outcome::Down);
    assert_eq!(classify(Some(300)), Outcome::Down);
    assert_eq!(classify(Some(404)), Outcome::Down);
    assert_eq!(classify(Some(503)), Outcome::Down);
    assert_eq!(classify(None), Outcome::Down);
}
