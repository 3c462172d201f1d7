use vstd::prelude::*;

use crate::table::string_views;

verus! {

/// Default ceiling, in seconds, for one outbound request.
pub const DEFAULT_CONNECTION_TIMEOUT: u64 = 30;

/// Default number of successful cycles an incident stays in monitoring.
pub const DEFAULT_MONITORING_THRESHOLD: u64 = 60;

/// What a monitor measures.
#[derive(PartialEq, Eq, Structural, Clone, Copy, Debug)]
pub enum MonitorType {
    /// Opens and resolves incidents as the endpoint goes down and comes back.
    Uptime,
    /// Reports the response time of the endpoint as a metric data point.
    Latency,
}

/// One monitored endpoint; its name is the key under which the
/// configuration holds it.
#[derive(Debug)]
pub struct Monitor {
    pub url: String,
    pub type_: MonitorType,
}

impl Clone for Monitor {
    fn clone(&self) -> (r: Self)
        ensures
            r == *self,
    {
        Monitor { url: self.url.clone(), type_: self.type_ }
    }
}

/// The settings the engine runs with.
#[derive(Debug)]
pub struct Config {
    /// Name of the status page.
    pub name: String,
    /// Bearer credential for the status-page API.
    pub api_key: String,
    /// Monitors by name, in the order in which a cycle visits them.
    pub monitors: Vec<(String, Monitor)>,
    /// Seconds between two cycles.
    pub frequency: u64,
    /// Seconds before an outbound request gives up.
    pub max_connection_timeout: Option<u64>,
    /// Successful cycles an incident spends in monitoring before it is resolved.
    pub incident_monitoring_threshold: Option<u64>,
}

/// The value an optional setting takes, given its default.
pub open spec fn or_default(v: Option<u64>, d: u64) -> u64 {
    match v {
        Some(x) => x,
        None => d,
    }
}

/// The names of the latency monitors of a monitor list, in its order.
pub open spec fn latency_names(monitors: Seq<(String, Monitor)>) -> Seq<Seq<char>>
    decreases monitors.len(),
{
    if monitors.len() == 0 {
        Seq::empty()
    } else {
        let earlier = latency_names(monitors.drop_last());
        if monitors.last().1.type_ is Latency {
            earlier.push(monitors.last().0@)
        } else {
            earlier
        }
    }
}

impl Config {
    /// The configuration with every unset optional setting given its default.
    pub fn with_defaults(self) -> (r: Config)
        ensures
            r.name == self.name,
            r.api_key == self.api_key,
            r.monitors == self.monitors,
            r.frequency == self.frequency,
            r.max_connection_timeout == Some(
                or_default(self.max_connection_timeout, DEFAULT_CONNECTION_TIMEOUT),
            ),
            r.incident_monitoring_threshold == Some(
                or_default(self.incident_monitoring_threshold, DEFAULT_MONITORING_THRESHOLD),
            ),
    {
        let timeout = self.connection_timeout();
        let threshold = self.monitoring_threshold();
        Config {
            max_connection_timeout: Some(timeout),
            incident_monitoring_threshold: Some(threshold),
            ..self
        }
    }

    /// Seconds before an outbound request gives up.
    pub fn connection_timeout(&self) -> (r: u64)
        ensures
            r == or_default(self.max_connection_timeout, DEFAULT_CONNECTION_TIMEOUT),
    {
        match self.max_connection_timeout {
            Some(t) => t,
            None => DEFAULT_CONNECTION_TIMEOUT,
        }
    }

    /// Successful cycles an incident spends in monitoring before it is resolved.
    pub fn monitoring_threshold(&self) -> (r: u64)
        ensures
            r == or_default(self.incident_monitoring_threshold, DEFAULT_MONITORING_THRESHOLD),
    {
        match self.incident_monitoring_threshold {
            Some(t) => t,
            None => DEFAULT_MONITORING_THRESHOLD,
        }
    }

    /// The names of the latency monitors, in configuration order: each needs a
    /// metric of the same name on the status page.
    pub fn latency_monitor_names(&self) -> (r: Vec<String>)
        ensures
            string_views(r@) == latency_names(self.monitors@),
    {
        let mut names: Vec<String> = Vec::new();
        let mut i: usize = 0;
        while i < self.monitors.len()
            invariant
                i <= self.monitors@.len(),
                string_views(names@) == latency_names(self.monitors@.subrange(0, i as int)),
            decreases self.monitors@.len() - i,
        {
            proof {
                assert(self.monitors@.subrange(0, i as int + 1).drop_last() =~= self.monitors@.subrange(
                    0,
                    i as int,
                ));
            }
            if self.monitors[i].1.type_ == MonitorType::Latency {
                names.push(self.monitors[i].0.clone());
            }
            assert(string_views(names@) =~= latency_names(self.monitors@.subrange(0, i as int + 1)));
            i = i + 1;
        }
        proof {
            assert(self.monitors@.subrange(0, self.monitors@.len() as int) =~= self.monitors@);
        }
        names
    }
}

} // verus!
