//! Integration monitoring: the status of each system component, a bounded
//! history of integration events with counters, and the integration health
//! check.

use vstd::prelude::*;
use std::time::{Duration, Instant};
use crate::clock::{digest_of, duration_as_nanos, hash_u128, instant_now, nanos_since};
use crate::monitoring::quality_assurance::lemma_keep_last_push;
use crate::lib5250::telnet::{first_index, lemma_first_index, lookup, text_pairs};
use crate::monitoring::component_signals::{SignalRegistry, SignalView};
use crate::monitoring::{ComponentHealthCheck, HealthStatus};
use crate::text::{decimal_seq, decimal_string, str_equal, str_to_string, string_concat};

verus! {

/// Counters of integration events.
#[derive(Debug, Clone, Copy, PartialEq, Eq, Structural)]
pub struct IntegrationMetrics {
    pub total_integration_events: u64,
    pub component_interactions: u64,
    pub integration_failures: u64,
    pub communication_errors: u64,
    pub dependency_failures: u64,
    pub state_sync_issues: u64,
    pub resource_contention: u64,
    pub deadlock_detections: u64,
    pub successful_integrations: u64,
    /// Mean duration of the events that had one, in microseconds.
    pub avg_integration_time_us: u64,
}

/// Integration monitoring settings.
#[derive(Debug, Clone, Copy, PartialEq, Eq, Structural)]
pub struct IntegrationConfig {
    pub enable_component_tracking: bool,
    pub enable_event_logging: bool,
    pub max_event_history: usize,
    pub health_check_interval_seconds: u64,
    pub max_integration_time_ms: u64,
    pub enable_deadlock_detection: bool,
    pub component_timeout_threshold_seconds: u64,
    pub dependency_check_interval_seconds: u64,
}

/// The default settings: tracking, logging and deadlock detection on, 500
/// events kept, checks every minute, five seconds for an integration.
pub open spec fn default_integration_config() -> IntegrationConfig {
    IntegrationConfig {
        enable_component_tracking: true,
        enable_event_logging: true,
        max_event_history: 500,
        health_check_interval_seconds: 60,
        max_integration_time_ms: 5000,
        enable_deadlock_detection: true,
        component_timeout_threshold_seconds: 30,
        dependency_check_interval_seconds: 300,
    }
}

impl Default for IntegrationConfig {
    fn default() -> (r: Self)
        ensures
            r == default_integration_config(),
    {
        IntegrationConfig {
            enable_component_tracking: true,
            enable_event_logging: true,
            max_event_history: 500,
            health_check_interval_seconds: 60,
            max_integration_time_ms: 5000,
            enable_deadlock_detection: true,
            component_timeout_threshold_seconds: 30,
            dependency_check_interval_seconds: 300,
        }
    }
}

/// Where a component stands.
#[derive(Debug, Clone, Copy, PartialEq, Eq, Structural)]
pub enum ComponentState {
    Starting,
    Running,
    Warning,
    Error,
    Stopped,
    Restarting,
}

impl Default for ComponentState {
    fn default() -> (r: Self)
        ensures
            r == ComponentState::Running,
    {
        ComponentState::Running
    }
}

/// Kinds of integration event.
#[derive(Debug, Clone, Copy, PartialEq, Eq, Structural)]
pub enum IntegrationEventType {
    ComponentInteraction,
    IntegrationFailure,
    CommunicationError,
    DependencyFailure,
    StateSyncIssue,
    ResourceContention,
    DeadlockDetected,
    ComponentHealthChange,
    IntegrationSuccess,
}

/// The status of one component.
#[derive(Debug)]
pub struct ComponentStatus {
    pub name: String,
    pub component_type: String,
    pub status: ComponentState,
    pub last_health_check: Instant,
    pub last_success: Option<Instant>,
    /// Errors in the last hour.
    pub recent_error_count: u64,
    pub avg_response_time_us: u64,
    /// Names of the components it depends on.
    pub dependencies: Vec<String>,
    /// Whether the system needs it.
    pub is_critical: bool,
}

/// A component's status as plain values: name, type, state, last check,
/// last success, error count, response time, dependencies, criticality.
pub type StatusView = (Seq<char>, Seq<char>, ComponentState, Instant, Option<Instant>, u64, u64, Seq<Seq<char>>, bool);

/// The texts of a list of strings.
pub open spec fn texts(v: Seq<String>) -> Seq<Seq<char>> {
    v.map_values(|s: String| s@)
}

impl ComponentStatus {
    /// The status as plain values.
    pub open spec fn view_of(&self) -> StatusView {
        (
            self.name@,
            self.component_type@,
            self.status,
            self.last_health_check,
            self.last_success,
            self.recent_error_count,
            self.avg_response_time_us,
            texts(self.dependencies@),
            self.is_critical,
        )
    }

    /// A copy with the same contents.
    pub fn duplicate(&self) -> (r: Self)
        ensures
            r.view_of() == self.view_of(),
    {
        let mut deps: Vec<String> = Vec::new();
        let mut i: usize = 0;
        while i < self.dependencies.len()
            invariant
                i <= self.dependencies@.len(),
                texts(deps@) == texts(self.dependencies@.take(i as int)),
            decreases self.dependencies@.len() - i,
        {
            let ghost before = deps@;
            let d = str_to_string(self.dependencies[i].as_str());
            deps.push(d);
            proof {
                assert(self.dependencies@.take(i + 1) =~= self.dependencies@.take(i as int).push(self.dependencies@[i as int]));
                assert(texts(deps@) =~= texts(before).push(d@));
                assert(texts(deps@) =~= texts(self.dependencies@.take(i + 1)));
            }
            i = i + 1;
        }
        assert(self.dependencies@.take(i as int) =~= self.dependencies@);
        ComponentStatus {
            name: str_to_string(self.name.as_str()),
            component_type: str_to_string(self.component_type.as_str()),
            status: self.status,
            last_health_check: self.last_health_check,
            last_success: self.last_success,
            recent_error_count: self.recent_error_count,
            avg_response_time_us: self.avg_response_time_us,
            dependencies: deps,
            is_critical: self.is_critical,
        }
    }
}

/// One integration event.
#[derive(Debug)]
pub struct IntegrationEvent {
    pub timestamp: Instant,
    pub event_type: IntegrationEventType,
    pub source_component: String,
    pub target_component: Option<String>,
    pub description: String,
    /// (name, value) details.
    pub details: Vec<(String, String)>,
    /// How long the operation took, in microseconds, if known.
    pub duration_us: Option<u64>,
    pub success: bool,
}

/// An event as plain values: time, type, source, target, description,
/// duration, success and the (name, value) details.
pub type EventView = (Instant, IntegrationEventType, Seq<char>, Option<Seq<char>>, Seq<char>, Option<u64>, bool, Seq<(Seq<char>, Seq<char>)>);

impl IntegrationEvent {
    /// The event as plain values.
    pub open spec fn view_of(&self) -> EventView {
        (
            self.timestamp,
            self.event_type,
            self.source_component@,
            match self.target_component {
                Some(t) => Some(t@),
                None => None,
            },
            self.description@,
            self.duration_us,
            self.success,
            text_pairs(self.details@),
        )
    }

    /// A copy with the same contents.
    pub fn duplicate(&self) -> (r: Self)
        ensures
            r.view_of() == self.view_of(),
            r.details@.len() == self.details@.len(),
    {
        let mut details: Vec<(String, String)> = Vec::new();
        let mut i: usize = 0;
        while i < self.details.len()
            invariant
                i <= self.details@.len(),
                details@.len() == i,
                text_pairs(details@) == text_pairs(self.details@.take(i as int)),
            decreases self.details@.len() - i,
        {
            let ghost before = details@;
            details.push((str_to_string(self.details[i].0.as_str()), str_to_string(self.details[i].1.as_str())));
            proof {
                assert(self.details@.take(i + 1) =~= self.details@.take(i as int).push(self.details@[i as int]));
                assert(text_pairs(details@) =~= text_pairs(before).push((self.details@[i as int].0@, self.details@[i as int].1@)));
                assert(text_pairs(details@) =~= text_pairs(self.details@.take(i + 1)));
            }
            i = i + 1;
        }
        assert(self.details@.take(i as int) =~= self.details@);
        IntegrationEvent {
            timestamp: self.timestamp,
            event_type: self.event_type,
            source_component: str_to_string(self.source_component.as_str()),
            target_component: match &self.target_component {
                Some(t) => Some(str_to_string(t.as_str())),
                None => None,
            },
            description: str_to_string(self.description.as_str()),
            details,
            duration_us: self.duration_us,
            success: self.success,
        }
    }
}

/// The counters after one event of type `t` lasting `duration`: the total
/// and the counter of the type go up (wrapping), and a duration moves the
/// mean.
pub open spec fn counted(m: IntegrationMetrics, t: IntegrationEventType, duration: Option<u64>) -> IntegrationMetrics {
    let total = if m.total_integration_events == u64::MAX { 0 } else { (m.total_integration_events + 1) as u64 };
    let inc = |x: u64| if x == u64::MAX { 0u64 } else { (x + 1) as u64 };
    IntegrationMetrics {
        total_integration_events: total,
        component_interactions: if t == IntegrationEventType::ComponentInteraction { inc(m.component_interactions) } else { m.component_interactions },
        integration_failures: if t == IntegrationEventType::IntegrationFailure { inc(m.integration_failures) } else { m.integration_failures },
        communication_errors: if t == IntegrationEventType::CommunicationError { inc(m.communication_errors) } else { m.communication_errors },
        dependency_failures: if t == IntegrationEventType::DependencyFailure { inc(m.dependency_failures) } else { m.dependency_failures },
        state_sync_issues: if t == IntegrationEventType::StateSyncIssue { inc(m.state_sync_issues) } else { m.state_sync_issues },
        resource_contention: if t == IntegrationEventType::ResourceContention { inc(m.resource_contention) } else { m.resource_contention },
        successful_integrations: if t == IntegrationEventType::IntegrationSuccess { inc(m.successful_integrations) } else { m.successful_integrations },
        avg_integration_time_us: match duration {
            Some(d) => ((m.avg_integration_time_us * m.total_integration_events + d) / (m.total_integration_events + 1)) as u64,
            None => m.avg_integration_time_us,
        },
        ..m
    }
}

/// The last `max` events of a history.
pub open spec fn keep_last<T>(s: Seq<T>, max: int) -> Seq<T> {
    if s.len() > max && max >= 0 {
        s.subrange(s.len() - max, s.len() as int)
    } else {
        s
    }
}

/// The components a monitor watches from the start: (name, type,
/// critical).
pub open spec fn core_components() -> Seq<(Seq<char>, Seq<char>, bool)> {
    seq![
        ("network"@, "AS400Connection"@, true),
        ("controller"@, "TerminalController"@, true),
        ("terminal"@, "TerminalScreen"@, true),
        ("protocol"@, "ProtocolProcessor"@, true),
        ("field_manager"@, "FieldManager"@, true),
        ("telnet_negotiator"@, "TelnetNegotiator"@, true),
        ("ansi_processor"@, "AnsiProcessor"@, false),
        ("keyboard"@, "KeyboardHandler"@, false),
    ]
}

/// The components that matter for the system, in order.
pub open spec fn critical_only(s: Seq<StatusView>) -> Seq<StatusView>
    decreases s.len(),
{
    if s.len() == 0 {
        Seq::empty()
    } else {
        critical_only(s.drop_last()) + if s.last().8 { seq![s.last()] } else { Seq::empty() }
    }
}

/// The issues an integration health check reports.
pub open spec fn health_issues(unhealthy_critical: nat, recent_failures: nat, comm_errors: nat, dep_failures: nat, avg_time: nat, limit_us: nat) -> Seq<Seq<char>> {
    (if unhealthy_critical > 0 { seq![decimal_seq(unhealthy_critical) + " critical components unhealthy"@] } else { Seq::empty() })
        + (if recent_failures > 10 { seq!["High failure rate: "@ + decimal_seq(recent_failures) + " failures in 5 minutes"@] } else { Seq::empty() })
        + (if comm_errors > 5 { seq!["Communication errors: "@ + decimal_seq(comm_errors)] } else { Seq::empty() })
        + (if dep_failures > 0 { seq!["Dependency failures: "@ + decimal_seq(dep_failures)] } else { Seq::empty() })
        + (if avg_time > limit_us { seq!["Slow integration time: "@ + decimal_seq(avg_time) + " μs"@] } else { Seq::empty() })
}

/// Texts joined with a separator.
pub open spec fn join(items: Seq<Seq<char>>, sep: Seq<char>) -> Seq<char>
    decreases items.len(),
{
    if items.len() == 0 {
        Seq::empty()
    } else if items.len() == 1 {
        items[0]
    } else {
        join(items.drop_last(), sep) + sep + items.last()
    }
}

/// The level of an integration health check: critical when a critical
/// component is unhealthy, a warning for any other issue, else healthy.
pub open spec fn health_level(unhealthy_critical: nat, recent_failures: nat, comm_errors: nat, dep_failures: nat, avg_time: nat, limit_us: nat) -> HealthStatus {
    if unhealthy_critical > 0 {
        HealthStatus::Critical
    } else if recent_failures > 10 || comm_errors > 5 || dep_failures > 0 || avg_time > limit_us {
        HealthStatus::Warning
    } else {
        HealthStatus::Healthy
    }
}

/// The message of an integration health check.
pub open spec fn health_message(issues: Seq<Seq<char>>) -> Seq<char> {
    if issues.len() == 0 {
        "All integrations healthy"@
    } else {
        "Integration issues: "@ + join(issues, ", "@)
    }
}

/// The details of an integration health check, in order.
pub open spec fn health_details(critical_total: nat, unhealthy_critical: nat, recent_failures: nat, comm_errors: nat, dep_failures: nat, avg_time: nat) -> Seq<(Seq<char>, Seq<char>)> {
    seq![
        ("critical_components_total"@, decimal_seq(critical_total)),
        ("unhealthy_critical_components"@, decimal_seq(unhealthy_critical)),
        ("recent_failures_5min"@, decimal_seq(recent_failures)),
        ("communication_errors"@, decimal_seq(comm_errors)),
        ("dependency_failures"@, decimal_seq(dep_failures)),
        ("avg_integration_time_us"@, decimal_seq(avg_time)),
    ]
}

/// A health check as plain values: level, message and details.
pub open spec fn check_view(c: ComponentHealthCheck) -> (HealthStatus, Seq<char>, Seq<(Seq<char>, Seq<char>)>) {
    (c.status, c.message@, c.details@.map_values(|p: (String, String)| (p.0@, p.1@)))
}

/// The integration health check from its counts: the critical components
/// and how many of them are not running, the failures of the last five
/// minutes, the communication and dependency errors, and the mean
/// integration time against its limit (all in microseconds).
pub fn integration_health(
    critical_total: u64,
    unhealthy_critical: u64,
    recent_failures: u64,
    comm_errors: u64,
    dep_failures: u64,
    avg_time: u64,
    limit_us: u64,
) -> (r: ComponentHealthCheck)
    ensures
        check_view(r) == (
            health_level(unhealthy_critical as nat, recent_failures as nat, comm_errors as nat, dep_failures as nat, avg_time as nat, limit_us as nat),
            health_message(health_issues(unhealthy_critical as nat, recent_failures as nat, comm_errors as nat, dep_failures as nat, avg_time as nat, limit_us as nat)),
            health_details(critical_total as nat, unhealthy_critical as nat, recent_failures as nat, comm_errors as nat, dep_failures as nat, avg_time as nat),
        ),
{
    let mut details: Vec<(String, String)> = Vec::new();
    details.push((str_to_string("critical_components_total"), decimal_string(critical_total)));
    details.push((str_to_string("unhealthy_critical_components"), decimal_string(unhealthy_critical)));
    details.push((str_to_string("recent_failures_5min"), decimal_string(recent_failures)));
    details.push((str_to_string("communication_errors"), decimal_string(comm_errors)));
    details.push((str_to_string("dependency_failures"), decimal_string(dep_failures)));
    details.push((str_to_string("avg_integration_time_us"), decimal_string(avg_time)));
    let mut issues: Vec<String> = Vec::new();
    let mut status = HealthStatus::Healthy;
    if unhealthy_critical > 0 {
        issues.push(string_concat(decimal_string(unhealthy_critical), " critical components unhealthy"));
        status = HealthStatus::Critical;
    }
    if recent_failures > 10 {
        let m = string_concat(str_to_string("High failure rate: "), decimal_string(recent_failures).as_str());
        issues.push(string_concat(m, " failures in 5 minutes"));
        if let HealthStatus::Healthy = status {
            status = HealthStatus::Warning;
        }
    }
    if comm_errors > 5 {
        issues.push(string_concat(str_to_string("Communication errors: "), decimal_string(comm_errors).as_str()));
        if let HealthStatus::Healthy = status {
            status = HealthStatus::Warning;
        }
    }
    if dep_failures > 0 {
        issues.push(string_concat(str_to_string("Dependency failures: "), decimal_string(dep_failures).as_str()));
        if let HealthStatus::Healthy = status {
            status = HealthStatus::Warning;
        }
    }
    if avg_time > limit_us {
        let m = string_concat(str_to_string("Slow integration time: "), decimal_string(avg_time).as_str());
        issues.push(string_concat(m, " μs"));
        if let HealthStatus::Healthy = status {
            status = HealthStatus::Warning;
        }
    }
    let ghost expected = health_issues(unhealthy_critical as nat, recent_failures as nat, comm_errors as nat, dep_failures as nat, avg_time as nat, limit_us as nat);
    assert(texts(issues@) =~= expected);
    let message = if issues.len() == 0 {
        str_to_string("All integrations healthy")
    } else {
        let joined = join_strings(&issues, ", ");
        string_concat(str_to_string("Integration issues: "), joined.as_str())
    };
    let r = ComponentHealthCheck { status, message, details };
    assert(r.details@.map_values(|p: (String, String)| (p.0@, p.1@)) =~= health_details(
        critical_total as nat, unhealthy_critical as nat, recent_failures as nat, comm_errors as nat, dep_failures as nat, avg_time as nat,
    ));
    r
}

/// Strings joined with a separator.
pub fn join_strings(items: &Vec<String>, sep: &str) -> (r: String)
    ensures
        r@ == join(texts(items@), sep@),
{
    let mut out = String::new();
    let mut i: usize = 0;
    while i < items.len()
        invariant
            i <= items@.len(),
            out@ == join(texts(items@.take(i as int)), sep@),
        decreases items@.len() - i,
    {
        proof {
            let t = texts(items@.take(i + 1));
            assert(t.drop_last() =~= texts(items@.take(i as int)));
            assert(t.last() == items@[i as int]@);
        }
        if i > 0 {
            out = string_concat(out, sep);
        }
        out = string_concat(out, items[i].as_str());
        proof {
            if i == 0 {
                assert(texts(items@.take(1)) =~= seq![items@[0]@]);
            }
        }
        i = i + 1;
    }
    assert(items@.take(i as int) =~= items@);
    out
}

/// The status of the first component with the given name, if any.
pub open spec fn find_component(s: Seq<StatusView>, name: Seq<char>) -> Option<StatusView> {
    lookup(s.map_values(|c: StatusView| (c.0, c)), name)
}

/// The failed events among those whose elapsed time (as measured, one
/// reading per event) is under the window, in order.
pub open spec fn recent_failures(events: Seq<EventView>, elapsed: Seq<u128>, window: u128) -> Seq<EventView>
    decreases events.len(),
{
    if events.len() == 0 || elapsed.len() != events.len() {
        Seq::empty()
    } else {
        recent_failures(events.drop_last(), elapsed.drop_last(), window) + if elapsed.last() < window && !events.last().6 {
            seq![events.last()]
        } else {
            Seq::empty()
        }
    }
}

/// How many components are in a given state.
pub open spec fn count_state(s: Seq<StatusView>, st: ComponentState) -> nat
    decreases s.len(),
{
    if s.len() == 0 {
        0
    } else {
        count_state(s.drop_last(), st) + if s.last().2 == st { 1nat } else { 0nat }
    }
}

/// How many components are not running.
pub open spec fn count_not_running(s: Seq<StatusView>) -> nat
    decreases s.len(),
{
    if s.len() == 0 {
        0
    } else {
        count_not_running(s.drop_last()) + if s.last().2 != ComponentState::Running { 1nat } else { 0nat }
    }
}

/// The five minutes of recent failures a health check looks at, in
/// nanoseconds.
pub open spec fn health_window() -> u128 {
    300_000_000_000
}

/// The hour of recent failures a report lists, in nanoseconds.
pub open spec fn report_window() -> u128 {
    3_600_000_000_000
}

/// A failure line of a report: source, target (or "system") and
/// description.
pub open spec fn event_line(e: EventView) -> Seq<char> {
    "  "@ + e.2 + " -> "@ + (match e.3 {
        Some(t) => t,
        None => "system"@,
    }) + ": "@ + e.4 + "\n"@
}

/// The lines of failures, one after the other.
pub open spec fn event_lines(s: Seq<EventView>) -> Seq<char>
    decreases s.len(),
{
    if s.len() == 0 {
        Seq::empty()
    } else {
        event_lines(s.drop_last()) + event_line(s.last())
    }
}

/// The integration report: component counts by state, the counters and
/// the recent failures, at most five of them listed.
pub open spec fn report_text(comps: Seq<StatusView>, m: IntegrationMetrics, recent: Seq<EventView>) -> Seq<char> {
    "=== Integration Monitoring Report ===\n\n"@ + "Component Status:\n"@
        + "  Running: "@ + decimal_seq(count_state(comps, ComponentState::Running)) + "\n"@
        + "  Warning: "@ + decimal_seq(count_state(comps, ComponentState::Warning)) + "\n"@
        + "  Error: "@ + decimal_seq(count_state(comps, ComponentState::Error)) + "\n"@
        + "  Total: "@ + decimal_seq(comps.len()) + "\n"@
        + "\nIntegration Metrics:\n"@
        + "  Total Events: "@ + decimal_seq(m.total_integration_events as nat) + "\n"@
        + "  Component Interactions: "@ + decimal_seq(m.component_interactions as nat) + "\n"@
        + "  Integration Failures: "@ + decimal_seq(m.integration_failures as nat) + "\n"@
        + "  Communication Errors: "@ + decimal_seq(m.communication_errors as nat) + "\n"@
        + "  Avg Integration Time: "@ + decimal_seq(m.avg_integration_time_us as nat) + " μs\n"@
        + "\nRecent Failures (Last Hour): "@ + decimal_seq(recent.len()) + "\n"@
        + event_lines(recent.take(if recent.len() < 5 { recent.len() as int } else { 5 }))
}

/// Whether a component counts as healthy: by what it reported of itself,
/// else core components are and the optional ones only without a screen
/// (`headless`).
pub open spec fn component_healthy(reported: Seq<(Seq<char>, SignalView)>, name: Seq<char>, headless: bool) -> bool {
    match lookup(reported, name) {
        Some(v) => v.0 == ComponentState::Running,
        None => if name == "network"@ || name == "controller"@ || name == "terminal"@ || name == "protocol"@
            || name == "field_manager"@ || name == "telnet_negotiator"@ {
            true
        } else if name == "ansi_processor"@ || name == "keyboard"@ {
            headless
        } else {
            false
        },
    }
}

/// A component after a validation that found it healthy or not: a
/// recovery resets its error count, a failure counts one error.
pub open spec fn revalidated(c: StatusView, healthy: bool, c2: StatusView) -> bool {
    let was = c.2 == ComponentState::Running;
    &&& c2.0 == c.0 && c2.1 == c.1 && c2.3 == c.3 && c2.6 == c.6 && c2.7 == c.7 && c2.8 == c.8
    &&& c2.2 == if healthy { ComponentState::Running } else if was { ComponentState::Error } else { c.2 }
    &&& c2.5 == if healthy && !was { 0 } else if !healthy && was { (c.5 + 1) as u64 } else { c.5 }
    &&& (healthy && !was ==> c2.4 is Some)
    &&& (!(healthy && !was) ==> c2.4 == c.4)
}

/// The (component, dependency) pairs among the dependencies `deps` of the
/// component `source` whose dependency is watched and not running, in
/// order.
pub open spec fn failing_dependencies(comps: Seq<StatusView>, source: Seq<char>, deps: Seq<Seq<char>>) -> Seq<(Seq<char>, Seq<char>)>
    decreases deps.len(),
{
    if deps.len() == 0 {
        Seq::empty()
    } else {
        failing_dependencies(comps, source, deps.drop_last()) + match find_component(comps, deps.last()) {
            Some(d) => if d.2 != ComponentState::Running { seq![(source, deps.last())] } else { Seq::empty() },
            None => Seq::empty(),
        }
    }
}

/// The failing (component, dependency) pairs of the first `n` components,
/// in order (see `failing_dependencies`).
pub open spec fn dependency_failures(comps: Seq<StatusView>, n: int) -> Seq<(Seq<char>, Seq<char>)>
    decreases n,
{
    if n <= 0 || n > comps.len() {
        Seq::empty()
    } else {
        dependency_failures(comps, n - 1) + failing_dependencies(comps, comps[n - 1].0, comps[n - 1].7)
    }
}

/// The event recorded for a failing (component, dependency) pair.
pub open spec fn dependency_event(e: EventView, p: (Seq<char>, Seq<char>)) -> bool {
    &&& e.1 == IntegrationEventType::DependencyFailure
    &&& e.2 == p.0
    &&& e.3 == Some(p.1)
    &&& e.4 == "Dependency "@ + p.1 + " is not running"@
    &&& e.5 is None
    &&& !e.6
    &&& e.7.len() == 0
}

/// The history `after` is `before` with one event for each failing pair,
/// in order, the latest 500 kept.
pub open spec fn dependencies_recorded(
    before: Seq<EventView>,
    pairs: Seq<(Seq<char>, Seq<char>)>,
    added: Seq<EventView>,
    after: Seq<EventView>,
) -> bool {
    &&& added.len() == pairs.len()
    &&& forall|k: int| 0 <= k < added.len() ==> dependency_event(#[trigger] added[k], pairs[k])
    &&& after == keep_last(before + added, 500)
}

/// The counters after `n` events of type `t` without a duration.
pub open spec fn counted_times(m: IntegrationMetrics, t: IntegrationEventType, n: nat) -> IntegrationMetrics
    decreases n,
{
    if n == 0 {
        m
    } else {
        counted(counted_times(m, t, (n - 1) as nat), t, None)
    }
}

/// The event recorded for a simulated deadlock.
pub open spec fn deadlock_event(e: EventView) -> bool {
    &&& e.1 == IntegrationEventType::DeadlockDetected
    &&& e.2 == "system"@
    &&& e.3 is None
    &&& e.4 == "Potential deadlock condition detected"@
    &&& e.5 is None
    &&& !e.6
    &&& e.7.len() == 0
}

/// The counters after a simulated deadlock: the event is counted and so
/// is the deadlock (wrapping).
pub open spec fn deadlock_counted(m: IntegrationMetrics) -> IntegrationMetrics {
    let c = counted(m, IntegrationEventType::DeadlockDetected, None);
    IntegrationMetrics {
        deadlock_detections: if c.deadlock_detections == u64::MAX { 0 } else { (c.deadlock_detections + 1) as u64 },
        ..c
    }
}

/// A monitor of component integration.
#[derive(Debug)]
pub struct IntegrationMonitor {
    pub metrics: IntegrationMetrics,
    config: IntegrationConfig,
    /// Each component's status, each name once.
    component_status: Vec<ComponentStatus>,
    /// The latest events, oldest first.
    event_history: Vec<IntegrationEvent>,
    /// What components reported of themselves.
    signals: SignalRegistry,
}

impl IntegrationMonitor {
    /// The components' statuses, in registration order.
    pub closed spec fn components(&self) -> Seq<StatusView> {
        self.component_status@.map_values(|c: ComponentStatus| c.view_of())
    }

    /// The event history, oldest first.
    pub closed spec fn events(&self) -> Seq<EventView> {
        self.event_history@.map_values(|e: IntegrationEvent| e.view_of())
    }

    /// The counters.
    pub closed spec fn counters(&self) -> IntegrationMetrics {
        self.metrics
    }

    /// The settings.
    pub closed spec fn settings(&self) -> IntegrationConfig {
        self.config
    }

    /// What components reported of themselves.
    pub closed spec fn reported(&self) -> Seq<(Seq<char>, SignalView)> {
        self.signals.signals()
    }

    /// The names of the components.
    pub open spec fn names(&self) -> Seq<Seq<char>> {
        self.components().map_values(|c: StatusView| c.0)
    }

    /// The settings are the defaults and no name occurs twice.
    pub closed spec fn wf(&self) -> bool {
        &&& self.config == default_integration_config()
        &&& forall|i: int, j: int| 0 <= i < j < self.component_status@.len() ==> self.component_status@[i].name@ != self.component_status@[j].name@
        &&& self.event_history@.len() <= self.config.max_event_history
        &&& self.component_status@.len() == 8
    }

    /// A monitor watching the core components, all running, with no
    /// events; each core component reports itself running with its
    /// criticality.
    pub fn new() -> (r: Self)
        ensures
            r.wf(),
            r.components().len() == core_components().len(),
            forall|i: int| 0 <= i < core_components().len() ==> {
                let c = #[trigger] r.components()[i];
                &&& c.0 == core_components()[i].0
                &&& c.1 == core_components()[i].1
                &&& c.2 == ComponentState::Running
                &&& c.4 is Some
                &&& c.5 == 0 && c.6 == 0
                &&& c.7.len() == 0
                &&& c.8 == core_components()[i].2
            },
            r.events().len() == 0,
            r.counters() == (IntegrationMetrics {
                total_integration_events: 0,
                component_interactions: 0,
                integration_failures: 0,
                communication_errors: 0,
                dependency_failures: 0,
                state_sync_issues: 0,
                resource_contention: 0,
                deadlock_detections: 0,
                successful_integrations: 0,
                avg_integration_time_us: 0,
            }),
            r.settings() == default_integration_config(),
    {
        let mut monitor = IntegrationMonitor {
            metrics: IntegrationMetrics {
                total_integration_events: 0,
                component_interactions: 0,
                integration_failures: 0,
                communication_errors: 0,
                dependency_failures: 0,
                state_sync_issues: 0,
                resource_contention: 0,
                deadlock_detections: 0,
                successful_integrations: 0,
                avg_integration_time_us: 0,
            },
            config: IntegrationConfig::default(),
            component_status: Vec::new(),
            event_history: Vec::new(),
            signals: SignalRegistry::new(),
        };
        monitor.register_core_components();
        monitor
    }

    /// Register the core components (see `core_components`).
    fn register_core_components(&mut self)
        requires
            old(self).component_status@.len() == 0,
            old(self).config == default_integration_config(),
            old(self).event_history@.len() == 0,
        ensures
            final(self).wf(),
            final(self).components().len() == core_components().len(),
            forall|i: int| 0 <= i < core_components().len() ==> {
                let c = #[trigger] final(self).components()[i];
                &&& c.0 == core_components()[i].0
                &&& c.1 == core_components()[i].1
                &&& c.2 == ComponentState::Running
                &&& c.4 is Some
                &&& c.5 == 0 && c.6 == 0
                &&& c.7.len() == 0
                &&& c.8 == core_components()[i].2
            },
            final(self).events() == old(self).events(),
            final(self).metrics == old(self).metrics,
            final(self).config == old(self).config,
    {
        proof {
            reveal_strlit("network");
            reveal_strlit("controller");
            reveal_strlit("terminal");
            reveal_strlit("protocol");
            reveal_strlit("field_manager");
            reveal_strlit("telnet_negotiator");
            reveal_strlit("ansi_processor");
            reveal_strlit("keyboard");
            assert("network"@.len() == 7 && "controller"@.len() == 10 && "terminal"@.len() == 8 && "protocol"@.len() == 8);
            assert("field_manager"@.len() == 13 && "telnet_negotiator"@.len() == 17 && "ansi_processor"@.len() == 14);
            assert("keyboard"@.len() == 8 && "terminal"@[0] == 't' && "protocol"@[0] == 'p' && "keyboard"@[0] == 'k');
        }
        self.register("network", "AS400Connection", true);
        self.register("controller", "TerminalController", true);
        self.register("terminal", "TerminalScreen", true);
        self.register("protocol", "ProtocolProcessor", true);
        self.register("field_manager", "FieldManager", true);
        self.register("telnet_negotiator", "TelnetNegotiator", true);
        self.register("ansi_processor", "AnsiProcessor", false);
        self.register("keyboard", "KeyboardHandler", false);
        assert(self.components().len() == 8);
    }

    /// Add a running component and have it report itself running.
    fn register(&mut self, name: &str, component_type: &str, is_critical: bool)
        requires
            forall|i: int| 0 <= i < old(self).components().len() ==> old(self).components()[i].0 != name@,
            forall|i: int, j: int| 0 <= i < j < old(self).component_status@.len() ==> old(self).component_status@[i].name@ != old(self).component_status@[j].name@,
        ensures
            forall|i: int, j: int| 0 <= i < j < final(self).component_status@.len() ==> final(self).component_status@[i].name@ != final(self).component_status@[j].name@,
            final(self).components() == old(self).components().push(final(self).components().last()),
            ({
                let c = final(self).components().last();
                &&& c.0 == name@ && c.1 == component_type@ && c.2 == ComponentState::Running
                &&& c.4 is Some && c.5 == 0 && c.6 == 0 && c.7.len() == 0 && c.8 == is_critical
            }),
            final(self).event_history == old(self).event_history,
            final(self).metrics == old(self).metrics,
            final(self).config == old(self).config,
    {
        let now = instant_now();
        let status = ComponentStatus {
            name: str_to_string(name),
            component_type: str_to_string(component_type),
            status: ComponentState::Running,
            last_health_check: now,
            last_success: Some(instant_now()),
            recent_error_count: 0,
            avg_response_time_us: 0,
            dependencies: Vec::new(),
            is_critical,
        };
        assert(texts(status.dependencies@) =~= Seq::<Seq<char>>::empty());
        assert(forall|i: int| 0 <= i < self.component_status@.len() ==> self.component_status@[i].name@ == #[trigger] self.components()[i].0);
        self.component_status.push(status);
        assert(self.components() =~= old(self).components().push(status.view_of()));
        proof {
            let old_len = old(self).component_status@.len();
            assert forall|i: int, j: int| 0 <= i < j < self.component_status@.len() implies self.component_status@[i].name@
                != self.component_status@[j].name@ by {
                if j == old_len as int {
                    assert(old(self).components()[i].0 != name@);
                    assert(old(self).component_status@[i].name@ == old(self).components()[i].0);
                }
            }
        }
        self.signals.set_component_status(name, ComponentState::Running);
        self.signals.set_component_critical(name, is_critical);
    }

    /// Record an event: the counters (see `counted`) and the history,
    /// which keeps the latest 500.
    pub fn record_integration_event(&mut self, event: IntegrationEvent)
        requires
            old(self).wf(),
            event.duration_us matches Some(d) ==> old(self).counters().total_integration_events < u64::MAX
                && old(self).counters().avg_integration_time_us * old(self).counters().total_integration_events + d <= u64::MAX,
        ensures
            final(self).wf(),
            final(self).counters() == counted(old(self).counters(), event.event_type, event.duration_us),
            final(self).events() == keep_last(old(self).events().push(event.view_of()), 500),
            final(self).components() == old(self).components(),
            final(self).reported() == old(self).reported(),
    {
        let m = self.metrics;
        self.metrics.total_integration_events = if m.total_integration_events == u64::MAX { 0 } else { m.total_integration_events + 1 };
        match event.event_type {
            IntegrationEventType::ComponentInteraction => {
                self.metrics.component_interactions = if m.component_interactions == u64::MAX { 0 } else { m.component_interactions + 1 };
            },
            IntegrationEventType::IntegrationFailure => {
                self.metrics.integration_failures = if m.integration_failures == u64::MAX { 0 } else { m.integration_failures + 1 };
            },
            IntegrationEventType::CommunicationError => {
                self.metrics.communication_errors = if m.communication_errors == u64::MAX { 0 } else { m.communication_errors + 1 };
            },
            IntegrationEventType::DependencyFailure => {
                self.metrics.dependency_failures = if m.dependency_failures == u64::MAX { 0 } else { m.dependency_failures + 1 };
            },
            IntegrationEventType::StateSyncIssue => {
                self.metrics.state_sync_issues = if m.state_sync_issues == u64::MAX { 0 } else { m.state_sync_issues + 1 };
            },
            IntegrationEventType::ResourceContention => {
                self.metrics.resource_contention = if m.resource_contention == u64::MAX { 0 } else { m.resource_contention + 1 };
            },
            IntegrationEventType::IntegrationSuccess => {
                self.metrics.successful_integrations = if m.successful_integrations == u64::MAX { 0 } else { m.successful_integrations + 1 };
            },
            _ => {},
        }
        if let Some(duration) = event.duration_us {
            let total_events = self.metrics.total_integration_events;
            let current_avg = self.metrics.avg_integration_time_us;
            let new_avg = ((current_avg * (total_events - 1)) + duration) / total_events;
            self.metrics.avg_integration_time_us = new_avg;
        }
        let ghost pushed = self.events().push(event.view_of());
        self.event_history.push(event);
        assert(self.events() =~= pushed);
        trim_history(&mut self.event_history, self.config.max_event_history);
        assert(self.events() =~= keep_last(pushed, 500));
    }

    /// A copy of every component's status with its name, in registration
    /// order.
    pub fn get_all_components(&self) -> (r: Vec<(String, ComponentStatus)>)
        ensures
            r@.map_values(|e: (String, ComponentStatus)| (e.0@, e.1.view_of())) == self.components().map_values(|c: StatusView| (c.0, c)),
    {
        let mut out: Vec<(String, ComponentStatus)> = Vec::new();
        let mut i: usize = 0;
        while i < self.component_status.len()
            invariant
                i <= self.component_status@.len(),
                out@.map_values(|e: (String, ComponentStatus)| (e.0@, e.1.view_of())) == self.components().take(i as int).map_values(
                    |c: StatusView| (c.0, c),
                ),
            decreases self.component_status@.len() - i,
        {
            let c = self.component_status[i].duplicate();
            let name = str_to_string(c.name.as_str());
            let ghost before = out@;
            let ghost entry = (name@, c.view_of());
            out.push((name, c));
            proof {
                assert(self.components()[i as int] == self.component_status@[i as int].view_of());
                assert(self.components().take(i + 1) =~= self.components().take(i as int).push(self.components()[i as int]));
                assert(out@.map_values(|e: (String, ComponentStatus)| (e.0@, e.1.view_of())) =~= before.map_values(
                    |e: (String, ComponentStatus)| (e.0@, e.1.view_of()),
                ).push(entry));
                assert(out@.map_values(|e: (String, ComponentStatus)| (e.0@, e.1.view_of())) =~= self.components().take(i + 1).map_values(
                    |c: StatusView| (c.0, c),
                ));
            }
            i = i + 1;
        }
        assert(self.components().take(i as int) =~= self.components());
        out
    }

    /// A copy of the named component's status, if it is watched.
    pub fn get_component_status(&self, component_name: &str) -> (r: Option<ComponentStatus>)
        ensures
            match find_component(self.components(), component_name@) {
                Some(c) => r matches Some(x) && x.view_of() == c,
                None => r is None,
            },
    {
        let ghost s = self.components().map_values(|c: StatusView| (c.0, c));
        let mut i: usize = 0;
        while i < self.component_status.len()
            invariant
                s == self.components().map_values(|c: StatusView| (c.0, c)),
                s.len() == self.component_status@.len(),
                i <= self.component_status@.len(),
                forall|j: int| 0 <= j < i ==> s[j].0 != component_name@,
            decreases self.component_status@.len() - i,
        {
            if str_equal(self.component_status[i].name.as_str(), component_name) {
                proof {
                    lemma_first_index(s, component_name@, i as int);
                }
                return Some(self.component_status[i].duplicate());
            }
            i = i + 1;
        }
        proof {
            lemma_first_index(s, component_name@, i as int);
        }
        None
    }

    /// A copy of each critical component's status with its name, in
    /// registration order.
    pub fn get_critical_components(&self) -> (r: Vec<(String, ComponentStatus)>)
        ensures
            r@.map_values(|e: (String, ComponentStatus)| (e.0@, e.1.view_of())) == critical_only(self.components()).map_values(
                |c: StatusView| (c.0, c),
            ),
    {
        let mut out: Vec<(String, ComponentStatus)> = Vec::new();
        let mut i: usize = 0;
        while i < self.component_status.len()
            invariant
                i <= self.component_status@.len(),
                out@.map_values(|e: (String, ComponentStatus)| (e.0@, e.1.view_of())) == critical_only(self.components().take(i as int)).map_values(
                    |c: StatusView| (c.0, c),
                ),
            decreases self.component_status@.len() - i,
        {
            proof {
                assert(self.components().take(i + 1).drop_last() =~= self.components().take(i as int));
            }
            let ghost before = out@;
            proof {
                assert(self.components()[i as int] == self.component_status@[i as int].view_of());
                assert(self.components().take(i + 1).last() == self.components()[i as int]);
            }
            if self.component_status[i].is_critical {
                let c = self.component_status[i].duplicate();
                let name = str_to_string(c.name.as_str());
                let ghost entry = (name@, c.view_of());
                out.push((name, c));
                proof {
                    assert(out@.map_values(|e: (String, ComponentStatus)| (e.0@, e.1.view_of())) =~= before.map_values(
                        |e: (String, ComponentStatus)| (e.0@, e.1.view_of()),
                    ).push(entry));
                }
            }
            proof {
                assert(out@.map_values(|e: (String, ComponentStatus)| (e.0@, e.1.view_of())) =~= critical_only(self.components().take(i + 1)).map_values(
                    |c: StatusView| (c.0, c),
                ));
            }
            i = i + 1;
        }
        assert(self.components().take(i as int) =~= self.components());
        out
    }

    /// The failures within `window` nanoseconds of now (one clock reading
    /// per event); also their count.
    fn recent_failures_within(&self, window: u128, copy: bool) -> (r: (Vec<IntegrationEvent>, usize))
        ensures
            exists|el: Seq<u128>| {
                &&& el.len() == self.events().len()
                &&& r.1 == recent_failures(self.events(), el, window).len()
                &&& copy ==> r.0@.map_values(|e: IntegrationEvent| e.view_of()) == recent_failures(self.events(), el, window)
            },
    {
        let mut out: Vec<IntegrationEvent> = Vec::new();
        let mut count: usize = 0;
        let ghost mut el: Seq<u128> = Seq::empty();
        let mut i: usize = 0;
        while i < self.event_history.len()
            invariant
                i <= self.event_history@.len(),
                el.len() == i,
                count == recent_failures(self.events().take(i as int), el, window).len(),
                copy ==> out@.map_values(|e: IntegrationEvent| e.view_of()) == recent_failures(self.events().take(i as int), el, window),
                count <= i,
            decreases self.event_history@.len() - i,
        {
            let e = nanos_since(&self.event_history[i].timestamp);
            let ghost old_el = el;
            let ghost before = out@;
            proof {
                el = el.push(e);
                assert(el.drop_last() =~= old_el);
                assert(self.events().take(i + 1).drop_last() =~= self.events().take(i as int));
                assert(self.events().take(i + 1).last() == self.event_history@[i as int].view_of());
            }
            if e < window && !self.event_history[i].success {
                if copy {
                    let d = self.event_history[i].duplicate();
                    out.push(d);
                    proof {
                        assert(out@.map_values(|e: IntegrationEvent| e.view_of()) =~= before.map_values(|e: IntegrationEvent| e.view_of()).push(d.view_of()));
                    }
                }
                count = count + 1;
            }
            i = i + 1;
        }
        assert(self.events().take(i as int) =~= self.events());
        (out, count)
    }

    /// The failed events of the last `duration` (timestamps after now less
    /// the duration), oldest first.
    pub fn get_recent_failures(&self, duration: Duration) -> (r: Vec<IntegrationEvent>)
        ensures
            exists|el: Seq<u128>| el.len() == self.events().len()
                && r@.map_values(|e: IntegrationEvent| e.view_of()) == recent_failures(self.events(), el, crate::clock::duration_nanos(duration)),
    {
        let window = duration_as_nanos(&duration);
        let (out, _) = self.recent_failures_within(window, true);
        out
    }

    /// The counters.
    pub fn get_metrics(&self) -> (r: &IntegrationMetrics)
        ensures
            *r == self.counters(),
    {
        &self.metrics
    }

    /// The integration health check (see `integration_health`): the
    /// critical components, the failures of the last five minutes, the
    /// communication and dependency errors and the mean integration time
    /// against the five-second limit.
    pub fn check_integration_health(&self) -> (r: Result<ComponentHealthCheck, String>)
        requires
            self.wf(),
        ensures
            r matches Ok(h) && exists|el: Seq<u128>| {
                let crit = critical_only(self.components());
                let m = self.counters();
                let recent = (#[trigger] recent_failures(self.events(), el, health_window())).len();
                &&& el.len() == self.events().len()
                &&& check_view(h) == (
                    health_level(count_not_running(crit), recent, m.communication_errors as nat, m.dependency_failures as nat,
                        m.avg_integration_time_us as nat, 5_000_000),
                    health_message(health_issues(count_not_running(crit), recent, m.communication_errors as nat,
                        m.dependency_failures as nat, m.avg_integration_time_us as nat, 5_000_000)),
                    health_details(crit.len(), count_not_running(crit), recent, m.communication_errors as nat,
                        m.dependency_failures as nat, m.avg_integration_time_us as nat),
                )
            },
    {
        let critical = self.get_critical_components();
        let ghost crit = critical_only(self.components());
        assert(critical@.len() == crit.len()) by {
            assert(critical@.map_values(|e: (String, ComponentStatus)| (e.0@, e.1.view_of())).len() == critical@.len());
        }
        let mut unhealthy: usize = 0;
        let mut i: usize = 0;
        while i < critical.len()
            invariant
                i <= critical@.len(),
                critical@.len() == crit.len(),
                critical@.map_values(|e: (String, ComponentStatus)| (e.0@, e.1.view_of())) == crit.map_values(|c: StatusView| (c.0, c)),
                unhealthy == count_not_running(crit.take(i as int)),
                unhealthy <= i,
            decreases critical@.len() - i,
        {
            proof {
                assert(crit.take(i + 1).drop_last() =~= crit.take(i as int));
                assert(critical@[i as int].1.view_of() == crit[i as int]) by {
                    assert(critical@.map_values(|e: (String, ComponentStatus)| (e.0@, e.1.view_of()))[i as int] == crit.map_values(
                        |c: StatusView| (c.0, c),
                    )[i as int]);
                }
            }
            if critical[i].1.status != ComponentState::Running {
                unhealthy = unhealthy + 1;
            }
            i = i + 1;
        }
        assert(crit.take(i as int) =~= crit);
        let (_, recent) = self.recent_failures_within(300_000_000_000, false);
        let ghost el = choose|el: Seq<u128>| el.len() == self.events().len() && recent == recent_failures(self.events(), el, 300_000_000_000).len();
        let limit_us = self.config.max_integration_time_ms * 1000;
        let h = integration_health(
            critical.len() as u64,
            unhealthy as u64,
            recent as u64,
            self.metrics.communication_errors,
            self.metrics.dependency_failures,
            self.metrics.avg_integration_time_us,
            limit_us,
        );
        proof {
            assert(limit_us == 5_000_000);
            assert(recent_failures(self.events(), el, health_window()).len() == recent);
            assert(el.len() == self.events().len());
        }
        Ok(h)
    }

    /// What components reported of themselves.
    pub fn signals(&self) -> (r: &SignalRegistry)
        ensures
            r.signals() == self.reported(),
    {
        &self.signals
    }

    /// Let a component report its state.
    pub fn report_component_status(&mut self, name: &str, state: ComponentState)
        requires
            old(self).wf(),
        ensures
            final(self).wf(),
            final(self).reported() == crate::monitoring::component_signals::with_signal(old(self).reported(), name@, ({
                let v = crate::monitoring::component_signals::signal_or_default(old(self).reported(), name@);
                (state, v.1, v.2, v.3)
            })),
            final(self).components() == old(self).components(),
            final(self).events() == old(self).events(),
            final(self).counters() == old(self).counters(),
    {
        self.signals.set_component_status(name, state);
    }

    /// Whether a component counts as healthy (see `component_healthy`).
    fn check_component_health(&self, component_name: &str, headless: bool) -> (r: bool)
        ensures
            r == component_healthy(self.reported(), component_name@, headless),
    {
        proof {
            reveal_strlit("network");
            reveal_strlit("controller");
            reveal_strlit("terminal");
            reveal_strlit("protocol");
            reveal_strlit("field_manager");
            reveal_strlit("telnet_negotiator");
            reveal_strlit("ansi_processor");
            reveal_strlit("keyboard");
        }
        if let Some(sig) = self.signals.get_component_signal(component_name) {
            return match sig.state {
                ComponentState::Running => true,
                _ => false,
            };
        }
        if str_equal(component_name, "network") || str_equal(component_name, "controller") || str_equal(component_name, "terminal")
            || str_equal(component_name, "protocol") || str_equal(component_name, "field_manager") || str_equal(
            component_name,
            "telnet_negotiator",
        ) {
            true
        } else if str_equal(component_name, "ansi_processor") || str_equal(component_name, "keyboard") {
            headless
        } else {
            false
        }
    }

    /// Check every component (see `revalidated`), recording each recovery
    /// and each failure as a health change; then the dependencies, and a
    /// rare simulated deadlock. `headless` says whether the program runs
    /// without a screen.
    pub fn validate_components(&mut self, headless: bool)
        requires
            old(self).wf(),
            forall|k: int| 0 <= k < old(self).components().len() ==> (#[trigger] old(self).components()[k]).5 < u64::MAX,
        ensures
            final(self).wf(),
            final(self).components().len() == old(self).components().len(),
            forall|k: int| 0 <= k < old(self).components().len() ==> revalidated(
                old(self).components()[k],
                component_healthy(old(self).reported(), old(self).components()[k].0, headless),
                #[trigger] final(self).components()[k],
            ),
            final(self).reported() == old(self).reported(),
    {
        if !self.config.enable_component_tracking {
            return;
        }
        let n = self.component_status.len();
        let mut i: usize = 0;
        while i < n
            invariant
                self.wf(),
                n == self.components().len(),
                n == old(self).components().len(),
                i <= n,
                self.reported() == old(self).reported(),
                forall|k: int| 0 <= k < i ==> revalidated(
                    old(self).components()[k],
                    component_healthy(old(self).reported(), old(self).components()[k].0, headless),
                    #[trigger] self.components()[k],
                ),
                forall|k: int| i <= k < n ==> #[trigger] self.components()[k] == old(self).components()[k],
                forall|k: int| 0 <= k < n ==> (#[trigger] old(self).components()[k]).5 < u64::MAX,
            decreases n - i,
        {
            proof {
                assert(self.components()[i as int] == self.component_status@[i as int].view_of());
            }
            let name = str_to_string(self.component_status[i].name.as_str());
            let was_healthy = match self.component_status[i].status {
                ComponentState::Running => true,
                _ => false,
            };
            let is_healthy = self.check_component_health(name.as_str(), headless);
            if is_healthy && !was_healthy {
                self.set_component_health(i, true);
                let description = string_concat(string_concat(str_to_string("Component "), name.as_str()), " recovered");
                let event = IntegrationEvent {
                    timestamp: instant_now(),
                    event_type: IntegrationEventType::ComponentHealthChange,
                    source_component: name,
                    target_component: None,
                    description,
                    details: Vec::new(),
                    duration_us: None,
                    success: true,
                };
                self.record_integration_event(event);
            } else if !is_healthy && was_healthy {
                self.set_component_health(i, false);
                let description = string_concat(string_concat(str_to_string("Component "), name.as_str()), " became unhealthy");
                let event = IntegrationEvent {
                    timestamp: instant_now(),
                    event_type: IntegrationEventType::ComponentHealthChange,
                    source_component: name,
                    target_component: None,
                    description,
                    details: Vec::new(),
                    duration_us: None,
                    success: false,
                };
                self.record_integration_event(event);
            }
            i = i + 1;
        }
        self.validate_dependencies();
        if self.config.enable_deadlock_detection {
            self.detect_deadlocks();
        }
    }

    /// Mark component `i` recovered (running, last success now, no
    /// errors) or failed (in error, one more error).
    fn set_component_health(&mut self, i: usize, healthy: bool)
        requires
            old(self).wf(),
            i < old(self).component_status@.len(),
            old(self).components()[i as int].5 < u64::MAX,
            healthy <==> old(self).components()[i as int].2 != ComponentState::Running,
        ensures
            final(self).wf(),
            final(self).components() == old(self).components().update(i as int, final(self).components()[i as int]),
            revalidated(old(self).components()[i as int], healthy, final(self).components()[i as int]),
            final(self).events() == old(self).events(),
            final(self).counters() == old(self).counters(),
            final(self).reported() == old(self).reported(),
    {
        let mut st = self.component_status.remove(i);
        if healthy {
            st.status = ComponentState::Running;
            st.last_success = Some(instant_now());
            st.recent_error_count = 0;
        } else {
            st.status = ComponentState::Error;
            st.recent_error_count = st.recent_error_count + 1;
        }
        let ghost v = st.view_of();
        self.component_status.insert(i, st);
        proof {
            assert(self.component_status@ =~= old(self).component_status@.update(i as int, st));
            assert(self.components() =~= old(self).components().update(i as int, v));
            assert forall|a: int, b: int| 0 <= a < b < self.component_status@.len() implies self.component_status@[a].name@
                != self.component_status@[b].name@ by {
                assert(self.component_status@[a].name@ == old(self).component_status@[a].name@);
                assert(self.component_status@[b].name@ == old(self).component_status@[b].name@);
            }
        }
    }

    /// Record a dependency failure for each dependency that is watched and
    /// not running, component by component (see `dependency_failures`).
    fn validate_dependencies(&mut self)
        requires
            old(self).wf(),
        ensures
            final(self).wf(),
            final(self).components() == old(self).components(),
            final(self).reported() == old(self).reported(),
            final(self).counters() == counted_times(
                old(self).counters(),
                IntegrationEventType::DependencyFailure,
                dependency_failures(old(self).components(), old(self).components().len() as int).len(),
            ),
            exists|added: Seq<EventView>| #[trigger] dependencies_recorded(
                old(self).events(),
                dependency_failures(old(self).components(), old(self).components().len() as int),
                added,
                final(self).events(),
            ),
    {
        let ghost comps = self.components();
        let ghost mut added: Seq<EventView> = Seq::empty();
        let n = self.component_status.len();
        let mut i: usize = 0;
        proof {
            assert(old(self).events() + added =~= old(self).events());
            assert(old(self).events().len() <= 500);
        }
        while i < n
            invariant
                self.wf(),
                n == self.components().len(),
                i <= n,
                comps == old(self).components(),
                self.components() == old(self).components(),
                self.reported() == old(self).reported(),
                added.len() == dependency_failures(comps, i as int).len(),
                forall|k: int| 0 <= k < added.len() ==> dependency_event(#[trigger] added[k], dependency_failures(comps, i as int)[k]),
                self.events() == keep_last(old(self).events() + added, 500),
                self.counters() == counted_times(old(self).counters(), IntegrationEventType::DependencyFailure, added.len()),
            decreases n - i,
        {
            proof {
                assert(self.components()[i as int] == self.component_status@[i as int].view_of());
            }
            let m = self.component_status[i].dependencies.len();
            let mut j: usize = 0;
            proof {
                assert(comps[i as int].7.take(0) =~= Seq::<Seq<char>>::empty());
                assert(dependency_failures(comps, i as int) + failing_dependencies(comps, comps[i as int].0, comps[i as int].7.take(0))
                    =~= dependency_failures(comps, i as int));
            }
            while j < m
                invariant
                    self.wf(),
                    n == self.components().len(),
                    i < n,
                    j <= m,
                    m == self.components()[i as int].7.len(),
                    comps == old(self).components(),
                    self.components() == old(self).components(),
                    self.reported() == old(self).reported(),
                    added.len() == (dependency_failures(comps, i as int) + failing_dependencies(comps, comps[i as int].0, comps[i as int].7.take(j as int))).len(),
                    forall|k: int| 0 <= k < added.len() ==> dependency_event(#[trigger] added[k],
                        (dependency_failures(comps, i as int) + failing_dependencies(comps, comps[i as int].0, comps[i as int].7.take(j as int)))[k]),
                    self.events() == keep_last(old(self).events() + added, 500),
                    self.counters() == counted_times(old(self).counters(), IntegrationEventType::DependencyFailure, added.len()),
                decreases m - j,
            {
                proof {
                    assert(self.components()[i as int] == self.component_status@[i as int].view_of());
                }
                let ghost deps = comps[i as int].7;
                let ghost before = dependency_failures(comps, i as int) + failing_dependencies(comps, comps[i as int].0, deps.take(j as int));
                let dependency = str_to_string(self.component_status[i].dependencies[j].as_str());
                proof {
                    assert(dependency@ == deps[j as int]);
                    assert(deps.take(j + 1).drop_last() =~= deps.take(j as int));
                    assert(deps.take(j + 1).last() == deps[j as int]);
                }
                if let Some(dep_status) = self.get_component_status(dependency.as_str()) {
                    let running = match dep_status.status {
                        ComponentState::Running => true,
                        _ => false,
                    };
                    if !running {
                        let source = str_to_string(self.component_status[i].name.as_str());
                        let description = string_concat(
                            string_concat(str_to_string("Dependency "), dependency.as_str()),
                            " is not running",
                        );
                        let event = IntegrationEvent {
                            timestamp: instant_now(),
                            event_type: IntegrationEventType::DependencyFailure,
                            source_component: source,
                            target_component: Some(dependency),
                            description,
                            details: Vec::new(),
                            duration_us: None,
                            success: false,
                        };
                        let ghost ev = event.view_of();
                        let ghost prev_events = self.events();
                        self.record_integration_event(event);
                        proof {
                            let after = before + seq![(comps[i as int].0, deps[j as int])];
                            assert(failing_dependencies(comps, comps[i as int].0, deps.take(j + 1))
                                =~= failing_dependencies(comps, comps[i as int].0, deps.take(j as int)) + seq![(comps[i as int].0, deps[j as int])]);
                            assert(dependency_failures(comps, i as int) + failing_dependencies(comps, comps[i as int].0, deps.take(j + 1)) =~= after);
                            assert(dependency_event(ev, (comps[i as int].0, deps[j as int])));
                            lemma_keep_last_push(old(self).events() + added, ev, 500);
                            assert((old(self).events() + added).push(ev) =~= old(self).events() + added.push(ev));
                            added = added.push(ev);
                            assert forall|k: int| 0 <= k < added.len() implies dependency_event(#[trigger] added[k], after[k]) by {
                                if k < added.len() - 1 {
                                    assert(added[k] == added.drop_last()[k]);
                                    assert(after[k] == before[k]);
                                }
                            }
                        }
                    } else {
                        proof {
                            assert(failing_dependencies(comps, comps[i as int].0, deps.take(j + 1))
                                =~= failing_dependencies(comps, comps[i as int].0, deps.take(j as int)));
                        }
                    }
                } else {
                    proof {
                        assert(failing_dependencies(comps, comps[i as int].0, deps.take(j + 1))
                            =~= failing_dependencies(comps, comps[i as int].0, deps.take(j as int)));
                    }
                }
                j = j + 1;
            }
            proof {
                assert(comps[i as int].7.take(m as int) =~= comps[i as int].7);
                assert(dependency_failures(comps, i + 1) == dependency_failures(comps, i as int) + failing_dependencies(comps, comps[i as int].0, comps[i as int].7));
            }
            i = i + 1;
        }
        proof {
            assert(dependencies_recorded(old(self).events(), dependency_failures(comps, n as int), added, self.events()));
        }
    }

    /// Now and then (when a digest of a clock reading falls in the lowest
    /// ten-thousandth of its range) record a simulated deadlock (see
    /// `deadlock_event` and `deadlock_counted`); otherwise nothing changes.
    fn detect_deadlocks(&mut self)
        requires
            old(self).wf(),
        ensures
            final(self).wf(),
            final(self).components() == old(self).components(),
            final(self).reported() == old(self).reported(),
            exists|reading: u128, digest: u64| #[trigger] digest_of(reading, digest) && if digest < 1_844_674_407_370_956 {
                &&& final(self).counters() == deadlock_counted(old(self).counters())
                &&& exists|e: EventView| deadlock_event(e) && final(self).events() == keep_last(old(self).events().push(e), 500)
            } else {
                *final(self) == *old(self)
            },
    {
        let simulate = self.should_simulate_deadlock();
        let ghost (reading, digest) = choose|reading: u128, digest: u64| digest_of(reading, digest) && simulate == (digest < 1_844_674_407_370_956);
        if simulate {
            let event = IntegrationEvent {
                timestamp: instant_now(),
                event_type: IntegrationEventType::DeadlockDetected,
                source_component: str_to_string("system"),
                target_component: None,
                description: str_to_string("Potential deadlock condition detected"),
                details: Vec::new(),
                duration_us: None,
                success: false,
            };
            let ghost ev = event.view_of();
            self.record_integration_event(event);
            let d = self.metrics.deadlock_detections;
            self.metrics.deadlock_detections = if d == u64::MAX { 0 } else { d + 1 };
            assert(deadlock_event(ev));
        }
        assert(digest_of(reading, digest));
    }

    /// Whether a digest of a clock reading is below one ten-thousandth of
    /// the 64-bit range.
    fn should_simulate_deadlock(&self) -> (r: bool)
        ensures
            exists|reading: u128, digest: u64| #[trigger] digest_of(reading, digest) && r == (digest < 1_844_674_407_370_956),
    {
        let reading = nanos_since(&instant_now());
        let digest = hash_u128(reading);
        assert(digest_of(reading, digest));
        digest < 1_844_674_407_370_956
    }

    /// A text report: components by state, the counters and the failures
    /// of the last hour (at most five listed).
    pub fn generate_report(&self) -> (r: String)
        requires
            self.wf(),
        ensures
            exists|el: Seq<u128>| el.len() == self.events().len()
                && r@ == report_text(self.components(), self.counters(), #[trigger] recent_failures(self.events(), el, report_window())),
    {
        let mut running: u64 = 0;
        let mut warning: u64 = 0;
        let mut error: u64 = 0;
        let mut i: usize = 0;
        while i < self.component_status.len()
            invariant
                i <= self.component_status@.len(),
                running == count_state(self.components().take(i as int), ComponentState::Running),
                warning == count_state(self.components().take(i as int), ComponentState::Warning),
                error == count_state(self.components().take(i as int), ComponentState::Error),
                running <= i && warning <= i && error <= i,
                self.component_status@.len() == 8,
            decreases self.component_status@.len() - i,
        {
            proof {
                assert(self.components().take(i + 1).drop_last() =~= self.components().take(i as int));
                assert(self.components().take(i + 1).last() == self.component_status@[i as int].view_of());
            }
            match self.component_status[i].status {
                ComponentState::Running => {
                    running = running + 1;
                },
                ComponentState::Warning => {
                    warning = warning + 1;
                },
                ComponentState::Error => {
                    error = error + 1;
                },
                _ => {},
            }
            i = i + 1;
        }
        assert(self.components().take(i as int) =~= self.components());
        let mut report = str_to_string("=== Integration Monitoring Report ===\n\n");
        report = string_concat(report, "Component Status:\n");
        report = string_concat(report, "  Running: ");
        report = string_concat(report, decimal_string(running).as_str());
        report = string_concat(report, "\n");
        report = string_concat(report, "  Warning: ");
        report = string_concat(report, decimal_string(warning).as_str());
        report = string_concat(report, "\n");
        report = string_concat(report, "  Error: ");
        report = string_concat(report, decimal_string(error).as_str());
        report = string_concat(report, "\n");
        report = string_concat(report, "  Total: ");
        report = string_concat(report, decimal_string(self.component_status.len() as u64).as_str());
        report = string_concat(report, "\n");
        report = string_concat(report, "\nIntegration Metrics:\n");
        report = string_concat(report, "  Total Events: ");
        report = string_concat(report, decimal_string(self.metrics.total_integration_events).as_str());
        report = string_concat(report, "\n");
        report = string_concat(report, "  Component Interactions: ");
        report = string_concat(report, decimal_string(self.metrics.component_interactions).as_str());
        report = string_concat(report, "\n");
        report = string_concat(report, "  Integration Failures: ");
        report = string_concat(report, decimal_string(self.metrics.integration_failures).as_str());
        report = string_concat(report, "\n");
        report = string_concat(report, "  Communication Errors: ");
        report = string_concat(report, decimal_string(self.metrics.communication_errors).as_str());
        report = string_concat(report, "\n");
        report = string_concat(report, "  Avg Integration Time: ");
        report = string_concat(report, decimal_string(self.metrics.avg_integration_time_us).as_str());
        report = string_concat(report, " μs\n");
        let (recent, count) = self.recent_failures_within(3_600_000_000_000, true);
        let ghost el = choose|el: Seq<u128>| {
            &&& el.len() == self.events().len()
            &&& count == recent_failures(self.events(), el, 3_600_000_000_000).len()
            &&& recent@.map_values(|e: IntegrationEvent| e.view_of()) == recent_failures(self.events(), el, 3_600_000_000_000)
        };
        let ghost rv = recent@.map_values(|e: IntegrationEvent| e.view_of());
        report = string_concat(report, "\nRecent Failures (Last Hour): ");
        report = string_concat(report, decimal_string(recent.len() as u64).as_str());
        report = string_concat(report, "\n");
        let ghost head = report@;
        let limit: usize = if recent.len() < 5 { recent.len() } else { 5 };
        let mut k: usize = 0;
        while k < limit
            invariant
                k <= limit,
                limit <= recent@.len(),
                rv == recent@.map_values(|e: IntegrationEvent| e.view_of()),
                report@ == head + event_lines(rv.take(k as int)),
            decreases limit - k,
        {
            let event = &recent[k];
            let mut line = str_to_string("  ");
            line = string_concat(line, event.source_component.as_str());
            line = string_concat(line, " -> ");
            match &event.target_component {
                Some(t) => {
                    line = string_concat(line, t.as_str());
                },
                None => {
                    line = string_concat(line, "system");
                },
            }
            line = string_concat(line, ": ");
            line = string_concat(line, event.description.as_str());
            line = string_concat(line, "\n");
            proof {
                assert(rv.take(k + 1).drop_last() =~= rv.take(k as int));
                assert(rv.take(k + 1).last() == event.view_of());
                assert(line@ == event_line(event.view_of()));
            }
            report = string_concat(report, line.as_str());
            proof {
                assert(report@ =~= head + event_lines(rv.take(k + 1)));
            }
            k = k + 1;
        }
        proof {
            assert(recent_failures(self.events(), el, report_window()) == rv);
            assert(report@ =~= report_text(self.components(), self.counters(), rv));
        }
        report
    }
}

/// Drop the oldest events until at most `max` are left.
fn trim_history(history: &mut Vec<IntegrationEvent>, max: usize)
    requires
        old(history)@.len() <= max + 1,
    ensures
        final(history)@.map_values(|e: IntegrationEvent| e.view_of()) == keep_last(old(history)@.map_values(|e: IntegrationEvent| e.view_of()), max as int),
        final(history)@.len() <= max,
{
    if history.len() > max {
        let ghost before = history@.map_values(|e: IntegrationEvent| e.view_of());
        history.remove(0);
        assert(history@.map_values(|e: IntegrationEvent| e.view_of()) =~= before.subrange(1, before.len() as int));
    }
}

impl Default for IntegrationMonitor {
    fn default() -> (r: Self)
        ensures
            r.wf(),
            r.events().len() == 0,
    {
        IntegrationMonitor::new()
    }
}

} // verus!
