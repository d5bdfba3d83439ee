//! Health reporting shared by the monitors: health levels, per-component
//! health and the result of a component check.

use vstd::prelude::*;
use std::time::{Duration, Instant};
use crate::clock::instant_now;
use crate::lib5250::telnet::{first_index, insert_entry, lemma_first_index, lookup};
use crate::monitoring::alerting_system::{new_alert_id, trigger_outcome, AlertView};
use crate::monitoring::integration_monitor::check_view;
use crate::text::{decimal_seq, decimal_string, parse_u64, parsed_u64, str_equal, str_to_string, string_concat};

pub mod alerting_system;
pub mod component_signals;
pub mod integration_monitor;
pub mod security_monitor;
pub mod quality_assurance;
pub mod runtime_validator;

pub use alerting_system::{Alert, AlertConfig, AlertHandler, AlertLevel, AlertMetrics, AlertingSystem, LoggingAlertHandler};
pub use component_signals::{ComponentSignal, SignalRegistry};
pub use quality_assurance::{
    QualityAssurance, QualityConfig, QualityMetrics, SimulatedTest, TestCase, TestCategory, TestFunction, TestResult, TestSuite,
    ValidationResult,
};
pub use runtime_validator::{RuntimeMetrics, RuntimeValidator, ValidationConfig};
pub use security_monitor::{
    SecurityConfig, SecurityEvent, SecurityEventSeverity, SecurityEventType, SecurityMetrics, SecurityMonitor,
};
pub use integration_monitor::{
    ComponentState, ComponentStatus, IntegrationConfig, IntegrationEvent, IntegrationEventType, IntegrationMetrics,
    IntegrationMonitor,
};

verus! {

/// How healthy a system or component is.
#[derive(Debug, Clone, Copy, PartialEq, Eq, Structural)]
pub enum HealthStatus {
    /// Operating normally.
    Healthy,
    /// Minor issues; still functional.
    Warning,
    /// Critical issues; may be unstable.
    Critical,
    /// Down or not functional.
    Down,
}

/// Memory figures in bytes and allocation counts.
#[derive(Debug, Clone, Copy, PartialEq, Eq, Structural)]
pub struct MemoryInfo {
    pub current_usage: u64,
    pub peak_usage: u64,
    pub allocations: u64,
    pub deallocations: u64,
}

/// The health of one component.
#[derive(Debug, Clone)]
pub struct ComponentHealth {
    pub name: String,
    pub status: HealthStatus,
    /// When it last succeeded.
    pub last_success: Option<Instant>,
    /// Errors in the last hour.
    pub error_count: u64,
    pub response_time_ms: u64,
}

/// The health of the whole system.
#[derive(Debug)]
pub struct SystemHealth {
    pub status: HealthStatus,
    /// When it was last checked.
    pub last_check: Instant,
    pub consecutive_failures: u32,
    /// Each component's health by name.
    pub component_health: Vec<(String, ComponentHealth)>,
    pub uptime: Duration,
    pub memory_usage: MemoryInfo,
}

/// The result of a component health check: a level, a message and named
/// details.
#[derive(Debug, Clone)]
pub struct ComponentHealthCheck {
    pub status: HealthStatus,
    pub message: String,
    /// (name, value) pairs in the order they were added.
    pub details: Vec<(String, String)>,
}

/// The result of a health check of all components.
#[derive(Debug)]
pub struct HealthCheckResult {
    pub overall_status: HealthStatus,
    pub component_results: Vec<(String, ComponentHealthCheck)>,
    /// When the check ran.
    pub timestamp: Instant,
    pub check_duration_ms: u64,
}

/// A component check as plain values: level, message and details.
pub type CheckView = (HealthStatus, Seq<char>, Seq<(Seq<char>, Seq<char>)>);

/// A component check as the system health check takes it: the check
/// itself, or, when it could not be made, a critical check whose message
/// is the label, " failed: " and the error.
pub open spec fn checked_view(result: Result<ComponentHealthCheck, String>, label: Seq<char>) -> CheckView {
    match result {
        Ok(c) => check_view(c),
        Err(e) => (HealthStatus::Critical, label + " failed: "@ + e@, Seq::empty()),
    }
}

/// The overall level and the count of critical components after one more
/// component: a critical or down component makes the whole critical and
/// counts; a warning makes a healthy whole a warning.
pub open spec fn fold_level(acc: (HealthStatus, nat), c: HealthStatus) -> (HealthStatus, nat) {
    if c == HealthStatus::Critical || c == HealthStatus::Down {
        (HealthStatus::Critical, acc.1 + 1)
    } else if c == HealthStatus::Warning && acc.0 == HealthStatus::Healthy {
        (HealthStatus::Warning, acc.1)
    } else {
        acc
    }
}

/// The overall level and the critical count of a list of component levels.
pub open spec fn fold_levels(levels: Seq<HealthStatus>) -> (HealthStatus, nat)
    decreases levels.len(),
{
    if levels.len() == 0 {
        (HealthStatus::Healthy, 0)
    } else {
        fold_level(fold_levels(levels.drop_last()), levels.last())
    }
}

/// Named checks as plain values.
pub open spec fn results_view(v: Seq<(String, ComponentHealthCheck)>) -> Seq<(Seq<char>, CheckView)> {
    v.map_values(|p: (String, ComponentHealthCheck)| (p.0@, check_view(p.1)))
}

/// The four named checks of a system health check, in order: runtime,
/// performance, security and integration.
pub open spec fn system_checks(
    runtime: Result<ComponentHealthCheck, String>,
    performance: Result<ComponentHealthCheck, String>,
    security: Result<ComponentHealthCheck, String>,
    integration: Result<ComponentHealthCheck, String>,
) -> Seq<(Seq<char>, CheckView)> {
    seq![
        ("runtime"@, checked_view(runtime, "Runtime validation"@)),
        ("performance"@, checked_view(performance, "Performance check"@)),
        ("security"@, checked_view(security, "Security check"@)),
        ("integration"@, checked_view(integration, "Integration check"@)),
    ]
}

/// The levels of named checks.
pub open spec fn levels_of(checks: Seq<(Seq<char>, CheckView)>) -> Seq<HealthStatus> {
    checks.map_values(|c: (Seq<char>, CheckView)| c.1.0)
}

/// Add one component check: the check (or its failure) joins the list and
/// the overall level and critical count follow `fold_level`.
fn fold_check(
    results: &mut Vec<(String, ComponentHealthCheck)>,
    acc: (HealthStatus, u32),
    name: &str,
    label: &str,
    result: Result<ComponentHealthCheck, String>,
) -> (r: (HealthStatus, u32))
    requires
        acc.1 < u32::MAX,
    ensures
        results_view(final(results)@) == results_view(old(results)@).push((name@, checked_view(result, label@))),
        (r.0, r.1 as nat) == fold_level((acc.0, acc.1 as nat), checked_view(result, label@).0),
{
    let ghost cv = checked_view(result, label@);
    let check = match result {
        Ok(c) => c,
        Err(e) => {
            let m = string_concat(str_to_string(label), " failed: ");
            ComponentHealthCheck {
                status: HealthStatus::Critical,
                message: string_concat(m, e.as_str()),
                details: Vec::new(),
            }
        },
    };
    assert(check_view(check) =~~= cv);
    let level = check.status;
    let ghost before = results@;
    results.push((str_to_string(name), check));
    assert(results_view(results@) =~= results_view(before).push((name@, cv)));
    match level {
        HealthStatus::Critical | HealthStatus::Down => (HealthStatus::Critical, acc.1 + 1),
        HealthStatus::Warning => {
            if let HealthStatus::Healthy = acc.0 {
                (HealthStatus::Warning, acc.1)
            } else {
                acc
            }
        },
        HealthStatus::Healthy => acc,
    }
}

/// Fold the four component checks (see `system_checks`) into a system
/// health result with its critical count; the result's duration is left
/// at zero for the caller.
pub fn assess_checks(
    runtime: Result<ComponentHealthCheck, String>,
    performance: Result<ComponentHealthCheck, String>,
    security: Result<ComponentHealthCheck, String>,
    integration: Result<ComponentHealthCheck, String>,
) -> (r: (HealthCheckResult, u32))
    ensures
        results_view(r.0.component_results@) == system_checks(runtime, performance, security, integration),
        (r.0.overall_status, r.1 as nat) == fold_levels(levels_of(system_checks(runtime, performance, security, integration))),
        r.0.check_duration_ms == 0,
{
    let ghost checks = system_checks(runtime, performance, security, integration);
    let ghost l = levels_of(checks);
    let mut results: Vec<(String, ComponentHealthCheck)> = Vec::new();
    let acc = (HealthStatus::Healthy, 0u32);
    assert(l.take(0) =~= Seq::<HealthStatus>::empty());
    assert(fold_levels(l.take(0)) == (HealthStatus::Healthy, 0nat));
    let acc = fold_check(&mut results, acc, "runtime", "Runtime validation", runtime);
    assert(l.take(1).drop_last() =~= l.take(0));
    assert(l.take(1).last() == checked_view(runtime, "Runtime validation"@).0);
    assert((acc.0, acc.1 as nat) == fold_levels(l.take(1)));
    let acc = fold_check(&mut results, acc, "performance", "Performance check", performance);
    assert(l.take(2).drop_last() =~= l.take(1));
    assert(l.take(2).last() == checked_view(performance, "Performance check"@).0);
    assert((acc.0, acc.1 as nat) == fold_levels(l.take(2)));
    let acc = fold_check(&mut results, acc, "security", "Security check", security);
    assert(l.take(3).drop_last() =~= l.take(2));
    assert(l.take(3).last() == checked_view(security, "Security check"@).0);
    assert((acc.0, acc.1 as nat) == fold_levels(l.take(3)));
    let acc = fold_check(&mut results, acc, "integration", "Integration check", integration);
    assert(l.take(4).drop_last() =~= l.take(3));
    assert(l.take(4).last() == checked_view(integration, "Integration check"@).0);
    assert((acc.0, acc.1 as nat) == fold_levels(l.take(4)));
    assert(l.take(4) =~= l);
    assert(results_view(results@) =~= checks);
    (HealthCheckResult { overall_status: acc.0, component_results: results, timestamp: instant_now(), check_duration_ms: 0 }, acc.1)
}

/// A component's health as plain values: name, level, whether it has a
/// last success, error count and response time.
pub type HealthView = (Seq<char>, HealthStatus, bool, u64, u64);

impl ComponentHealth {
    /// The health as plain values.
    pub open spec fn view_of(&self) -> HealthView {
        (self.name@, self.status, self.last_success is Some, self.error_count, self.response_time_ms)
    }
}

/// Named component healths as plain values.
pub open spec fn health_entries(v: Seq<(String, ComponentHealth)>) -> Seq<(Seq<char>, HealthView)> {
    v.map_values(|p: (String, ComponentHealth)| (p.0@, p.1.view_of()))
}

/// The number under a detail's name: its value read as a decimal number
/// (see `parsed_u64`), or 0 when the detail is missing or not a number.
pub open spec fn detail_number(details: Seq<(Seq<char>, Seq<char>)>, key: Seq<char>) -> u64 {
    match lookup(details, key) {
        Some(v) => match parsed_u64(v) {
            Some(n) => n,
            None => 0,
        },
        None => 0,
    }
}

/// The health a component check gives: its level, a last success exactly
/// when healthy, and the "error_count" and "response_time_ms" details.
pub open spec fn health_from(name: Seq<char>, c: CheckView) -> HealthView {
    (name, c.0, c.0 == HealthStatus::Healthy, detail_number(c.2, "error_count"@), detail_number(c.2, "response_time_ms"@))
}

/// Component healths after taking in named checks one after the other,
/// each replacing the entry of its name or joining at the end.
pub open spec fn updated_health(entries: Seq<(Seq<char>, HealthView)>, results: Seq<(Seq<char>, CheckView)>) -> Seq<(Seq<char>, HealthView)>
    decreases results.len(),
{
    if results.len() == 0 {
        entries
    } else {
        let e = updated_health(entries, results.drop_last());
        insert_entry(e, results.last().0, health_from(results.last().0, results.last().1))
    }
}

/// The number under a detail's name (see `detail_number`).
fn detail_value(details: &Vec<(String, String)>, key: &str) -> (r: u64)
    ensures
        r == detail_number(details@.map_values(|p: (String, String)| (p.0@, p.1@)), key@),
{
    let ghost dv = details@.map_values(|p: (String, String)| (p.0@, p.1@));
    let mut i: usize = 0;
    while i < details.len()
        invariant
            i <= details@.len(),
            dv == details@.map_values(|p: (String, String)| (p.0@, p.1@)),
            forall|j: int| 0 <= j < i ==> dv[j].0 != key@,
        decreases details@.len() - i,
    {
        if str_equal(details[i].0.as_str(), key) {
            proof {
                lemma_first_index(dv, key@, i as int);
            }
            return match parse_u64(details[i].1.as_str()) {
                Some(n) => n,
                None => 0,
            };
        }
        i = i + 1;
    }
    proof {
        lemma_first_index(dv, key@, i as int);
    }
    0
}

/// Set the health of the named component (see `insert_entry`).
fn put_health(entries: &mut Vec<(String, ComponentHealth)>, name: String, h: ComponentHealth)
    ensures
        health_entries(final(entries)@) == insert_entry(health_entries(old(entries)@), name@, h.view_of()),
{
    let ghost ev = health_entries(entries@);
    let mut i: usize = 0;
    while i < entries.len()
        invariant
            i <= entries@.len(),
            entries@ == old(entries)@,
            ev == health_entries(entries@),
            forall|j: int| 0 <= j < i ==> ev[j].0 != name@,
        decreases entries@.len() - i,
    {
        if str_equal(entries[i].0.as_str(), name.as_str()) {
            proof {
                lemma_first_index(ev, name@, i as int);
            }
            let ghost hv = h.view_of();
            let ghost nv = name@;
            entries.set(i, (name, h));
            assert(health_entries(entries@) =~= ev.update(i as int, (nv, hv)));
            return;
        }
        i = i + 1;
    }
    proof {
        lemma_first_index(ev, name@, i as int);
    }
    let ghost hv = h.view_of();
    let ghost nv = name@;
    entries.push((name, h));
    assert(health_entries(entries@) =~= ev.push((nv, hv)));
}

/// Take a system health result into the system health: its level, the
/// count of consecutive unhealthy checks (reset when healthy), and a
/// health entry per component (see `updated_health`).
pub fn update_system_health(health: &mut SystemHealth, result: &HealthCheckResult)
    requires
        result.overall_status != HealthStatus::Healthy ==> old(health).consecutive_failures < u32::MAX,
    ensures
        final(health).status == result.overall_status,
        final(health).consecutive_failures == if result.overall_status == HealthStatus::Healthy {
            0
        } else {
            (old(health).consecutive_failures + 1) as u32
        },
        health_entries(final(health).component_health@) == updated_health(
            health_entries(old(health).component_health@),
            results_view(result.component_results@),
        ),
        final(health).uptime == old(health).uptime,
        final(health).memory_usage == old(health).memory_usage,
{
    health.status = result.overall_status;
    health.last_check = instant_now();
    if let HealthStatus::Healthy = result.overall_status {
        health.consecutive_failures = 0;
    } else {
        health.consecutive_failures = health.consecutive_failures + 1;
    }
    let ghost rv = results_view(result.component_results@);
    let ghost start = health_entries(old(health).component_health@);
    let mut i: usize = 0;
    while i < result.component_results.len()
        invariant
            i <= result.component_results@.len(),
            rv == results_view(result.component_results@),
            health_entries(health.component_health@) == updated_health(start, rv.take(i as int)),
            health.status == result.overall_status,
            health.consecutive_failures == if result.overall_status == HealthStatus::Healthy {
                0
            } else {
                (old(health).consecutive_failures + 1) as u32
            },
            health.uptime == old(health).uptime,
            health.memory_usage == old(health).memory_usage,
        decreases result.component_results@.len() - i,
    {
        let name = &result.component_results[i].0;
        let check = &result.component_results[i].1;
        let last_success = if let HealthStatus::Healthy = check.status { Some(instant_now()) } else { None };
        let h = ComponentHealth {
            name: str_to_string(name.as_str()),
            status: check.status,
            last_success,
            error_count: detail_value(&check.details, "error_count"),
            response_time_ms: detail_value(&check.details, "response_time_ms"),
        };
        proof {
            assert(rv.take(i + 1).drop_last() =~= rv.take(i as int));
            assert(rv.take(i + 1).last() == (name@, check_view(*check)));
            assert(h.view_of() == health_from(name@, check_view(*check)));
        }
        put_health(&mut health.component_health, str_to_string(name.as_str()), h);
        i = i + 1;
    }
    assert(rv.take(i as int) =~= rv);
}

/// The text of the alert a failed system health check raises.
pub open spec fn health_alert_message(critical: nat) -> Seq<char> {
    "System health check failed with "@ + decimal_seq(critical) + " critical issues"@
}

/// The system health check from the four component checks (see
/// `assess_checks` and `update_system_health`): the system health takes the
/// result in, and when a component is critical a critical alert of the
/// "system" component is triggered (see `trigger_outcome`).
pub fn perform_health_check(
    health: &mut SystemHealth,
    alerting: &mut AlertingSystem,
    runtime: Result<ComponentHealthCheck, String>,
    performance: Result<ComponentHealthCheck, String>,
    security: Result<ComponentHealthCheck, String>,
    integration: Result<ComponentHealthCheck, String>,
) -> (r: Result<HealthCheckResult, String>)
    requires
        old(alerting).wf(),
        forall|k: int| 0 <= k < old(alerting).active().len() ==> (#[trigger] old(alerting).active()[k]).9 < u32::MAX,
        fold_levels(levels_of(system_checks(runtime, performance, security, integration))).0 != HealthStatus::Healthy
            ==> old(health).consecutive_failures < u32::MAX,
    ensures
        ({
            let checks = system_checks(runtime, performance, security, integration);
            let level = fold_levels(levels_of(checks)).0;
            let critical = fold_levels(levels_of(checks)).1;
            &&& r matches Ok(res) && results_view(res.component_results@) == checks && res.overall_status == level
                && res.check_duration_ms == 0
            &&& final(health).status == level
            &&& final(health).consecutive_failures == if level == HealthStatus::Healthy {
                0
            } else {
                (old(health).consecutive_failures + 1) as u32
            }
            &&& health_entries(final(health).component_health@) == updated_health(health_entries(old(health).component_health@), checks)
            &&& final(health).uptime == old(health).uptime
            &&& final(health).memory_usage == old(health).memory_usage
            &&& !(critical > 0 || level == HealthStatus::Critical) ==> *final(alerting) == *old(alerting)
            &&& (critical > 0 || level == HealthStatus::Critical) ==> {
                &&& final(alerting).wf()
                &&& exists|a: AlertView| {
                    &&& a.2 == AlertLevel::Critical
                    &&& a.3 == "system"@
                    &&& a.4 == health_alert_message(critical)
                    &&& !a.5 && a.6 is None && !a.7 && a.8 is None && a.9 == 1
                    &&& #[trigger] trigger_outcome(*old(alerting), *final(alerting), a)
                }
            }
        }),
{
    let (result, critical) = assess_checks(runtime, performance, security, integration);
    update_system_health(health, &result);
    let critical_level = if let HealthStatus::Critical = result.overall_status { true } else { false };
    if critical > 0 || critical_level {
        let now = instant_now();
        let m = string_concat(str_to_string("System health check failed with "), decimal_string(critical as u64).as_str());
        let alert = Alert {
            id: new_alert_id(),
            timestamp: now,
            level: AlertLevel::Critical,
            component: str_to_string("system"),
            message: string_concat(m, " critical issues"),
            details: Vec::new(),
            acknowledged: false,
            acknowledged_at: None,
            resolved: false,
            resolved_at: None,
            occurrence_count: 1,
            last_occurrence: now,
        };
        let ghost av = alert.view_of();
        alerting.trigger_alert(alert);
        assert(trigger_outcome(*old(alerting), *alerting, av));
    }
    Ok(result)
}

/// A system health check is critical exactly when it counts a critical
/// component, which is exactly when some component is critical or down
/// (a check that could not be made counts as critical); it is healthy
/// exactly when every component is healthy.
pub proof fn lemma_fold_levels(levels: Seq<HealthStatus>)
    ensures
        (fold_levels(levels).1 > 0) <==> (fold_levels(levels).0 == HealthStatus::Critical),
        (fold_levels(levels).0 == HealthStatus::Critical) <==> (exists|i: int|
            0 <= i < levels.len() && (#[trigger] levels[i] == HealthStatus::Critical || levels[i] == HealthStatus::Down)),
        (fold_levels(levels).0 == HealthStatus::Healthy) <==> (forall|i: int| 0 <= i < levels.len() ==> #[trigger] levels[i] == HealthStatus::Healthy),
        fold_levels(levels).0 != HealthStatus::Down,
    decreases levels.len(),
{
    if levels.len() > 0 {
        let rest = levels.drop_last();
        lemma_fold_levels(rest);
        let n = levels.len() - 1;
        assert forall|i: int| 0 <= i < n implies rest[i] == levels[i] by {}
        if exists|i: int| 0 <= i < n && (#[trigger] rest[i] == HealthStatus::Critical || rest[i] == HealthStatus::Down) {
            let i = choose|i: int| 0 <= i < n && (#[trigger] rest[i] == HealthStatus::Critical || rest[i] == HealthStatus::Down);
            assert(levels[i] == rest[i]);
        }
        if exists|i: int| 0 <= i < levels.len() && (#[trigger] levels[i] == HealthStatus::Critical || levels[i] == HealthStatus::Down) {
            let i = choose|i: int| 0 <= i < levels.len() && (#[trigger] levels[i] == HealthStatus::Critical || levels[i] == HealthStatus::Down);
            if i < n {
                assert(rest[i] == levels[i]);
            }
        }
        if !(forall|i: int| 0 <= i < n ==> #[trigger] rest[i] == HealthStatus::Healthy) {
            let i = choose|i: int| !(0 <= i < n ==> #[trigger] rest[i] == HealthStatus::Healthy);
            assert(levels[i] == rest[i]);
        }
    }
}

} // verus!
