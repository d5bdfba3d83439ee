//! Security monitoring: counters of security events by type, a bounded
//! history of events, the security health check and the security report.

use vstd::prelude::*;
use std::time::{Duration, Instant};
use crate::lib5250::telnet::text_pairs;
use crate::clock::{digest_of, duration_as_nanos, hash_u128, instant_now, nanos_since};
use crate::monitoring::integration_monitor::{check_view, join, join_strings, keep_last, texts};
use crate::monitoring::{ComponentHealthCheck, HealthStatus};
use crate::text::{decimal_seq, decimal_string, str_to_string, string_concat};

verus! {

/// Counters of security events.
#[derive(Debug, Clone, Copy, PartialEq, Eq, Structural)]
pub struct SecurityMetrics {
    pub total_security_events: u64,
    pub authentication_failures: u64,
    pub authorization_failures: u64,
    pub suspicious_network_patterns: u64,
    pub invalid_data_formats: u64,
    pub buffer_overflow_attempts: u64,
    pub injection_attempts: u64,
    pub protocol_violations: u64,
    pub threat_mitigations: u64,
    pub policy_violations: u64,
}

/// Settings of the security monitor.
#[derive(Debug, Clone, Copy, PartialEq, Eq, Structural)]
pub struct SecurityConfig {
    pub enable_threat_detection: bool,
    pub enable_security_logging: bool,
    /// How many events the history keeps.
    pub max_event_history: usize,
    /// Authentication failures above which the health check warns.
    pub auth_failure_threshold: u32,
    pub enable_auto_mitigation: bool,
    pub scan_interval_seconds: u64,
    pub pattern_analysis_window_seconds: u64,
}

/// The default settings.
pub open spec fn default_security_config() -> SecurityConfig {
    SecurityConfig {
        enable_threat_detection: true,
        enable_security_logging: true,
        max_event_history: 1000,
        auth_failure_threshold: 5,
        enable_auto_mitigation: true,
        scan_interval_seconds: 30,
        pattern_analysis_window_seconds: 300,
    }
}

impl Default for SecurityConfig {
    fn default() -> (r: Self)
        ensures
            r == default_security_config(),
    {
        SecurityConfig {
            enable_threat_detection: true,
            enable_security_logging: true,
            max_event_history: 1000,
            auth_failure_threshold: 5,
            enable_auto_mitigation: true,
            scan_interval_seconds: 30,
            pattern_analysis_window_seconds: 300,
        }
    }
}

/// Kinds of security events.
#[derive(Debug, Clone, Copy, PartialEq, Eq, Structural)]
pub enum SecurityEventType {
    AuthenticationFailure,
    AuthorizationFailure,
    SuspiciousNetworkPattern,
    InvalidDataFormat,
    BufferOverflowAttempt,
    InjectionAttempt,
    ProtocolViolation,
    ThreatDetected,
    ThreatMitigated,
    PolicyViolation,
}

/// How severe a security event is.
#[derive(Debug, Clone, Copy, PartialEq, Eq, Structural)]
pub enum SecurityEventSeverity {
    Low,
    Medium,
    High,
    Critical,
}

/// One security event.
#[derive(Debug)]
pub struct SecurityEvent {
    pub timestamp: Instant,
    pub event_type: SecurityEventType,
    pub severity: SecurityEventSeverity,
    pub description: String,
    /// Where it came from, if known.
    pub source_ip: Option<String>,
    /// (name, value) details.
    pub details: Vec<(String, String)>,
    /// Whether it was mitigated on the spot.
    pub mitigated: bool,
}

/// An event as plain values: time, type, severity, description, source,
/// whether it was mitigated and the (name, value) details.
pub type SecurityEventView = (Instant, SecurityEventType, SecurityEventSeverity, Seq<char>, Option<Seq<char>>, bool, Seq<(Seq<char>, Seq<char>)>);

impl SecurityEvent {
    /// The event as plain values.
    pub open spec fn view_of(&self) -> SecurityEventView {
        (
            self.timestamp,
            self.event_type,
            self.severity,
            self.description@,
            match self.source_ip {
                Some(s) => Some(s@),
                None => None,
            },
            self.mitigated,
            text_pairs(self.details@),
        )
    }

    /// A copy with the same contents.
    pub fn duplicate(&self) -> (r: Self)
        ensures
            r.view_of() == self.view_of(),
            r.details@.len() == self.details@.len(),
    {
        let mut details: Vec<(String, String)> = Vec::new();
        let mut i: usize = 0;
        while i < self.details.len()
            invariant
                i <= self.details@.len(),
                details@.len() == i,
                text_pairs(details@) == text_pairs(self.details@.take(i as int)),
            decreases self.details@.len() - i,
        {
            let ghost before = details@;
            details.push((str_to_string(self.details[i].0.as_str()), str_to_string(self.details[i].1.as_str())));
            proof {
                assert(self.details@.take(i + 1) =~= self.details@.take(i as int).push(self.details@[i as int]));
                assert(text_pairs(details@) =~= text_pairs(before).push((self.details@[i as int].0@, self.details@[i as int].1@)));
                assert(text_pairs(details@) =~= text_pairs(self.details@.take(i + 1)));
            }
            i = i + 1;
        }
        assert(self.details@.take(i as int) =~= self.details@);
        SecurityEvent {
            timestamp: self.timestamp,
            event_type: self.event_type,
            severity: self.severity,
            description: str_to_string(self.description.as_str()),
            source_ip: match &self.source_ip {
                Some(s) => Some(str_to_string(s.as_str())),
                None => None,
            },
            details,
            mitigated: self.mitigated,
        }
    }
}

/// A threat the monitor looks for: a name and a description.
struct ThreatPattern {
    name: String,
    description: String,
}

/// One up, wrapping past the largest value.
pub open spec fn bump(x: u64) -> u64 {
    if x == u64::MAX { 0 } else { (x + 1) as u64 }
}

/// The counters after one event of type `t`: the total and the counter of
/// the type go up (a detected threat has no counter of its own).
pub open spec fn security_counted(m: SecurityMetrics, t: SecurityEventType) -> SecurityMetrics {
    SecurityMetrics {
        total_security_events: bump(m.total_security_events),
        authentication_failures: if t == SecurityEventType::AuthenticationFailure { bump(m.authentication_failures) } else { m.authentication_failures },
        authorization_failures: if t == SecurityEventType::AuthorizationFailure { bump(m.authorization_failures) } else { m.authorization_failures },
        suspicious_network_patterns: if t == SecurityEventType::SuspiciousNetworkPattern { bump(m.suspicious_network_patterns) } else { m.suspicious_network_patterns },
        invalid_data_formats: if t == SecurityEventType::InvalidDataFormat { bump(m.invalid_data_formats) } else { m.invalid_data_formats },
        buffer_overflow_attempts: if t == SecurityEventType::BufferOverflowAttempt { bump(m.buffer_overflow_attempts) } else { m.buffer_overflow_attempts },
        injection_attempts: if t == SecurityEventType::InjectionAttempt { bump(m.injection_attempts) } else { m.injection_attempts },
        protocol_violations: if t == SecurityEventType::ProtocolViolation { bump(m.protocol_violations) } else { m.protocol_violations },
        threat_mitigations: if t == SecurityEventType::ThreatMitigated { bump(m.threat_mitigations) } else { m.threat_mitigations },
        policy_violations: if t == SecurityEventType::PolicyViolation { bump(m.policy_violations) } else { m.policy_violations },
    }
}

/// The threats looked for from the start: (name, description).
pub open spec fn initial_threat_patterns() -> Seq<(Seq<char>, Seq<char>)> {
    seq![
        ("buffer_overflow"@, "Potential buffer overflow attempt"@),
        ("injection_attempt"@, "Potential injection attack"@),
        ("protocol_violation"@, "5250 protocol violation"@),
        ("suspicious_network"@, "Suspicious network traffic pattern"@),
    ]
}

/// The events whose elapsed time (as measured, one reading per event) is
/// under the window, in order.
pub open spec fn recent_events(events: Seq<SecurityEventView>, elapsed: Seq<u128>, window: u128) -> Seq<SecurityEventView>
    decreases events.len(),
{
    if events.len() == 0 || elapsed.len() != events.len() {
        Seq::empty()
    } else {
        recent_events(events.drop_last(), elapsed.drop_last(), window) + if elapsed.last() < window {
            seq![events.last()]
        } else {
            Seq::empty()
        }
    }
}

/// How many events are critical.
pub open spec fn count_critical(s: Seq<SecurityEventView>) -> nat
    decreases s.len(),
{
    if s.len() == 0 {
        0
    } else {
        count_critical(s.drop_last()) + if s.last().2 == SecurityEventSeverity::Critical { 1nat } else { 0nat }
    }
}

/// The five minutes of events a health check looks at, in nanoseconds.
pub open spec fn security_health_window() -> u128 {
    300_000_000_000
}

/// The hour of events a report lists, in nanoseconds.
pub open spec fn security_report_window() -> u128 {
    3_600_000_000_000
}

/// The issues a security health check reports, given the authentication
/// failures and their threshold, the critical events of the last five
/// minutes, the events counted so far, and the mitigation rate as text
/// with whether it is under 80 percent (none before any event).
pub open spec fn security_issues(auth_failures: nat, threshold: nat, critical: nat, threats: nat, mitigation: Option<(Seq<char>, bool)>) -> Seq<Seq<char>> {
    (if auth_failures > threshold { seq!["High authentication failure rate: "@ + decimal_seq(auth_failures)] } else { Seq::empty() })
        + (if critical > 0 { seq![decimal_seq(critical) + " critical security events in last 5 minutes"@] } else { Seq::empty() })
        + (if threats > 100 { seq!["High threat detection rate: "@ + decimal_seq(threats)] } else { Seq::empty() })
        + (match mitigation {
            Some((rate, low)) => if low { seq!["Low mitigation success rate: "@ + rate] } else { Seq::empty() },
            None => Seq::empty(),
        })
}

/// The level of a security health check: critical with a critical event
/// in the last five minutes, a warning for any other issue, else healthy.
pub open spec fn security_level(auth_failures: nat, threshold: nat, critical: nat, threats: nat, mitigation: Option<(Seq<char>, bool)>) -> HealthStatus {
    if critical > 0 {
        HealthStatus::Critical
    } else if auth_failures > threshold || threats > 100 || (mitigation matches Some((_, low)) && low) {
        HealthStatus::Warning
    } else {
        HealthStatus::Healthy
    }
}

/// The message of a security health check.
pub open spec fn security_message(issues: Seq<Seq<char>>) -> Seq<char> {
    if issues.len() == 0 {
        "Security status is healthy"@
    } else {
        "Security issues detected: "@ + join(issues, ", "@)
    }
}

/// The details of a security health check, in order.
pub open spec fn security_details(auth_failures: nat, critical: nat, threats: nat, mitigation: Option<(Seq<char>, bool)>) -> Seq<(Seq<char>, Seq<char>)> {
    seq![
        ("authentication_failures"@, decimal_seq(auth_failures)),
        ("critical_events_5min"@, decimal_seq(critical)),
        ("threats_detected"@, decimal_seq(threats)),
    ] + match mitigation {
        Some((rate, _)) => seq![("mitigation_success_rate"@, rate)],
        None => Seq::empty(),
    }
}

/// The text of an optional (text, flag) pair.
pub open spec fn rate_view(m: Option<(String, bool)>) -> Option<(Seq<char>, bool)> {
    match m {
        Some((t, b)) => Some((t@, b)),
        None => None,
    }
}

/// The security health check from its counts (see `security_issues`).
/// `mitigation` is the share of mitigated events among all events,
/// written with one decimal and a percent sign, and whether it is under
/// 80 percent; `None` when no event was counted.
pub fn security_health(
    auth_failures: u64,
    threshold: u32,
    critical: u64,
    threats: u64,
    mitigation: Option<(String, bool)>,
) -> (r: ComponentHealthCheck)
    ensures
        ({
            let mv = rate_view(mitigation);
            check_view(r) == (
                security_level(auth_failures as nat, threshold as nat, critical as nat, threats as nat, mv),
                security_message(security_issues(auth_failures as nat, threshold as nat, critical as nat, threats as nat, mv)),
                security_details(auth_failures as nat, critical as nat, threats as nat, mv),
            )
        }),
{
    let ghost mv = rate_view(mitigation);
    let mut details: Vec<(String, String)> = Vec::new();
    let mut issues: Vec<String> = Vec::new();
    let mut status = HealthStatus::Healthy;
    details.push((str_to_string("authentication_failures"), decimal_string(auth_failures)));
    if auth_failures > threshold as u64 {
        issues.push(string_concat(str_to_string("High authentication failure rate: "), decimal_string(auth_failures).as_str()));
        status = HealthStatus::Warning;
    }
    details.push((str_to_string("critical_events_5min"), decimal_string(critical)));
    if critical > 0 {
        issues.push(string_concat(decimal_string(critical), " critical security events in last 5 minutes"));
        status = HealthStatus::Critical;
    }
    details.push((str_to_string("threats_detected"), decimal_string(threats)));
    if threats > 100 {
        issues.push(string_concat(str_to_string("High threat detection rate: "), decimal_string(threats).as_str()));
        if let HealthStatus::Healthy = status {
            status = HealthStatus::Warning;
        }
    }
    match mitigation {
        Some((rate, low)) => {
            let rate_text = str_to_string(rate.as_str());
            details.push((str_to_string("mitigation_success_rate"), rate));
            if low {
                issues.push(string_concat(str_to_string("Low mitigation success rate: "), rate_text.as_str()));
                if let HealthStatus::Healthy = status {
                    status = HealthStatus::Warning;
                }
            }
        },
        None => {},
    }
    let ghost expected = security_issues(auth_failures as nat, threshold as nat, critical as nat, threats as nat, mv);
    assert(texts(issues@) =~= expected);
    let message = if issues.len() == 0 {
        str_to_string("Security status is healthy")
    } else {
        let joined = join_strings(&issues, ", ");
        string_concat(str_to_string("Security issues detected: "), joined.as_str())
    };
    let r = ComponentHealthCheck { status, message, details };
    assert(r.details@.map_values(|p: (String, String)| (p.0@, p.1@)) =~= security_details(
        auth_failures as nat, critical as nat, threats as nat, mv,
    ));
    r
}

/// The name of an event type as it is printed.
pub open spec fn event_type_name(t: SecurityEventType) -> Seq<char> {
    match t {
        SecurityEventType::AuthenticationFailure => "AuthenticationFailure"@,
        SecurityEventType::AuthorizationFailure => "AuthorizationFailure"@,
        SecurityEventType::SuspiciousNetworkPattern => "SuspiciousNetworkPattern"@,
        SecurityEventType::InvalidDataFormat => "InvalidDataFormat"@,
        SecurityEventType::BufferOverflowAttempt => "BufferOverflowAttempt"@,
        SecurityEventType::InjectionAttempt => "InjectionAttempt"@,
        SecurityEventType::ProtocolViolation => "ProtocolViolation"@,
        SecurityEventType::ThreatDetected => "ThreatDetected"@,
        SecurityEventType::ThreatMitigated => "ThreatMitigated"@,
        SecurityEventType::PolicyViolation => "PolicyViolation"@,
    }
}

/// The short tag of a severity in a report.
pub open spec fn severity_tag(s: SecurityEventSeverity) -> Seq<char> {
    match s {
        SecurityEventSeverity::Low => "LOW"@,
        SecurityEventSeverity::Medium => "MED"@,
        SecurityEventSeverity::High => "HIGH"@,
        SecurityEventSeverity::Critical => "CRIT"@,
    }
}

/// The name of an event type as it is printed.
fn event_type_text(t: SecurityEventType) -> (r: &'static str)
    ensures
        r@ == event_type_name(t),
{
    match t {
        SecurityEventType::AuthenticationFailure => "AuthenticationFailure",
        SecurityEventType::AuthorizationFailure => "AuthorizationFailure",
        SecurityEventType::SuspiciousNetworkPattern => "SuspiciousNetworkPattern",
        SecurityEventType::InvalidDataFormat => "InvalidDataFormat",
        SecurityEventType::BufferOverflowAttempt => "BufferOverflowAttempt",
        SecurityEventType::InjectionAttempt => "InjectionAttempt",
        SecurityEventType::ProtocolViolation => "ProtocolViolation",
        SecurityEventType::ThreatDetected => "ThreatDetected",
        SecurityEventType::ThreatMitigated => "ThreatMitigated",
        SecurityEventType::PolicyViolation => "PolicyViolation",
    }
}

/// The short tag of a severity in a report.
fn severity_text(s: SecurityEventSeverity) -> (r: &'static str)
    ensures
        r@ == severity_tag(s),
{
    match s {
        SecurityEventSeverity::Low => "LOW",
        SecurityEventSeverity::Medium => "MED",
        SecurityEventSeverity::High => "HIGH",
        SecurityEventSeverity::Critical => "CRIT",
    }
}

/// An event line of a report: type, severity tag and description.
pub open spec fn security_event_line(e: SecurityEventView) -> Seq<char> {
    "  "@ + event_type_name(e.1) + " ["@ + severity_tag(e.2) + "] - "@ + e.3 + "\n"@
}

/// The lines of events, one after the other.
pub open spec fn security_event_lines(s: Seq<SecurityEventView>) -> Seq<char>
    decreases s.len(),
{
    if s.len() == 0 {
        Seq::empty()
    } else {
        security_event_lines(s.drop_last()) + security_event_line(s.last())
    }
}

/// The lines of threat patterns: name and description.
pub open spec fn pattern_lines(s: Seq<(Seq<char>, Seq<char>)>) -> Seq<char>
    decreases s.len(),
{
    if s.len() == 0 {
        Seq::empty()
    } else {
        pattern_lines(s.drop_last()) + "  "@ + s.last().0 + " - "@ + s.last().1 + "\n"@
    }
}

/// The security report: the counters, the events of the last hour (the
/// first ten listed) and the threat patterns.
pub open spec fn security_report_text(m: SecurityMetrics, recent: Seq<SecurityEventView>, patterns: Seq<(Seq<char>, Seq<char>)>) -> Seq<char> {
    "=== Security Monitoring Report ===\n\n"@
        + "Security Events:\n"@
        + "  Total Events: "@ + decimal_seq(m.total_security_events as nat) + "\n"@
        + "  Authentication Failures: "@ + decimal_seq(m.authentication_failures as nat) + "\n"@
        + "  Authorization Failures: "@ + decimal_seq(m.authorization_failures as nat) + "\n"@
        + "  Suspicious Patterns: "@ + decimal_seq(m.suspicious_network_patterns as nat) + "\n"@
        + "  Protocol Violations: "@ + decimal_seq(m.protocol_violations as nat) + "\n"@
        + "  Threats Mitigated: "@ + decimal_seq(m.threat_mitigations as nat) + "\n"@
        + "\nRecent Events (Last Hour): "@ + decimal_seq(recent.len()) + "\n"@
        + security_event_lines(recent.take(if recent.len() < 10 { recent.len() as int } else { 10 }))
        + "\nThreat Detection Patterns: "@ + decimal_seq(patterns.len()) + "\n"@
        + pattern_lines(patterns)
}

/// The security monitor.
pub struct SecurityMonitor {
    pub metrics: SecurityMetrics,
    config: SecurityConfig,
    event_history: Vec<SecurityEvent>,
    threat_patterns: Vec<ThreatPattern>,
}

impl SecurityMonitor {
    /// The events in the history, oldest first.
    pub closed spec fn events(&self) -> Seq<SecurityEventView> {
        self.event_history@.map_values(|e: SecurityEvent| e.view_of())
    }

    /// The counters.
    pub closed spec fn counters(&self) -> SecurityMetrics {
        self.metrics
    }

    /// The settings.
    pub closed spec fn settings(&self) -> SecurityConfig {
        self.config
    }

    /// The threat patterns: (name, description).
    pub closed spec fn patterns(&self) -> Seq<(Seq<char>, Seq<char>)> {
        self.threat_patterns@.map_values(|p: ThreatPattern| (p.name@, p.description@))
    }

    /// The history holds at most the configured number of events.
    pub closed spec fn wf(&self) -> bool {
        self.event_history@.len() <= self.config.max_event_history
    }

    /// A monitor with zero counters, the default settings, no events and
    /// the four initial threat patterns.
    pub fn new() -> (r: Self)
        ensures
            r.wf(),
            r.counters() == (SecurityMetrics {
                total_security_events: 0,
                authentication_failures: 0,
                authorization_failures: 0,
                suspicious_network_patterns: 0,
                invalid_data_formats: 0,
                buffer_overflow_attempts: 0,
                injection_attempts: 0,
                protocol_violations: 0,
                threat_mitigations: 0,
                policy_violations: 0,
            }),
            r.settings() == default_security_config(),
            r.events().len() == 0,
            r.patterns() == initial_threat_patterns(),
    {
        let mut monitor = SecurityMonitor {
            metrics: SecurityMetrics {
                total_security_events: 0,
                authentication_failures: 0,
                authorization_failures: 0,
                suspicious_network_patterns: 0,
                invalid_data_formats: 0,
                buffer_overflow_attempts: 0,
                injection_attempts: 0,
                protocol_violations: 0,
                threat_mitigations: 0,
                policy_violations: 0,
            },
            config: SecurityConfig::default(),
            event_history: Vec::new(),
            threat_patterns: Vec::new(),
        };
        assert(monitor.events() =~= Seq::<SecurityEventView>::empty());
        monitor.initialize_threat_patterns();
        monitor
    }

    /// Add the four initial threat patterns.
    fn initialize_threat_patterns(&mut self)
        ensures
            final(self).patterns() == old(self).patterns() + initial_threat_patterns(),
            final(self).metrics == old(self).metrics,
            final(self).config == old(self).config,
            final(self).event_history == old(self).event_history,
    {
        let ghost before = self.patterns();
        self.threat_patterns.push(ThreatPattern {
            name: str_to_string("buffer_overflow"),
            description: str_to_string("Potential buffer overflow attempt"),
        });
        self.threat_patterns.push(ThreatPattern {
            name: str_to_string("injection_attempt"),
            description: str_to_string("Potential injection attack"),
        });
        self.threat_patterns.push(ThreatPattern {
            name: str_to_string("protocol_violation"),
            description: str_to_string("5250 protocol violation"),
        });
        self.threat_patterns.push(ThreatPattern {
            name: str_to_string("suspicious_network"),
            description: str_to_string("Suspicious network traffic pattern"),
        });
        assert(self.patterns() =~= before + initial_threat_patterns());
    }

    /// The events within `window` nanoseconds of now (one clock reading per
    /// event), and how many of them are critical.
    fn recent_within(&self, window: u128, copy: bool) -> (r: (Vec<SecurityEvent>, usize))
        ensures
            exists|el: Seq<u128>| {
                &&& el.len() == self.events().len()
                &&& r.1 == count_critical(recent_events(self.events(), el, window))
                &&& copy ==> r.0@.map_values(|e: SecurityEvent| e.view_of()) == recent_events(self.events(), el, window)
                &&& !copy ==> r.0@.len() == 0
            },
    {
        let mut out: Vec<SecurityEvent> = Vec::new();
        let mut count: usize = 0;
        let ghost mut el: Seq<u128> = Seq::empty();
        let mut i: usize = 0;
        while i < self.event_history.len()
            invariant
                i <= self.event_history@.len(),
                el.len() == i,
                count == count_critical(recent_events(self.events().take(i as int), el, window)),
                copy ==> out@.map_values(|e: SecurityEvent| e.view_of()) == recent_events(self.events().take(i as int), el, window),
                !copy ==> out@.len() == 0,
                count <= i,
            decreases self.event_history@.len() - i,
        {
            let e = nanos_since(&self.event_history[i].timestamp);
            let ghost old_el = el;
            let ghost before = out@;
            let ghost prev = recent_events(self.events().take(i as int), old_el, window);
            proof {
                el = el.push(e);
                assert(el.drop_last() =~= old_el);
                assert(self.events().take(i + 1).drop_last() =~= self.events().take(i as int));
                assert(self.events().take(i + 1).last() == self.event_history@[i as int].view_of());
            }
            if e < window {
                let ghost added = prev + seq![self.event_history@[i as int].view_of()];
                proof {
                    assert(added.drop_last() =~= prev);
                }
                if copy {
                    let d = self.event_history[i].duplicate();
                    out.push(d);
                    proof {
                        assert(out@.map_values(|e: SecurityEvent| e.view_of()) =~= before.map_values(|e: SecurityEvent| e.view_of()).push(d.view_of()));
                    }
                }
                if let SecurityEventSeverity::Critical = self.event_history[i].severity {
                    count = count + 1;
                }
            } else {
                proof {
                    assert(prev + Seq::<SecurityEventView>::empty() =~= prev);
                }
            }
            i = i + 1;
        }
        assert(self.events().take(i as int) =~= self.events());
        (out, count)
    }

    /// The events of the last `duration` (timestamps after now less the
    /// duration), oldest first.
    pub fn get_recent_security_events(&self, duration: Duration) -> (r: Vec<SecurityEvent>)
        ensures
            exists|el: Seq<u128>| el.len() == self.events().len()
                && r@.map_values(|e: SecurityEvent| e.view_of()) == recent_events(self.events(), el, crate::clock::duration_nanos(duration)),
    {
        let window = duration_as_nanos(&duration);
        let (out, _) = self.recent_within(window, true);
        out
    }

    /// The security health check (see `security_health`): authentication
    /// failures against the threshold, critical events of the last five
    /// minutes, the events counted, and the mitigation rate that the
    /// caller worked out from `metrics` (`None` when no event was counted).
    pub fn check_security_health(&self, mitigation: Option<(String, bool)>) -> (r: Result<ComponentHealthCheck, String>)
        ensures
            r matches Ok(h) && exists|el: Seq<u128>| {
                let critical = count_critical(#[trigger] recent_events(self.events(), el, security_health_window()));
                let m = self.counters();
                let mv = rate_view(mitigation);
                &&& el.len() == self.events().len()
                &&& check_view(h) == (
                    security_level(m.authentication_failures as nat, self.settings().auth_failure_threshold as nat, critical,
                        m.total_security_events as nat, mv),
                    security_message(security_issues(m.authentication_failures as nat, self.settings().auth_failure_threshold as nat,
                        critical, m.total_security_events as nat, mv)),
                    security_details(m.authentication_failures as nat, critical, m.total_security_events as nat, mv),
                )
            },
    {
        let (_, critical) = self.recent_within(300_000_000_000, false);
        proof {
            let el = choose|el: Seq<u128>| el.len() == self.events().len()
                && critical == count_critical(recent_events(self.events(), el, 300_000_000_000));
            assert(count_critical(recent_events(self.events(), el, security_health_window())) == critical);
        }
        let h = security_health(
            self.metrics.authentication_failures,
            self.config.auth_failure_threshold,
            critical as u64,
            self.metrics.total_security_events,
            mitigation,
        );
        Ok(h)
    }

    /// Record an event: the counters (see `security_counted`) and the
    /// history, which keeps the latest `max_event_history`.
    pub fn record_security_event(&mut self, event: SecurityEvent)
        requires
            old(self).wf(),
        ensures
            final(self).wf(),
            final(self).counters() == security_counted(old(self).counters(), event.event_type),
            final(self).events() == keep_last(old(self).events().push(event.view_of()), old(self).settings().max_event_history as int),
            final(self).settings() == old(self).settings(),
            final(self).patterns() == old(self).patterns(),
    {
        let m = self.metrics;
        self.metrics.total_security_events = if m.total_security_events == u64::MAX { 0 } else { m.total_security_events + 1 };
        match event.event_type {
            SecurityEventType::AuthenticationFailure => {
                self.metrics.authentication_failures = if m.authentication_failures == u64::MAX { 0 } else { m.authentication_failures + 1 };
            },
            SecurityEventType::AuthorizationFailure => {
                self.metrics.authorization_failures = if m.authorization_failures == u64::MAX { 0 } else { m.authorization_failures + 1 };
            },
            SecurityEventType::SuspiciousNetworkPattern => {
                self.metrics.suspicious_network_patterns = if m.suspicious_network_patterns == u64::MAX { 0 } else { m.suspicious_network_patterns + 1 };
            },
            SecurityEventType::InvalidDataFormat => {
                self.metrics.invalid_data_formats = if m.invalid_data_formats == u64::MAX { 0 } else { m.invalid_data_formats + 1 };
            },
            SecurityEventType::BufferOverflowAttempt => {
                self.metrics.buffer_overflow_attempts = if m.buffer_overflow_attempts == u64::MAX { 0 } else { m.buffer_overflow_attempts + 1 };
            },
            SecurityEventType::InjectionAttempt => {
                self.metrics.injection_attempts = if m.injection_attempts == u64::MAX { 0 } else { m.injection_attempts + 1 };
            },
            SecurityEventType::ProtocolViolation => {
                self.metrics.protocol_violations = if m.protocol_violations == u64::MAX { 0 } else { m.protocol_violations + 1 };
            },
            SecurityEventType::ThreatMitigated => {
                self.metrics.threat_mitigations = if m.threat_mitigations == u64::MAX { 0 } else { m.threat_mitigations + 1 };
            },
            SecurityEventType::PolicyViolation => {
                self.metrics.policy_violations = if m.policy_violations == u64::MAX { 0 } else { m.policy_violations + 1 };
            },
            SecurityEventType::ThreatDetected => {},
        }
        let ghost pushed = self.events().push(event.view_of());
        self.event_history.push(event);
        assert(self.events() =~= pushed);
        trim_events(&mut self.event_history, self.config.max_event_history);
        assert(self.events() =~= keep_last(pushed, self.config.max_event_history as int));
    }

    /// Look for threats: with detection on, a rare simulated suspicious
    /// pattern (when a digest of a clock reading falls in the lowest
    /// thousandth of its range) is recorded as a mitigated low-severity
    /// event; otherwise nothing changes.
    pub fn scan_for_threats(&mut self)
        requires
            old(self).wf(),
        ensures
            final(self).wf(),
            final(self).settings() == old(self).settings(),
            final(self).patterns() == old(self).patterns(),
            !old(self).settings().enable_threat_detection ==> *final(self) == *old(self),
            old(self).settings().enable_threat_detection ==> exists|reading: u128, digest: u64| #[trigger] digest_of(reading, digest) && if digest < 18_446_744_073_709_550 {
                exists|e: SecurityEventView| {
                    &&& simulated_event(e)
                    &&& final(self).counters() == security_counted(old(self).counters(), SecurityEventType::SuspiciousNetworkPattern)
                    &&& final(self).events() == keep_last(old(self).events().push(e), old(self).settings().max_event_history as int)
                }
            } else {
                *final(self) == *old(self)
            },
    {
        if !self.config.enable_threat_detection {
            return;
        }
        let simulate = self.should_simulate_event();
        let ghost (reading, digest) = choose|reading: u128, digest: u64| digest_of(reading, digest) && simulate == (digest < 18_446_744_073_709_550);
        if simulate {
            let event = SecurityEvent {
                timestamp: instant_now(),
                event_type: SecurityEventType::SuspiciousNetworkPattern,
                severity: SecurityEventSeverity::Low,
                description: str_to_string("Unusual network traffic pattern detected"),
                source_ip: Some(str_to_string("192.168.1.100")),
                details: Vec::new(),
                mitigated: true,
            };
            let ghost v = event.view_of();
            self.record_security_event(event);
            assert(simulated_event(v));
        }
        assert(digest_of(reading, digest));
    }

    /// Whether a digest of a clock reading falls in the lowest thousandth
    /// of the 64-bit range.
    fn should_simulate_event(&self) -> (r: bool)
        ensures
            exists|reading: u128, digest: u64| #[trigger] digest_of(reading, digest) && r == (digest < 18_446_744_073_709_550),
    {
        let reading = nanos_since(&instant_now());
        let digest = hash_u128(reading);
        assert(digest_of(reading, digest));
        digest < 18_446_744_073_709_550
    }

    /// The counters.
    pub fn get_metrics(&self) -> (r: &SecurityMetrics)
        ensures
            *r == self.counters(),
    {
        &self.metrics
    }

    /// A text report: the counters, the events of the last hour (the first
    /// ten listed) and the threat patterns.
    pub fn generate_report(&self) -> (r: String)
        ensures
            exists|el: Seq<u128>| el.len() == self.events().len()
                && r@ == security_report_text(self.counters(), #[trigger] recent_events(self.events(), el, security_report_window()), self.patterns()),
    {
        let m = self.metrics;
        let mut report = str_to_string("=== Security Monitoring Report ===\n\n");
        report = string_concat(report, "Security Events:\n");
        report = string_concat(report, "  Total Events: ");
        report = string_concat(report, decimal_string(m.total_security_events).as_str());
        report = string_concat(report, "\n");
        report = string_concat(report, "  Authentication Failures: ");
        report = string_concat(report, decimal_string(m.authentication_failures).as_str());
        report = string_concat(report, "\n");
        report = string_concat(report, "  Authorization Failures: ");
        report = string_concat(report, decimal_string(m.authorization_failures).as_str());
        report = string_concat(report, "\n");
        report = string_concat(report, "  Suspicious Patterns: ");
        report = string_concat(report, decimal_string(m.suspicious_network_patterns).as_str());
        report = string_concat(report, "\n");
        report = string_concat(report, "  Protocol Violations: ");
        report = string_concat(report, decimal_string(m.protocol_violations).as_str());
        report = string_concat(report, "\n");
        report = string_concat(report, "  Threats Mitigated: ");
        report = string_concat(report, decimal_string(m.threat_mitigations).as_str());
        report = string_concat(report, "\n");
        let (recent, _) = self.recent_within(3_600_000_000_000, true);
        let ghost rv = recent@.map_values(|e: SecurityEvent| e.view_of());
        report = string_concat(report, "\nRecent Events (Last Hour): ");
        report = string_concat(report, decimal_string(recent.len() as u64).as_str());
        report = string_concat(report, "\n");
        let ghost head = report@;
        let shown: usize = if recent.len() < 10 { recent.len() } else { 10 };
        let mut i: usize = 0;
        while i < shown
            invariant
                shown <= recent@.len(),
                i <= shown,
                rv == recent@.map_values(|e: SecurityEvent| e.view_of()),
                report@ == head + security_event_lines(rv.take(i as int)),
            decreases shown - i,
        {
            let e = &recent[i];
            report = string_concat(report, "  ");
            report = string_concat(report, event_type_text(e.event_type));
            report = string_concat(report, " [");
            report = string_concat(report, severity_text(e.severity));
            report = string_concat(report, "] - ");
            report = string_concat(report, e.description.as_str());
            report = string_concat(report, "\n");
            proof {
                assert(rv.take(i + 1).drop_last() =~= rv.take(i as int));
                assert(rv.take(i + 1).last() == e.view_of());
            }
            i = i + 1;
        }
        let ghost mid = report@;
        report = string_concat(report, "\nThreat Detection Patterns: ");
        report = string_concat(report, decimal_string(self.threat_patterns.len() as u64).as_str());
        report = string_concat(report, "\n");
        let ghost head2 = report@;
        let mut j: usize = 0;
        while j < self.threat_patterns.len()
            invariant
                j <= self.threat_patterns@.len(),
                report@ == head2 + pattern_lines(self.patterns().take(j as int)),
            decreases self.threat_patterns@.len() - j,
        {
            let p = &self.threat_patterns[j];
            report = string_concat(report, "  ");
            report = string_concat(report, p.name.as_str());
            report = string_concat(report, " - ");
            report = string_concat(report, p.description.as_str());
            report = string_concat(report, "\n");
            proof {
                assert(self.patterns().take(j + 1).drop_last() =~= self.patterns().take(j as int));
                assert(self.patterns().take(j + 1).last() == (p.name@, p.description@));
            }
            j = j + 1;
        }
        proof {
            assert(self.patterns().take(j as int) =~= self.patterns());
            let el = choose|el: Seq<u128>| el.len() == self.events().len()
                && rv == recent_events(self.events(), el, security_report_window());
            assert(report@ =~= security_report_text(self.metrics, rv, self.patterns()));
        }
        report
    }
}

/// What a simulated threat looks like: a suspicious network pattern of
/// low severity from 192.168.1.100, mitigated.
pub open spec fn simulated_event(e: SecurityEventView) -> bool {
    &&& e.1 == SecurityEventType::SuspiciousNetworkPattern
    &&& e.2 == SecurityEventSeverity::Low
    &&& e.3 == "Unusual network traffic pattern detected"@
    &&& e.4 == Some("192.168.1.100"@)
    &&& e.5
    &&& e.6.len() == 0
}

/// Drop the oldest events until at most `max` are left.
fn trim_events(history: &mut Vec<SecurityEvent>, max: usize)
    requires
        old(history)@.len() <= max + 1,
    ensures
        final(history)@.map_values(|e: SecurityEvent| e.view_of()) == keep_last(old(history)@.map_values(|e: SecurityEvent| e.view_of()), max as int),
        final(history)@.len() <= max,
{
    if history.len() > max {
        let ghost before = history@.map_values(|e: SecurityEvent| e.view_of());
        history.remove(0);
        assert(history@.map_values(|e: SecurityEvent| e.view_of()) =~= before.subrange(1, before.len() as int));
    }
}

} // verus!
