use std::time::{Duration, Instant};
use tn5250r::monitoring::{
    assess_checks, perform_health_check, AlertingSystem, ComponentHealthCheck, HealthStatus, MemoryInfo, SecurityConfig,
    SecurityEvent, SecurityEventSeverity, SecurityEventType, SecurityMonitor, SystemHealth,
};
use tn5250r::text::parse_u64;

fn event(t: SecurityEventType, severity: SecurityEventSeverity, description: &str) -> SecurityEvent {
    SecurityEvent {
        timestamp: Instant::now(),
        event_type: t,
        severity,
        description: description.to_string(),
        source_ip: None,
        details: Vec::new(),
        mitigated: false,
    }
}

fn fresh_health() -> SystemHealth {
    SystemHealth {
        status: HealthStatus::Healthy,
        last_check: Instant::now(),
        consecutive_failures: 0,
        component_health: Vec::new(),
        uptime: Duration::from_secs(0),
        memory_usage: MemoryInfo { current_usage: 0, peak_usage: 0, allocations: 0, deallocations: 0 },
    }
}

fn check(status: HealthStatus, message: &str, details: Vec<(&str, &str)>) -> ComponentHealthCheck {
    ComponentHealthCheck {
        status,
        message: message.to_string(),
        details: details.into_iter().map(|(k, v)| (k.to_string(), v.to_string())).collect(),
    }
}

#[test]
fn test_security_monitor_creation() {
    let monitor = SecurityMonitor::new();
    assert_eq!(monitor.metrics.total_security_events, 0);
    assert!(monitor.generate_report().contains("\nThreat Detection Patterns: 4\n"));
}

#[test]
fn test_security_config_default() {
    let config = SecurityConfig::default();
    assert_eq!(config.enable_threat_detection, true);
    assert_eq!(config.auth_failure_threshold, 5);
}

#[test]
fn test_security_event_recording() {
    let mut monitor = SecurityMonitor::new();
    let mut e = event(SecurityEventType::AuthenticationFailure, SecurityEventSeverity::Medium, "Test authentication failure");
    e.source_ip = Some("127.0.0.1".to_string());
    monitor.record_security_event(e);
    assert_eq!(monitor.metrics.total_security_events, 1);
    assert_eq!(monitor.metrics.authentication_failures, 1);
}

#[test]
fn test_recent_security_events() {
    let mut monitor = SecurityMonitor::new();
    monitor.record_security_event(event(SecurityEventType::SuspiciousNetworkPattern, SecurityEventSeverity::Low, "Test event"));
    let recent_events = monitor.get_recent_security_events(Duration::from_secs(60));
    assert_eq!(recent_events.len(), 1);
    assert_eq!(recent_events[0].event_type, SecurityEventType::SuspiciousNetworkPattern);
}

#[test]
fn security_counters_follow_the_event_type() {
    let mut monitor = SecurityMonitor::new();
    monitor.record_security_event(event(SecurityEventType::ThreatDetected, SecurityEventSeverity::High, "a"));
    monitor.record_security_event(event(SecurityEventType::ThreatMitigated, SecurityEventSeverity::Low, "b"));
    monitor.record_security_event(event(SecurityEventType::ProtocolViolation, SecurityEventSeverity::Low, "c"));
    let m = monitor.get_metrics();
    assert_eq!(m.total_security_events, 3);
    assert_eq!(m.threat_mitigations, 1);
    assert_eq!(m.protocol_violations, 1);
    assert_eq!(m.authentication_failures, 0);
}

#[test]
fn security_history_keeps_the_latest_thousand() {
    let mut monitor = SecurityMonitor::new();
    for i in 0..1005 {
        monitor.record_security_event(event(SecurityEventType::PolicyViolation, SecurityEventSeverity::Low, &i.to_string()));
    }
    let recent = monitor.get_recent_security_events(Duration::from_secs(3600));
    assert_eq!(recent.len(), 1000);
    assert_eq!(recent[0].description, "5");
    assert_eq!(monitor.metrics.policy_violations, 1005);
}

#[test]
fn security_health_levels_and_messages() {
    let mut monitor = SecurityMonitor::new();
    let healthy = monitor.check_security_health(None).unwrap();
    assert_eq!(healthy.status, HealthStatus::Healthy);
    assert_eq!(healthy.message, "Security status is healthy");
    for _ in 0..6 {
        monitor.record_security_event(event(SecurityEventType::AuthenticationFailure, SecurityEventSeverity::Medium, "x"));
    }
    let warned = monitor.check_security_health(Some(("0.0%".to_string(), true))).unwrap();
    assert_eq!(warned.status, HealthStatus::Warning);
    assert_eq!(
        warned.message,
        "Security issues detected: High authentication failure rate: 6, Low mitigation success rate: 0.0%"
    );
    assert_eq!(warned.details[0], ("authentication_failures".to_string(), "6".to_string()));
    assert_eq!(warned.details[3], ("mitigation_success_rate".to_string(), "0.0%".to_string()));
    monitor.record_security_event(event(SecurityEventType::InjectionAttempt, SecurityEventSeverity::Critical, "y"));
    let critical = monitor.check_security_health(None).unwrap();
    assert_eq!(critical.status, HealthStatus::Critical);
    assert_eq!(
        critical.message,
        "Security issues detected: High authentication failure rate: 6, 1 critical security events in last 5 minutes"
    );
}

#[test]
fn security_report_lists_events_and_patterns() {
    let mut monitor = SecurityMonitor::new();
    monitor.record_security_event(event(SecurityEventType::InjectionAttempt, SecurityEventSeverity::High, "bad input"));
    let report = monitor.generate_report();
    assert!(report.starts_with("=== Security Monitoring Report ===\n\nSecurity Events:\n  Total Events: 1\n"));
    assert!(report.contains("\nRecent Events (Last Hour): 1\n  InjectionAttempt [HIGH] - bad input\n"));
    assert!(report.ends_with("  suspicious_network - Suspicious network traffic pattern\n"));
}

#[test]
fn parses_decimal_numbers() {
    assert_eq!(parse_u64("42"), Some(42));
    assert_eq!(parse_u64("+7"), Some(7));
    assert_eq!(parse_u64("18446744073709551615"), Some(u64::MAX));
    assert_eq!(parse_u64("18446744073709551616"), None);
    assert_eq!(parse_u64(""), None);
    assert_eq!(parse_u64("+"), None);
    assert_eq!(parse_u64("-1"), None);
    assert_eq!(parse_u64("1a"), None);
}

#[test]
fn system_health_folds_the_component_checks() {
    let (result, critical) = assess_checks(
        Ok(check(HealthStatus::Healthy, "ok", vec![])),
        Ok(check(HealthStatus::Warning, "slow", vec![])),
        Err("boom".to_string()),
        Ok(check(HealthStatus::Healthy, "ok", vec![])),
    );
    assert_eq!(result.overall_status, HealthStatus::Critical);
    assert_eq!(critical, 1);
    assert_eq!(result.component_results.len(), 4);
    assert_eq!(result.component_results[2].0, "security");
    assert_eq!(result.component_results[2].1.message, "Security check failed: boom");
    let (warn, none) = assess_checks(
        Ok(check(HealthStatus::Healthy, "ok", vec![])),
        Ok(check(HealthStatus::Warning, "slow", vec![])),
        Ok(check(HealthStatus::Healthy, "ok", vec![])),
        Ok(check(HealthStatus::Healthy, "ok", vec![])),
    );
    assert_eq!(warn.overall_status, HealthStatus::Warning);
    assert_eq!(none, 0);
}

#[test]
fn health_check_updates_health_and_alerts() {
    let mut health = fresh_health();
    let mut alerting = AlertingSystem::new();
    let result = perform_health_check(
        &mut health,
        &mut alerting,
        Ok(check(HealthStatus::Healthy, "ok", vec![("error_count", "3"), ("response_time_ms", "12")])),
        Ok(check(HealthStatus::Down, "down", vec![("error_count", "x")])),
        Ok(check(HealthStatus::Healthy, "ok", vec![])),
        Ok(check(HealthStatus::Healthy, "ok", vec![])),
    )
    .unwrap();
    assert_eq!(result.overall_status, HealthStatus::Critical);
    assert_eq!(health.status, HealthStatus::Critical);
    assert_eq!(health.consecutive_failures, 1);
    assert_eq!(health.component_health.len(), 4);
    assert_eq!(health.component_health[0].1.error_count, 3);
    assert_eq!(health.component_health[0].1.response_time_ms, 12);
    assert!(health.component_health[0].1.last_success.is_some());
    assert_eq!(health.component_health[1].1.error_count, 0);
    assert!(health.component_health[1].1.last_success.is_none());
    let alerts = alerting.get_active_alerts();
    assert_eq!(alerts.len(), 1);
    assert_eq!(alerts[0].component, "system");
    assert_eq!(alerts[0].message, "System health check failed with 1 critical issues");
    perform_health_check(
        &mut health,
        &mut alerting,
        Ok(check(HealthStatus::Healthy, "ok", vec![])),
        Ok(check(HealthStatus::Healthy, "ok", vec![])),
        Ok(check(HealthStatus::Healthy, "ok", vec![])),
        Ok(check(HealthStatus::Healthy, "ok", vec![])),
    )
    .unwrap();
    assert_eq!(health.status, HealthStatus::Healthy);
    assert_eq!(health.consecutive_failures, 0);
    assert_eq!(health.component_health.len(), 4);
    assert_eq!(health.component_health[0].1.error_count, 0);
}
