use std::time::Instant;
use tn5250r::platform::normalize_separators;
use tn5250r::monitoring::{
    Alert, AlertLevel, AlertingSystem, ComponentState, HealthStatus, IntegrationEvent, IntegrationEventType,
    IntegrationMonitor, SignalRegistry,
};

fn warning_alert(id: &str, component: &str, message: &str) -> Alert {
    Alert {
        id: id.to_string(),
        timestamp: Instant::now(),
        level: AlertLevel::Warning,
        component: component.to_string(),
        message: message.to_string(),
        details: Vec::new(),
        acknowledged: false,
        acknowledged_at: None,
        resolved: false,
        resolved_at: None,
        occurrence_count: 1,
        last_occurrence: Instant::now(),
    }
}

#[test]
fn test_integration_monitor_creation() {
    let monitor = IntegrationMonitor::new();
    let components = monitor.get_all_components();
    assert!(!components.is_empty());
    assert!(components.iter().any(|(name, _)| name == "network"));
    assert!(components.iter().any(|(name, _)| name == "controller"));
}

#[test]
fn test_component_registration() {
    let monitor = IntegrationMonitor::new();
    let network_status = monitor.get_component_status("network");
    assert!(network_status.is_some());

    let status = network_status.unwrap();
    assert_eq!(status.name, "network");
    assert_eq!(status.component_type, "AS400Connection");
    assert!(status.is_critical);
}

#[test]
fn test_critical_components() {
    let monitor = IntegrationMonitor::new();
    let critical = monitor.get_critical_components();
    assert!(!critical.is_empty());

    for (_, status) in critical {
        assert!(status.is_critical);
    }
}

#[test]
fn test_integration_event_recording() {
    let mut monitor = IntegrationMonitor::new();

    let event = IntegrationEvent {
        timestamp: Instant::now(),
        event_type: IntegrationEventType::ComponentInteraction,
        source_component: "network".to_string(),
        target_component: Some("controller".to_string()),
        description: "Test interaction".to_string(),
        details: Vec::new(),
        duration_us: Some(1000),
        success: true,
    };

    monitor.record_integration_event(event);

    assert_eq!(monitor.metrics.total_integration_events, 1);
    assert_eq!(monitor.metrics.component_interactions, 1);
}

#[test]
fn test_initial_integration_health_is_healthy() {
    let monitor = IntegrationMonitor::new();
    let result = monitor.check_integration_health().expect("health check should succeed");
    assert_eq!(result.status, HealthStatus::Healthy);
}

#[test]
fn test_alerting_system_creation() {
    let system = AlertingSystem::new();
    assert_eq!(system.metrics.total_alerts, 0);
    assert!(system.config().enable_alerting);
}

#[test]
fn test_alert_triggering() {
    let mut system = AlertingSystem::new();

    system.trigger_alert(warning_alert("test_alert", "test_component", "Test alert message"));

    assert_eq!(system.metrics.total_alerts, 1);
    assert_eq!(system.metrics.warning_alerts, 1);

    let active = system.get_active_alerts();
    assert_eq!(active.len(), 1);
    assert_eq!(active[0].component, "test_component");
}

#[test]
fn test_alert_acknowledgement() {
    let mut system = AlertingSystem::new();

    system.trigger_alert(warning_alert("test_alert", "test_component", "Test alert message"));

    let result = system.acknowledge_alert("test_alert");
    assert!(result.is_ok());

    assert_eq!(system.metrics.acknowledged_alerts, 1);

    let active = system.get_active_alerts();
    assert_eq!(active.len(), 1);
    assert!(active[0].acknowledged);
}

#[test]
fn test_alert_resolution() {
    let mut system = AlertingSystem::new();

    system.trigger_alert(warning_alert("test_alert", "test_component", "Test alert message"));

    let result = system.resolve_alert("test_alert");
    assert!(result.is_ok());

    assert_eq!(system.metrics.resolved_alerts, 1);

    let active = system.get_active_alerts();
    assert_eq!(active.len(), 0);
}

#[test]
fn test_recent_alerts() {
    let mut system = AlertingSystem::new();

    for i in 0..5 {
        let alert = warning_alert(&format!("test_alert_{i}"), &format!("component_{i}"), &format!("Test alert {i}"));
        system.trigger_alert(alert);
    }

    let recent = system.get_recent_alerts(3);
    assert_eq!(recent.len(), 3);
}

#[test]
fn alert_cooldown_silences_repeat() {
    let mut system = AlertingSystem::new();
    system.trigger_alert(warning_alert("a1", "disk", "first"));
    system.trigger_alert(warning_alert("a2", "disk", "second"));
    assert_eq!(system.metrics.total_alerts, 1);
    assert_eq!(system.get_active_alerts().len(), 1);
}

#[test]
fn alert_errors_name_the_id() {
    let mut system = AlertingSystem::new();
    assert_eq!(system.acknowledge_alert("nope"), Err("Alert nope not found or already acknowledged".to_string()));
    assert_eq!(system.resolve_alert("nope"), Err("Alert nope not found or already resolved".to_string()));
    assert_eq!(system.mark_false_positive("nope"), Err("Alert nope not found".to_string()));
}

#[test]
fn alert_without_id_gets_uuid() {
    let mut system = AlertingSystem::new();
    system.trigger_alert(warning_alert("", "net", "down"));
    let active = system.get_active_alerts();
    assert_eq!(active.len(), 1);
    assert_eq!(active[0].id.len(), 36);
}

#[test]
fn false_positive_counts_as_resolved() {
    let mut system = AlertingSystem::new();
    system.trigger_alert(warning_alert("x", "c", "m"));
    assert!(system.mark_false_positive("x").is_ok());
    assert_eq!(system.metrics.false_positives, 1);
    assert_eq!(system.metrics.resolved_alerts, 1);
    assert!(system.get_active_alerts().is_empty());
}

#[test]
fn alert_report_lists_active() {
    let mut system = AlertingSystem::new();
    system.trigger_alert(warning_alert("x", "c", "m"));
    let report = system.generate_report();
    assert!(report.starts_with("=== Alerting System Report ===\n\nAlert Metrics:\n  Total Alerts: 1\n"));
    assert!(report.contains("\nActive Alerts: 1\n  [WARN] c - m (UNACK)\n"));
    assert!(report.contains("\nRecent Alerts: 1\n  [WARN] c - m (ACTIVE)\n"));
}

#[test]
fn integration_health_counts_issues() {
    let h = tn5250r::monitoring::integration_monitor::integration_health(6, 2, 11, 6, 1, 6_000_000, 5_000_000);
    assert_eq!(h.status, HealthStatus::Critical);
    assert_eq!(
        h.message,
        "Integration issues: 2 critical components unhealthy, High failure rate: 11 failures in 5 minutes, Communication errors: 6, Dependency failures: 1, Slow integration time: 6000000 μs"
    );
    assert_eq!(h.details[0], ("critical_components_total".to_string(), "6".to_string()));
    let ok = tn5250r::monitoring::integration_monitor::integration_health(6, 0, 0, 0, 0, 0, 5_000_000);
    assert_eq!(ok.status, HealthStatus::Healthy);
    assert_eq!(ok.message, "All integrations healthy");
    let warn = tn5250r::monitoring::integration_monitor::integration_health(6, 0, 0, 6, 0, 0, 5_000_000);
    assert_eq!(warn.status, HealthStatus::Warning);
}

#[test]
fn validation_marks_reported_failure() {
    let mut monitor = IntegrationMonitor::new();
    monitor.report_component_status("network", ComponentState::Error);
    monitor.validate_components(false);
    let status = monitor.get_component_status("network").unwrap();
    assert_eq!(status.status, ComponentState::Error);
    assert_eq!(status.recent_error_count, 1);
    let keyboard = monitor.get_component_status("keyboard").unwrap();
    assert_eq!(keyboard.status, ComponentState::Running);
    let result = monitor.check_integration_health().unwrap();
    assert_eq!(result.status, HealthStatus::Critical);
}

#[test]
fn integration_average_time() {
    let mut monitor = IntegrationMonitor::new();
    for d in [1000u64, 3000u64] {
        monitor.record_integration_event(IntegrationEvent {
            timestamp: Instant::now(),
            event_type: IntegrationEventType::IntegrationSuccess,
            source_component: "a".to_string(),
            target_component: None,
            description: "x".to_string(),
            details: Vec::new(),
            duration_us: Some(d),
            success: true,
        });
    }
    assert_eq!(monitor.metrics.avg_integration_time_us, 2000);
    assert_eq!(monitor.metrics.successful_integrations, 2);
}

#[test]
fn signal_registry_keeps_fields() {
    let mut registry = SignalRegistry::new();
    registry.set_component_status("net", ComponentState::Warning);
    registry.set_component_critical("net", true);
    registry.set_component_metric("net", "latency", "5");
    registry.set_component_metric("net", "latency", "7");
    registry.set_component_error("net", Some("timeout"));
    let sig = registry.get_component_signal("net").unwrap();
    assert_eq!(sig.state, ComponentState::Warning);
    assert!(sig.is_critical);
    assert_eq!(sig.metrics, vec![("latency".to_string(), "7".to_string())]);
    assert_eq!(sig.last_error, Some("timeout".to_string()));
    assert!(registry.get_component_signal("other").is_none());
    assert_eq!(registry.get_all_signals().len(), 1);
    registry.clear_registry();
    assert!(registry.get_all_signals().is_empty());
}

#[test]
fn separators_follow_the_platform() {
    assert_eq!(normalize_separators("some\\windows\\path", false), "some/windows/path");
    assert_eq!(normalize_separators("some/unix/path", true), "some\\unix\\path");
    assert_eq!(normalize_separators("a/b\\c", false), "a/b/c");
}

#[test]
fn test_path_normalization() {
    // Windows separators.
    let path = normalize_separators("some/unix/path", true);
    assert!(path.contains('\\'));
    // Every other platform.
    let path = normalize_separators("some\\windows\\path", false);
    assert!(path.contains('/'));
}

#[test]
fn test_generated_alert_id_is_v4_uuid() {
    let mut system = AlertingSystem::new();
    system.trigger_alert(warning_alert("", "id_component", "An alert without an id"));
    let active = system.get_active_alerts();
    assert_eq!(active.len(), 1);
    let id: Vec<char> = active[0].id.chars().collect();
    assert_eq!(id.len(), 36);
    for (i, c) in id.iter().enumerate() {
        if i == 8 || i == 13 || i == 18 || i == 23 {
            assert_eq!(*c, '-');
        } else {
            assert!(c.is_ascii_hexdigit() && !c.is_ascii_uppercase());
        }
    }
    assert_eq!(id[14], '4');
    assert!(matches!(id[19], '8' | '9' | 'a' | 'b'));
}
