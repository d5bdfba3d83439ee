use tn5250r::monitoring::{HealthStatus, RuntimeValidator, ValidationConfig};

#[test]
fn test_runtime_validator_creation() {
    let validator = RuntimeValidator::new();
    assert_eq!(validator.metrics.total_validations, 0);
}

#[test]
fn test_validation_config_default() {
    let config = ValidationConfig::default();
    assert_eq!(config.enable_memory_validation, true);
}

#[test]
fn test_quick_validation() {
    let validator = RuntimeValidator::new();
    let result = validator.quick_validate(Ok(()));
    assert!(result.is_ok());
    let check = result.unwrap();
    assert_eq!(check.status, HealthStatus::Healthy);
    assert!(check.details.iter().any(|(k, _)| k == "quick_memory_check"));
}

#[test]
fn quick_validation_reports_a_memory_failure() {
    let validator = RuntimeValidator::new();
    let check = validator.quick_validate(Err("Memory usage high: 85.0%".to_string())).unwrap();
    assert_eq!(check.status, HealthStatus::Warning);
    assert_eq!(check.message, "Quick validation warning: Memory usage high: 85.0%");
    assert_eq!(check.details, vec![("quick_memory_check".to_string(), "failed: Memory usage high: 85.0%".to_string())]);
}

#[test]
fn runtime_validation_counts_and_reports() {
    let mut validator = RuntimeValidator::new();
    assert!(validator.should_validate());
    let check = validator.validate_system_state(Ok(()), "0.00%").unwrap();
    assert_eq!(check.status, HealthStatus::Healthy);
    assert_eq!(check.message, "All runtime validations passed");
    assert_eq!(check.details[0], ("memory_status".to_string(), "healthy".to_string()));
    assert_eq!(check.details[4], ("total_validations".to_string(), "1".to_string()));
    assert_eq!(check.details[5], ("success_rate".to_string(), "0.00%".to_string()));
    assert_eq!(validator.metrics.total_validations, 1);
    assert_eq!(validator.metrics.successful_validations, 1);
    assert!(!validator.should_validate());

    let warned = validator.validate_system_state(Err("Memory usage critical: 99.0%".to_string()), "50.00%").unwrap();
    assert_eq!(warned.status, HealthStatus::Warning);
    assert_eq!(warned.message, "Runtime validation issues: Memory validation: Memory usage critical: 99.0%");
    assert_eq!(warned.details[0], ("memory_status".to_string(), "error: Memory usage critical: 99.0%".to_string()));
    let m = validator.get_metrics();
    assert_eq!(m.total_validations, 2);
    assert_eq!(m.failed_validations, 1);
    assert_eq!(m.memory_validation_failures, 1);

    let mut config = ValidationConfig::default();
    config.enable_memory_validation = false;
    config.validation_interval_seconds = 0;
    validator.update_config(config);
    assert!(validator.should_validate());
    let skipped = validator.validate_system_state(Err("ignored".to_string()), "33.33%").unwrap();
    assert_eq!(skipped.status, HealthStatus::Healthy);
    assert_eq!(skipped.details[0], ("thread_status".to_string(), "healthy".to_string()));
}
