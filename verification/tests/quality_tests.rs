use tn5250r::monitoring::{QualityAssurance, QualityConfig, TestCategory};

#[test]
fn test_quality_assurance_creation() {
    let qa = QualityAssurance::new();
    assert_eq!(qa.metrics.total_validations, 0);
    assert!(qa.metrics.code_quality_score > 0);
}

#[test]
fn test_test_suite_initialization() {
    let qa = QualityAssurance::new();
    let suites = &qa.test_suites;
    assert!(suites.iter().any(|(k, _)| k == "unit_tests"));
    assert!(suites.iter().any(|(k, _)| k == "integration_tests"));
    assert!(suites.iter().any(|(k, _)| k == "regression_tests"));
    let unit_suite = &suites.iter().find(|(k, _)| k == "unit_tests").unwrap().1;
    assert_eq!(unit_suite.test_cases.len(), 2);
    assert!(!unit_suite.is_regression_suite);
}

#[test]
fn test_quality_config_default() {
    let config = QualityConfig::default();
    assert_eq!(config.enable_automated_validation, true);
}

#[test]
fn quality_round_counts_validations_tests_and_scores() {
    let mut qa = QualityAssurance::new();
    qa.run_validations();
    let m = qa.get_metrics();
    assert_eq!(m.total_validations, 4);
    assert_eq!(m.successful_validations, 4);
    assert_eq!(m.failed_validations, 0);
    assert_eq!(m.tests_passed, 4);
    assert_eq!(m.tests_failed, 0);
    assert_eq!(m.test_suites_executed, 3);
    assert_eq!(m.regressions_detected, 0);
    assert_eq!(m.code_quality_score, 84);
    assert_eq!(m.test_coverage_percent, 76);
    for _ in 0..4 {
        qa.run_validations();
    }
    assert_eq!(qa.metrics.total_validations, 20);
    assert_eq!(qa.metrics.code_quality_score, 80);
    assert_eq!(qa.metrics.test_coverage_percent, 80);
    qa.run_validations();
    assert_eq!(qa.metrics.code_quality_score, 81);
}

#[test]
fn quality_report_lists_suites_and_latest_validations() {
    let mut qa = QualityAssurance::new();
    let fresh = qa.generate_report("0.0", "0.0");
    assert_eq!(
        fresh,
        "=== Quality Assurance Report ===\n\nQuality Metrics:\n  Code Quality Score: 85/100\n  Test Coverage: 75%\n  Regressions Detected: 0\n\nTest Suites: 3\n  unit_tests: 2 tests (standard)\n  integration_tests: 1 tests (standard)\n  regression_tests: 1 tests (regression)\n\nRecent Validations: 0\n"
    );
    qa.run_validations();
    let report = qa.generate_report("100.0", "0.0");
    assert!(report.contains("  Test Pass Rate: 100.0%\n"));
    assert!(report.contains("  Validation Success Rate: 0.0%\n"));
    assert!(report.ends_with(
        "\nRecent Validations: 4\n  integration_validation: PASS (100 μs)\n  security_validation: PASS (100 μs)\n  performance_validation: PASS (100 μs)\n  memory_validation: PASS (100 μs)\n"
    ));
    assert_eq!(qa.test_suites[2].1.test_cases[0].category, TestCategory::Regression);
}
