//! Quality assurance: built-in test suites, system validations with a
//! bounded history, regression detection and quality counters.

use vstd::prelude::*;
use std::time::Instant;
use crate::clock::{instant_now, nanos_since};
use crate::lib5250::telnet::text_pairs;
use crate::monitoring::integration_monitor::keep_last;
use crate::monitoring::security_monitor::bump;
use crate::text::{decimal_seq, decimal_string, str_to_string, string_concat};

verus! {

/// Quality counters.
#[derive(Debug, Clone, Copy, PartialEq, Eq, Structural)]
pub struct QualityMetrics {
    pub total_validations: u64,
    pub successful_validations: u64,
    pub failed_validations: u64,
    pub test_suites_executed: u64,
    pub tests_passed: u64,
    pub tests_failed: u64,
    pub regressions_detected: u64,
    /// Code quality score, 0 to 100.
    pub code_quality_score: u64,
    /// Test coverage in percent.
    pub test_coverage_percent: u64,
    /// Mean validation time in microseconds.
    pub avg_validation_time_us: u64,
}

/// Settings of quality assurance.
#[derive(Debug, Clone, Copy, PartialEq, Eq, Structural)]
pub struct QualityConfig {
    pub enable_automated_validation: bool,
    pub enable_regression_testing: bool,
    pub enable_code_quality_analysis: bool,
    /// How many validation results the history keeps.
    pub max_validation_history: usize,
    pub validation_interval_seconds: u64,
    pub enable_performance_regression_detection: bool,
}

/// The default settings.
pub open spec fn default_quality_config() -> QualityConfig {
    QualityConfig {
        enable_automated_validation: true,
        enable_regression_testing: true,
        enable_code_quality_analysis: true,
        max_validation_history: 1000,
        validation_interval_seconds: 300,
        enable_performance_regression_detection: true,
    }
}

impl Default for QualityConfig {
    fn default() -> (r: Self)
        ensures
            r == default_quality_config(),
    {
        QualityConfig {
            enable_automated_validation: true,
            enable_regression_testing: true,
            enable_code_quality_analysis: true,
            max_validation_history: 1000,
            validation_interval_seconds: 300,
            enable_performance_regression_detection: true,
        }
    }
}

/// Kinds of tests.
#[derive(Debug, Clone, Copy, PartialEq, Eq, Structural)]
pub enum TestCategory {
    Unit,
    Integration,
    Performance,
    Security,
    Regression,
    Smoke,
}

/// The outcome of running a test.
#[derive(Debug)]
pub struct TestResult {
    pub test_name: String,
    pub passed: bool,
    pub execution_time_us: u64,
    /// Why it failed, if it did.
    pub error_message: Option<String>,
    /// (name, value) details.
    pub details: Vec<(String, String)>,
}

/// The code a test case runs.
pub trait TestFunction: Send + Sync {
    /// The outcome and time the test always reports, when it is fixed
    /// (none for a test whose outcome depends on what it checks).
    spec fn fixed_outcome(&self) -> Option<(bool, u64)>;

    /// Run the test.
    fn run(&self) -> (r: TestResult)
        ensures
            self.fixed_outcome() matches Some(o) ==> r.passed == o.0 && r.execution_time_us == o.1,
    ;
}

/// A built-in test that stands for a real one: it always passes, in the
/// time it names.
pub struct SimulatedTest {
    pub name: &'static str,
    pub execution_time_us: u64,
}

impl TestFunction for SimulatedTest {
    open spec fn fixed_outcome(&self) -> Option<(bool, u64)> {
        Some((true, self.execution_time_us))
    }

    fn run(&self) -> (r: TestResult)
        ensures
            r.passed,
            r.test_name@ == self.name@,
            r.execution_time_us == self.execution_time_us,
            r.error_message is None,
            r.details@.len() == 0,
    {
        TestResult {
            test_name: str_to_string(self.name),
            passed: true,
            execution_time_us: self.execution_time_us,
            error_message: None,
            details: Vec::new(),
        }
    }
}

/// One test case.
pub struct TestCase {
    pub name: String,
    pub description: String,
    pub test_fn: Box<dyn TestFunction>,
    pub category: TestCategory,
    /// How long it is expected to take, in milliseconds.
    pub expected_duration_ms: u64,
}

/// A suite of test cases.
pub struct TestSuite {
    pub name: String,
    pub description: String,
    pub test_cases: Vec<TestCase>,
    pub is_regression_suite: bool,
    pub timeout_seconds: u64,
}

/// The result of one system validation.
#[derive(Debug)]
pub struct ValidationResult {
    pub timestamp: Instant,
    pub validation_type: String,
    pub passed: bool,
    /// (name, value) details.
    pub details: Vec<(String, String)>,
    pub duration_us: u64,
}

/// A validation result as plain values: type, outcome, duration and the
/// (name, value) details (its time is a clock reading, kept aside).
pub type ValidationView = (Seq<char>, bool, u64, Seq<(Seq<char>, Seq<char>)>);

impl ValidationResult {
    /// The result as plain values.
    pub open spec fn view_of(&self) -> ValidationView {
        (self.validation_type@, self.passed, self.duration_us, text_pairs(self.details@))
    }
}

/// A test case as plain values: name, description, category, expected
/// duration and the outcome and time its test always reports, if fixed.
pub type CaseView = (Seq<char>, Seq<char>, TestCategory, u64, Option<(bool, u64)>);

/// A suite as plain values: key, name, description, its cases, whether it
/// is a regression suite, and its timeout.
pub type SuiteView = (Seq<char>, Seq<char>, Seq<char>, Seq<CaseView>, bool, u64);

/// Test cases as plain values.
pub open spec fn cases_view(v: Seq<TestCase>) -> Seq<CaseView> {
    v.map_values(|c: TestCase| (c.name@, c.description@, c.category, c.expected_duration_ms, c.test_fn.fixed_outcome()))
}

/// Keyed suites as plain values.
pub open spec fn suites_view(v: Seq<(String, TestSuite)>) -> Seq<SuiteView> {
    v.map_values(|p: (String, TestSuite)| (p.0@, p.1.name@, p.1.description@, cases_view(p.1.test_cases@), p.1.is_regression_suite, p.1.timeout_seconds))
}

/// The built-in suites, by key: unit tests (two cases), integration tests
/// (one case) and regression tests (one case).
pub open spec fn builtin_suites() -> Seq<SuiteView> {
    seq![
        ("unit_tests"@, "Unit Tests"@, "Basic unit tests for core functionality"@, seq![
            ("terminal_creation"@, "Test terminal controller creation"@, TestCategory::Unit, 50u64, Some((true, 100u64))),
            ("network_connection"@, "Test network connection establishment"@, TestCategory::Unit, 200u64, Some((true, 500u64))),
        ], false, 30u64),
        ("integration_tests"@, "Integration Tests"@, "Test component interactions"@, seq![
            ("controller_network_integration"@, "Test controller-network integration"@, TestCategory::Integration, 1000u64, Some((true, 2000u64))),
        ], false, 60u64),
        ("regression_tests"@, "Regression Tests"@, "Test for functionality regressions"@, seq![
            ("field_detection_regression"@, "Test field detection hasn't regressed"@, TestCategory::Regression, 500u64, Some((true, 800u64))),
        ], true, 45u64),
    ]
}

/// The four system validations, in order.
pub open spec fn validation_names() -> Seq<Seq<char>> {
    seq!["memory_validation"@, "performance_validation"@, "security_validation"@, "integration_validation"@]
}

/// The mean after `added` more validations that took `duration` in all.
pub open spec fn new_average(current_avg: u64, total: u64, added: u64, duration: u64) -> u64 {
    ((current_avg * (total - added) + duration) / (total as int)) as u64
}

/// The counters after a round of the four validations (all passing) that
/// took `duration` microseconds.
pub open spec fn validations_counted(m: QualityMetrics, duration: u64) -> QualityMetrics {
    let total = (m.total_validations + 4) as u64;
    QualityMetrics {
        total_validations: total,
        successful_validations: (m.successful_validations + 4) as u64,
        avg_validation_time_us: new_average(m.avg_validation_time_us, total, 4, duration),
        ..m
    }
}

/// How many results passed.
pub open spec fn count_passed(s: Seq<ValidationView>) -> nat
    decreases s.len(),
{
    if s.len() == 0 {
        0
    } else {
        count_passed(s.drop_last()) + if s.last().1 { 1nat } else { 0nat }
    }
}

/// Whether the history shows a regression: with at least ten results, none
/// of the latest five passed while some of the first five did. (This is
/// the success-rate comparison `recent < baseline * (1 - 0.8)` of the
/// default sensitivity, on rates that are multiples of one fifth.)
pub open spec fn regression_in(h: Seq<ValidationView>) -> bool {
    &&& h.len() >= 10
    &&& count_passed(h.subrange(h.len() - 5, h.len() as int)) == 0
    &&& count_passed(h.take(5)) > 0
}

/// The quality score and coverage after an analysis: a score above 80
/// drops by one, else it rises by one; coverage under 90 rises by one.
pub open spec fn quality_updated(m: QualityMetrics) -> QualityMetrics {
    QualityMetrics {
        code_quality_score: if m.code_quality_score > 80 {
            (m.code_quality_score - 1) as u64
        } else {
            (m.code_quality_score + 1) as u64
        },
        test_coverage_percent: if m.test_coverage_percent < 90 {
            (m.test_coverage_percent + 1) as u64
        } else {
            m.test_coverage_percent
        },
        ..m
    }
}

/// One up `n` times, each wrapping past the largest value.
pub open spec fn bump_by(x: u64, n: nat) -> u64
    decreases n,
{
    if n == 0 {
        x
    } else {
        bump(bump_by(x, (n - 1) as nat))
    }
}

/// The counters after running suites: `passed` and `failed` tests and
/// `suites` suites counted (each count wrapping).
pub open spec fn tests_counted(m: QualityMetrics, passed: nat, failed: nat, suites: nat) -> QualityMetrics {
    QualityMetrics {
        tests_passed: bump_by(m.tests_passed, passed),
        tests_failed: bump_by(m.tests_failed, failed),
        test_suites_executed: bump_by(m.test_suites_executed, suites),
        ..m
    }
}

/// How many test cases the suites hold.
pub open spec fn case_count(s: Seq<SuiteView>) -> nat
    decreases s.len(),
{
    if s.len() == 0 {
        0
    } else {
        case_count(s.drop_last()) + s.last().3.len()
    }
}

/// The results of a round of the four validations: each passes, in 100
/// microseconds, without details.
pub open spec fn four_validations() -> Seq<ValidationView> {
    validation_names().map_values(|n: Seq<char>| (n, true, 100u64, Seq::<(Seq<char>, Seq<char>)>::empty()))
}

/// The counters after a regression check of history `h`.
pub open spec fn regressions_counted(m: QualityMetrics, h: Seq<ValidationView>) -> QualityMetrics {
    if regression_in(h) {
        QualityMetrics { regressions_detected: bump(m.regressions_detected), ..m }
    } else {
        m
    }
}

/// Counting `a` and then `b` more is counting `a + b`.
pub proof fn lemma_bump_by_add(x: u64, a: nat, b: nat)
    ensures
        bump_by(bump_by(x, a), b) == bump_by(x, a + b),
    decreases b,
{
    if b > 0 {
        lemma_bump_by_add(x, a, (b - 1) as nat);
    }
}

/// Trimming after each addition keeps the same elements as trimming once.
pub proof fn lemma_keep_last_push<T>(s: Seq<T>, x: T, m: int)
    requires
        m >= 0,
    ensures
        keep_last(keep_last(s, m).push(x), m) == keep_last(s.push(x), m),
{
    if s.len() > m {
        assert(keep_last(keep_last(s, m).push(x), m) =~= keep_last(s.push(x), m));
    }
}

/// A suite line of a report: key, case count and kind.
pub open spec fn suite_line(s: SuiteView) -> Seq<char> {
    "  "@ + s.0 + ": "@ + decimal_seq(s.3.len()) + " tests ("@ + (if s.4 { "regression"@ } else { "standard"@ }) + ")\n"@
}

/// The suite lines, one after the other.
pub open spec fn suite_lines(s: Seq<SuiteView>) -> Seq<char>
    decreases s.len(),
{
    if s.len() == 0 {
        Seq::empty()
    } else {
        suite_lines(s.drop_last()) + suite_line(s.last())
    }
}

/// A validation line of a report: type, outcome and duration.
pub open spec fn validation_line(v: ValidationView) -> Seq<char> {
    "  "@ + v.0 + ": "@ + (if v.1 { "PASS"@ } else { "FAIL"@ }) + " ("@ + decimal_seq(v.2 as nat) + " μs)\n"@
}

/// The lines of the latest `n` results, newest first.
pub open spec fn latest_lines(h: Seq<ValidationView>, n: nat) -> Seq<char>
    decreases n,
{
    if n == 0 || h.len() == 0 {
        Seq::empty()
    } else {
        validation_line(h.last()) + latest_lines(h.drop_last(), (n - 1) as nat)
    }
}

/// The metrics part of the quality report: score, coverage, the pass rate
/// of tests (when any ran), the regressions and the success rate of
/// validations (when any ran), the rates as the given texts.
pub open spec fn quality_metrics_text(m: QualityMetrics, pass_rate: Seq<char>, success_rate: Seq<char>) -> Seq<char> {
    "=== Quality Assurance Report ===\n\n"@
        + "Quality Metrics:\n"@
        + "  Code Quality Score: "@ + decimal_seq(m.code_quality_score as nat) + "/100\n"@
        + "  Test Coverage: "@ + decimal_seq(m.test_coverage_percent as nat) + "%\n"@
        + (if m.tests_passed + m.tests_failed > 0 { "  Test Pass Rate: "@ + pass_rate + "%\n"@ } else { Seq::empty() })
        + "  Regressions Detected: "@ + decimal_seq(m.regressions_detected as nat) + "\n"@
        + (if m.total_validations > 0 { "  Validation Success Rate: "@ + success_rate + "%\n"@ } else { Seq::empty() })
}

/// The suites part of the quality report.
pub open spec fn quality_suites_text(suites: Seq<SuiteView>) -> Seq<char> {
    "\nTest Suites: "@ + decimal_seq(suites.len()) + "\n"@ + suite_lines(suites)
}

/// The validations part of the quality report: the latest five.
pub open spec fn quality_validations_text(h: Seq<ValidationView>) -> Seq<char> {
    "\nRecent Validations: "@ + decimal_seq(if h.len() < 5 { h.len() } else { 5 }) + "\n"@ + latest_lines(h, 5)
}

/// The quality report: its metrics, suites and latest validations.
pub open spec fn quality_report_text(m: QualityMetrics, pass_rate: Seq<char>, success_rate: Seq<char>, suites: Seq<SuiteView>, h: Seq<ValidationView>) -> Seq<char> {
    quality_metrics_text(m, pass_rate, success_rate) + quality_suites_text(suites) + quality_validations_text(h)
}

/// The quality assurance system.
pub struct QualityAssurance {
    pub metrics: QualityMetrics,
    config: QualityConfig,
    /// The suites by key, in the order they were added.
    pub test_suites: Vec<(String, TestSuite)>,
    validation_history: Vec<ValidationResult>,
}

impl QualityAssurance {
    /// The counters.
    pub closed spec fn counters(&self) -> QualityMetrics {
        self.metrics
    }

    /// The settings.
    pub closed spec fn settings(&self) -> QualityConfig {
        self.config
    }

    /// The suites as plain values.
    pub closed spec fn suites(&self) -> Seq<SuiteView> {
        suites_view(self.test_suites@)
    }

    /// The validation history, oldest first.
    pub closed spec fn history(&self) -> Seq<ValidationView> {
        self.validation_history@.map_values(|v: ValidationResult| v.view_of())
    }

    /// The history holds at most the configured number of results.
    pub closed spec fn wf(&self) -> bool {
        self.validation_history@.len() <= self.config.max_validation_history
    }

    /// Quality assurance with the built-in suites, a score of 85, a coverage
    /// of 75 percent, other counters at zero and the default settings.
    pub fn new() -> (r: Self)
        ensures
            r.wf(),
            r.counters() == (QualityMetrics {
                total_validations: 0,
                successful_validations: 0,
                failed_validations: 0,
                test_suites_executed: 0,
                tests_passed: 0,
                tests_failed: 0,
                regressions_detected: 0,
                code_quality_score: 85,
                test_coverage_percent: 75,
                avg_validation_time_us: 0,
            }),
            r.settings() == default_quality_config(),
            r.suites() == builtin_suites(),
            r.history().len() == 0,
    {
        let mut qa = QualityAssurance {
            metrics: QualityMetrics {
                total_validations: 0,
                successful_validations: 0,
                failed_validations: 0,
                test_suites_executed: 0,
                tests_passed: 0,
                tests_failed: 0,
                regressions_detected: 0,
                code_quality_score: 85,
                test_coverage_percent: 75,
                avg_validation_time_us: 0,
            },
            config: QualityConfig::default(),
            test_suites: Vec::new(),
            validation_history: Vec::new(),
        };
        qa.initialize_test_suites();
        assert(qa.history() =~= Seq::<ValidationView>::empty());
        qa
    }

    /// A test case running a simulated test.
    fn simulated_case(name: &'static str, description: &str, time_us: u64, category: TestCategory, expected_ms: u64) -> (r: TestCase)
        ensures
            r.name@ == name@,
            r.description@ == description@,
            r.category == category,
            r.expected_duration_ms == expected_ms,
            r.test_fn.fixed_outcome() == Some((true, time_us)),
    {
        let test = SimulatedTest { name, execution_time_us: time_us };
        assert(test.fixed_outcome() == Some((true, time_us)));
        TestCase {
            name: str_to_string(name),
            description: str_to_string(description),
            test_fn: Box::new(test),
            category,
            expected_duration_ms: expected_ms,
        }
    }

    /// Replace the suites with the built-in ones (see `builtin_suites`).
    fn initialize_test_suites(&mut self)
        ensures
            final(self).suites() == builtin_suites(),
            final(self).metrics == old(self).metrics,
            final(self).config == old(self).config,
            final(self).validation_history == old(self).validation_history,
    {
        let mut suites: Vec<(String, TestSuite)> = Vec::new();
        let mut unit_cases: Vec<TestCase> = Vec::new();
        unit_cases.push(Self::simulated_case("terminal_creation", "Test terminal controller creation", 100, TestCategory::Unit, 50));
        unit_cases.push(Self::simulated_case("network_connection", "Test network connection establishment", 500, TestCategory::Unit, 200));
        assert(cases_view(unit_cases@) =~= builtin_suites()[0].3);
        suites.push((
            str_to_string("unit_tests"),
            TestSuite {
                name: str_to_string("Unit Tests"),
                description: str_to_string("Basic unit tests for core functionality"),
                test_cases: unit_cases,
                is_regression_suite: false,
                timeout_seconds: 30,
            },
        ));
        let mut integration_cases: Vec<TestCase> = Vec::new();
        integration_cases.push(Self::simulated_case(
            "controller_network_integration",
            "Test controller-network integration",
            2000,
            TestCategory::Integration,
            1000,
        ));
        assert(cases_view(integration_cases@) =~= builtin_suites()[1].3);
        suites.push((
            str_to_string("integration_tests"),
            TestSuite {
                name: str_to_string("Integration Tests"),
                description: str_to_string("Test component interactions"),
                test_cases: integration_cases,
                is_regression_suite: false,
                timeout_seconds: 60,
            },
        ));
        let mut regression_cases: Vec<TestCase> = Vec::new();
        regression_cases.push(Self::simulated_case(
            "field_detection_regression",
            "Test field detection hasn't regressed",
            800,
            TestCategory::Regression,
            500,
        ));
        assert(cases_view(regression_cases@) =~= builtin_suites()[2].3);
        suites.push((
            str_to_string("regression_tests"),
            TestSuite {
                name: str_to_string("Regression Tests"),
                description: str_to_string("Test for functionality regressions"),
                test_cases: regression_cases,
                is_regression_suite: true,
                timeout_seconds: 45,
            },
        ));
        self.test_suites = suites;
        assert(suites_view(self.test_suites@) =~~= builtin_suites());
    }


    /// Run the four system validations: each passes and joins the history
    /// (the latest `max_validation_history` kept); the counters take four
    /// successful validations and the mean time moves by the measured
    /// duration.
    fn run_system_validations(&mut self)
        requires
            old(self).wf(),
            old(self).counters().total_validations <= u64::MAX - 4,
            old(self).counters().successful_validations <= u64::MAX - 4,
        ensures
            final(self).wf(),
            exists|d: u64| final(self).counters() == validations_counted(old(self).counters(), d),
            final(self).history() == keep_last(old(self).history() + four_validations(), old(self).settings().max_validation_history as int),
            final(self).settings() == old(self).settings(),
            final(self).suites() == old(self).suites(),
    {
        let start_time = instant_now();
        let mut names: Vec<&'static str> = Vec::new();
        names.push("memory_validation");
        names.push("performance_validation");
        names.push("security_validation");
        names.push("integration_validation");
        let ghost h0 = self.history();
        let ghost max = self.config.max_validation_history as int;
        let mut passed: u64 = 0;
        let mut failed: u64 = 0;
        let mut i: usize = 0;
        while i < names.len()
            invariant
                names@.len() == 4,
                forall|k: int| 0 <= k < 4 ==> (#[trigger] names@[k])@ == validation_names()[k],
                i <= 4,
                passed == i,
                failed == 0,
                self.wf(),
                self.metrics == old(self).metrics,
                self.config == old(self).config,
                self.test_suites == old(self).test_suites,
                max == self.config.max_validation_history,
                h0 == old(self).history(),
                self.history() == keep_last(h0 + four_validations().take(i as int), max),
            decreases 4 - i,
        {
            let result = if i == 0 {
                self.validate_memory_usage()
            } else if i == 1 {
                self.validate_performance()
            } else if i == 2 {
                self.validate_security_posture()
            } else {
                self.validate_integrations()
            };
            let v = ValidationResult {
                timestamp: instant_now(),
                validation_type: str_to_string(names[i]),
                passed: result,
                details: Vec::new(),
                duration_us: 100,
            };
            if result {
                passed = passed + 1;
            } else {
                failed = failed + 1;
            }
            let ghost before = self.history();
            let ghost vv = v.view_of();
            assert(vv.3 =~= Seq::<(Seq<char>, Seq<char>)>::empty());
            self.validation_history.push(v);
            assert(self.history() =~= before.push(vv));
            trim_validations(&mut self.validation_history, self.config.max_validation_history);
            proof {
                lemma_keep_last_push(h0 + four_validations().take(i as int), vv, max);
                assert((h0 + four_validations().take(i as int)).push(vv) =~= h0 + four_validations().take(i + 1));
            }
            i = i + 1;
        }
        assert(four_validations().take(4) =~= four_validations());
        self.metrics.total_validations = self.metrics.total_validations + 4;
        self.metrics.successful_validations = self.metrics.successful_validations + passed;
        self.metrics.failed_validations = self.metrics.failed_validations + failed;
        let micros: u128 = nanos_since(&start_time) / 1000;
        let duration: u64 = #[verifier::truncate] (micros as u64);
        let total: u64 = self.metrics.total_validations;
        let current_avg: u64 = self.metrics.avg_validation_time_us;
        let weight: u128 = (total - 4) as u128;
        assert((current_avg as u128) * weight <= 0xffff_ffff_ffff_ffffu128 * 0xffff_ffff_ffff_ffffu128) by (nonlinear_arith)
            requires
                current_avg <= 0xffff_ffff_ffff_ffffu64,
                weight <= 0xffff_ffff_ffff_ffffu128;
        let sum: u128 = (current_avg as u128) * weight + (duration as u128);
        proof {
            assert(sum <= (u64::MAX as int) * (total as int)) by (nonlinear_arith)
                requires
                    sum == current_avg * (total - 4) + duration,
                    current_avg <= u64::MAX,
                    duration <= u64::MAX,
                    total >= 4;
            assert((sum as int) / (total as int) <= u64::MAX) by (nonlinear_arith)
                requires
                    sum <= (u64::MAX as int) * (total as int),
                    total >= 4,
                    sum >= 0;
        }
        let new_avg: u64 = (sum / (total as u128)) as u64;
        self.metrics.avg_validation_time_us = new_avg;
        assert(self.metrics == validations_counted(old(self).metrics, duration));
    }

    /// The memory validation: it passes (there is no memory figure to
    /// check).
    fn validate_memory_usage(&self) -> (r: bool)
        ensures
            r,
    {
        true
    }

    /// The performance validation: it passes (no threshold is checked).
    fn validate_performance(&self) -> (r: bool)
        ensures
            r,
    {
        true
    }

    /// The security validation: it passes (no setting is checked).
    fn validate_security_posture(&self) -> (r: bool)
        ensures
            r,
    {
        true
    }

    /// The integration validation: it passes (no interaction is checked).
    fn validate_integrations(&self) -> (r: bool)
        ensures
            r,
    {
        true
    }

    /// Run every suite in order (see `run_test_suite`).
    fn run_test_suites(&mut self)
        ensures
            exists|p: nat, f: nat| p + f == case_count(old(self).suites())
                && final(self).counters() == tests_counted(old(self).counters(), p, f, old(self).suites().len()),
            final(self).config == old(self).config,
            final(self).validation_history == old(self).validation_history,
            final(self).suites() == old(self).suites(),
    {
        let ghost sv = self.suites();
        let ghost mut p: nat = 0;
        let ghost mut f: nat = 0;
        let mut i: usize = 0;
        while i < self.test_suites.len()
            invariant
                i <= self.test_suites@.len(),
                sv == self.suites(),
                self.test_suites == old(self).test_suites,
                self.config == old(self).config,
                self.validation_history == old(self).validation_history,
                p + f == case_count(sv.take(i as int)),
                self.metrics == tests_counted(old(self).metrics, p, f, i as nat),
            decreases self.test_suites@.len() - i,
        {
            let (sp, sf) = Self::run_test_suite(&mut self.metrics, &self.test_suites[i].1);
            proof {
                assert(sv.take(i + 1).drop_last() =~= sv.take(i as int));
                assert(sv.take(i + 1).last().3.len() == self.test_suites@[i as int].1.test_cases@.len());
                lemma_bump_by_add(old(self).metrics.tests_passed, p, sp@);
                lemma_bump_by_add(old(self).metrics.tests_failed, f, sf@);
                lemma_bump_by_add(old(self).metrics.test_suites_executed, i as nat, 1);
                p = p + sp@;
                f = f + sf@;
            }
            i = i + 1;
        }
        assert(sv.take(i as int) =~= sv);
        assert(self.metrics == tests_counted(old(self).metrics, p, f, sv.len()));
        assert(old(self).suites() == sv);
        assert(p + f == case_count(old(self).suites())
            && self.counters() == tests_counted(old(self).counters(), p, f, old(self).suites().len()));
    }

    /// Run a suite's cases: each result counts as passed or failed, and the
    /// suite counts as executed. Returns the passed and failed counts.
    fn run_test_suite(metrics: &mut QualityMetrics, suite: &TestSuite) -> (r: (Ghost<nat>, Ghost<nat>))
        ensures
            r.0@ + r.1@ == suite.test_cases@.len(),
            ({
                let m = *old(metrics);
                &&& final(metrics).tests_passed == bump_by(m.tests_passed, r.0@)
                &&& final(metrics).tests_failed == bump_by(m.tests_failed, r.1@)
                &&& final(metrics).test_suites_executed == bump(m.test_suites_executed)
                &&& *final(metrics) == (QualityMetrics {
                    tests_passed: final(metrics).tests_passed,
                    tests_failed: final(metrics).tests_failed,
                    test_suites_executed: final(metrics).test_suites_executed,
                    ..m
                })
            }),
    {
        let ghost mut p: nat = 0;
        let ghost mut f: nat = 0;
        let mut j: usize = 0;
        while j < suite.test_cases.len()
            invariant
                j <= suite.test_cases@.len(),
                p + f == j,
                metrics.tests_passed == bump_by(old(metrics).tests_passed, p),
                metrics.tests_failed == bump_by(old(metrics).tests_failed, f),
                *metrics == (QualityMetrics { tests_passed: metrics.tests_passed, tests_failed: metrics.tests_failed, ..*old(metrics) }),
            decreases suite.test_cases@.len() - j,
        {
            let result = suite.test_cases[j].test_fn.run();
            if result.passed {
                metrics.tests_passed = if metrics.tests_passed == u64::MAX { 0 } else { metrics.tests_passed + 1 };
                proof {
                    p = p + 1;
                }
            } else {
                metrics.tests_failed = if metrics.tests_failed == u64::MAX { 0 } else { metrics.tests_failed + 1 };
                proof {
                    f = f + 1;
                }
            }
            j = j + 1;
        }
        metrics.test_suites_executed = if metrics.test_suites_executed == u64::MAX { 0 } else { metrics.test_suites_executed + 1 };
        (Ghost(p), Ghost(f))
    }

    /// Count a regression when the history shows one (see `regression_in`).
    fn check_for_regressions(&mut self)
        ensures
            final(self).counters() == regressions_counted(old(self).counters(), old(self).history()),
            final(self).config == old(self).config,
            final(self).validation_history == old(self).validation_history,
            final(self).test_suites == old(self).test_suites,
    {
        let n = self.validation_history.len();
        if n < 10 {
            return;
        }
        let ghost h = self.history();
        let mut recent_passed: usize = 0;
        let mut k: usize = n - 5;
        while k < n
            invariant
                n == h.len(),
                n >= 10,
                h == self.history(),
                n - 5 <= k <= n,
                recent_passed == count_passed(h.subrange(n - 5, k as int)),
                recent_passed <= k - (n - 5),
            decreases n - k,
        {
            assert(h.subrange(n - 5, k + 1).drop_last() =~= h.subrange(n - 5, k as int));
            assert(h[k as int].1 == self.validation_history@[k as int].passed);
            if self.validation_history[k].passed {
                recent_passed = recent_passed + 1;
            }
            k = k + 1;
        }
        let mut baseline_passed: usize = 0;
        let mut k: usize = 0;
        while k < 5
            invariant
                n == h.len(),
                n >= 10,
                h == self.history(),
                k <= 5,
                baseline_passed == count_passed(h.take(k as int)),
                baseline_passed <= k,
            decreases 5 - k,
        {
            assert(h.take(k + 1).drop_last() =~= h.take(k as int));
            assert(h[k as int].1 == self.validation_history@[k as int].passed);
            if self.validation_history[k].passed {
                baseline_passed = baseline_passed + 1;
            }
            k = k + 1;
        }
        if recent_passed == 0 && baseline_passed > 0 {
            self.metrics.regressions_detected = if self.metrics.regressions_detected == u64::MAX {
                0
            } else {
                self.metrics.regressions_detected + 1
            };
        }
    }

    /// Move the quality score and coverage (see `quality_updated`).
    fn update_code_quality_metrics(&mut self)
        ensures
            final(self).counters() == quality_updated(old(self).counters()),
            final(self).config == old(self).config,
            final(self).validation_history == old(self).validation_history,
            final(self).test_suites == old(self).test_suites,
    {
        let current_score = self.metrics.code_quality_score;
        let new_score = if current_score > 80 { current_score - 1 } else { current_score + 1 };
        self.metrics.code_quality_score = new_score;
        let current_coverage = self.metrics.test_coverage_percent;
        if current_coverage < 90 {
            self.metrics.test_coverage_percent = current_coverage + 1;
        }
    }

    /// Run what the settings switch on: the four system validations, every
    /// suite, the regression check and the quality analysis.
    pub fn run_validations(&mut self)
        requires
            old(self).wf(),
            old(self).counters().total_validations <= u64::MAX - 4,
            old(self).counters().successful_validations <= u64::MAX - 4,
        ensures
            final(self).wf(),
            final(self).settings() == old(self).settings(),
            final(self).suites() == old(self).suites(),
            !old(self).settings().enable_automated_validation ==> final(self).counters() == old(self).counters()
                && final(self).history() == old(self).history(),
            old(self).settings().enable_automated_validation ==> exists|d: u64, p: nat, f: nat|
                #![trigger tests_counted(validations_counted(old(self).counters(), d), p, f, old(self).suites().len())]
            {
                let c = old(self).settings();
                let h = keep_last(old(self).history() + four_validations(), c.max_validation_history as int);
                let m1 = tests_counted(validations_counted(old(self).counters(), d), p, f, old(self).suites().len());
                let m2 = if c.enable_regression_testing { regressions_counted(m1, h) } else { m1 };
                &&& p + f == case_count(old(self).suites())
                &&& final(self).history() == h
                &&& final(self).counters() == if c.enable_code_quality_analysis { quality_updated(m2) } else { m2 }
            },
    {
        if !self.config.enable_automated_validation {
            return;
        }
        self.run_system_validations();
        self.run_test_suites();
        if self.config.enable_regression_testing {
            self.check_for_regressions();
        }
        if self.config.enable_code_quality_analysis {
            self.update_code_quality_metrics();
        }
    }

    /// The counters.
    pub fn get_metrics(&self) -> (r: &QualityMetrics)
        ensures
            *r == self.counters(),
    {
        &self.metrics
    }

    /// A text report (see `quality_report_text`). The pass rate of tests and
    /// the success rate of validations are given as texts: percentages with
    /// one decimal, which the caller works out from the counters.
    pub fn generate_report(&self, pass_rate: &str, success_rate: &str) -> (r: String)
        ensures
            r@ == quality_report_text(self.counters(), pass_rate@, success_rate@, self.suites(), self.history()),
    {
        let a = metrics_section(self.metrics, pass_rate, success_rate);
        let b = self.suites_section();
        let c = self.validations_section();
        let r = string_concat(string_concat(a, b.as_str()), c.as_str());
        assert(r@ =~= quality_report_text(self.counters(), pass_rate@, success_rate@, self.suites(), self.history()));
        r
    }

    /// The suites part of the report.
    fn suites_section(&self) -> (r: String)
        ensures
            r@ == quality_suites_text(self.suites()),
    {
        let mut report = str_to_string("\nTest Suites: ");
        report = string_concat(report, decimal_string(self.test_suites.len() as u64).as_str());
        report = string_concat(report, "\n");
        let ghost sv = self.suites();
        let ghost head = report@;
        let mut i: usize = 0;
        while i < self.test_suites.len()
            invariant
                i <= self.test_suites@.len(),
                sv == self.suites(),
                report@ == head + suite_lines(sv.take(i as int)),
            decreases self.test_suites@.len() - i,
        {
            let key = &self.test_suites[i].0;
            let suite = &self.test_suites[i].1;
            report = string_concat(report, "  ");
            report = string_concat(report, key.as_str());
            report = string_concat(report, ": ");
            report = string_concat(report, decimal_string(suite.test_cases.len() as u64).as_str());
            report = string_concat(report, " tests (");
            report = string_concat(report, if suite.is_regression_suite { "regression" } else { "standard" });
            report = string_concat(report, ")\n");
            proof {
                assert(sv.take(i + 1).drop_last() =~= sv.take(i as int));
                assert(sv.take(i + 1).last() == sv[i as int]);
            }
            i = i + 1;
        }
        assert(sv.take(i as int) =~= sv);
        report
    }

    /// The validations part of the report.
    fn validations_section(&self) -> (r: String)
        ensures
            r@ == quality_validations_text(self.history()),
    {
        let n = self.validation_history.len();
        let shown: usize = if n < 5 { n } else { 5 };
        let mut report = str_to_string("\nRecent Validations: ");
        report = string_concat(report, decimal_string(shown as u64).as_str());
        report = string_concat(report, "\n");
        let ghost h = self.history();
        let ghost head = report@;
        assert(h.take(n as int) =~= h);
        let mut j: usize = 0;
        while j < shown
            invariant
                n == h.len(),
                h == self.history(),
                shown == if n < 5 { n } else { 5 },
                j <= shown,
                report@ + latest_lines(h.take(n - j), (5 - j) as nat) == head + latest_lines(h, 5),
            decreases shown - j,
        {
            let v = &self.validation_history[n - 1 - j];
            let ghost before = report@;
            proof {
                assert(h.take(n - j).last() == v.view_of());
                assert(h.take(n - j).drop_last() =~= h.take(n - j - 1));
            }
            report = string_concat(report, "  ");
            report = string_concat(report, v.validation_type.as_str());
            report = string_concat(report, ": ");
            report = string_concat(report, if v.passed { "PASS" } else { "FAIL" });
            report = string_concat(report, " (");
            report = string_concat(report, decimal_string(v.duration_us).as_str());
            report = string_concat(report, " μs)\n");
            proof {
                assert(report@ =~= before + validation_line(v.view_of()));
                assert(latest_lines(h.take(n - j), (5 - j) as nat) == validation_line(v.view_of()) + latest_lines(h.take(n - j - 1), (5 - j - 1) as nat));
                assert(before + latest_lines(h.take(n - j), (5 - j) as nat) =~= report@ + latest_lines(h.take(n - j - 1), (5 - j - 1) as nat));
            }
            j = j + 1;
        }
        proof {
            if shown == n {
                assert(h.take(n - j) =~= Seq::<ValidationView>::empty());
            }
            assert(latest_lines(h.take(n - j), (5 - j) as nat) =~= Seq::<char>::empty());
            assert(report@ =~= head + latest_lines(h, 5));
        }
        report
    }
}

/// The metrics part of the report (see `quality_metrics_text`).
fn metrics_section(m: QualityMetrics, pass_rate: &str, success_rate: &str) -> (r: String)
    ensures
        r@ == quality_metrics_text(m, pass_rate@, success_rate@),
{
    let mut report = str_to_string("=== Quality Assurance Report ===\n\n");
    report = string_concat(report, "Quality Metrics:\n");
    report = string_concat(report, "  Code Quality Score: ");
    report = string_concat(report, decimal_string(m.code_quality_score).as_str());
    report = string_concat(report, "/100\n");
    report = string_concat(report, "  Test Coverage: ");
    report = string_concat(report, decimal_string(m.test_coverage_percent).as_str());
    report = string_concat(report, "%\n");
    if m.tests_passed > 0 || m.tests_failed > 0 {
        report = string_concat(report, "  Test Pass Rate: ");
        report = string_concat(report, pass_rate);
        report = string_concat(report, "%\n");
    }
    report = string_concat(report, "  Regressions Detected: ");
    report = string_concat(report, decimal_string(m.regressions_detected).as_str());
    report = string_concat(report, "\n");
    if m.total_validations > 0 {
        report = string_concat(report, "  Validation Success Rate: ");
        report = string_concat(report, success_rate);
        report = string_concat(report, "%\n");
    }
    assert(report@ =~= quality_metrics_text(m, pass_rate@, success_rate@));
    report
}

/// Drop the oldest results until at most `max` are left.
fn trim_validations(history: &mut Vec<ValidationResult>, max: usize)
    requires
        old(history)@.len() <= max + 1,
    ensures
        final(history)@.map_values(|v: ValidationResult| v.view_of()) == keep_last(old(history)@.map_values(|v: ValidationResult| v.view_of()), max as int),
        final(history)@.len() <= max,
{
    if history.len() > max {
        let ghost before = history@.map_values(|v: ValidationResult| v.view_of());
        history.remove(0);
        assert(history@.map_values(|v: ValidationResult| v.view_of()) =~= before.subrange(1, before.len() as int));
    }
}

} // verus!
