//! Runtime validation: a health check of memory, threads and resources
//! with counters of validations and their timing. How memory use compares
//! with its thresholds, and the success rate as a percentage, are worked
//! out by the caller and handed in.

use vstd::prelude::*;
use std::time::Instant;
use crate::clock::{duration_as_nanos, instant_now, nanos_since, seconds};
use crate::monitoring::integration_monitor::{check_view, join, join_strings, texts};
use crate::monitoring::security_monitor::bump;
use crate::monitoring::{ComponentHealthCheck, HealthStatus};
use crate::text::{decimal_seq, decimal_string, str_to_string, string_concat};

verus! {

/// Counters of runtime validations.
#[derive(Debug, Clone, Copy, PartialEq, Eq, Structural)]
pub struct RuntimeMetrics {
    pub total_validations: u64,
    pub successful_validations: u64,
    pub failed_validations: u64,
    /// Mean validation time in microseconds.
    pub avg_validation_time_us: u64,
    /// Longest validation time in microseconds.
    pub max_validation_time_us: u64,
    pub memory_validation_failures: u64,
    pub thread_state_failures: u64,
    pub resource_leak_detections: u64,
}

/// Settings of runtime validation.
#[derive(Debug, Clone, Copy, PartialEq, Eq, Structural)]
pub struct ValidationConfig {
    pub enable_memory_validation: bool,
    pub enable_thread_validation: bool,
    pub enable_resource_leak_detection: bool,
    /// Seconds between validations.
    pub validation_interval_seconds: u64,
    /// Longest a validation may take, in milliseconds.
    pub max_validation_time_ms: u64,
}

/// The default settings.
pub open spec fn default_validation_config() -> ValidationConfig {
    ValidationConfig {
        enable_memory_validation: true,
        enable_thread_validation: true,
        enable_resource_leak_detection: true,
        validation_interval_seconds: 30,
        max_validation_time_ms: 100,
    }
}

impl Default for ValidationConfig {
    fn default() -> (r: Self)
        ensures
            r == default_validation_config(),
    {
        ValidationConfig {
            enable_memory_validation: true,
            enable_thread_validation: true,
            enable_resource_leak_detection: true,
            validation_interval_seconds: 30,
            max_validation_time_ms: 100,
        }
    }
}

/// The error of a failed memory check, if it failed.
pub open spec fn failure_of(memory_check: Result<(), String>) -> Option<Seq<char>> {
    match memory_check {
        Ok(_) => None,
        Err(e) => Some(e@),
    }
}

/// The issues of a runtime validation: the memory check's error (when
/// memory is validated) and a validation that took longer than allowed.
pub open spec fn runtime_issues(c: ValidationConfig, memory: Option<Seq<char>>, time_us: u64) -> Seq<Seq<char>> {
    (if c.enable_memory_validation && memory is Some { seq!["Memory validation: "@ + memory->0] } else { Seq::empty() })
        + (if time_us > c.max_validation_time_ms * 1000 {
            seq!["Validation took too long: "@ + decimal_seq(time_us as nat) + " μs"@]
        } else {
            Seq::empty()
        })
}

/// The message of a runtime validation.
pub open spec fn runtime_message(issues: Seq<Seq<char>>) -> Seq<char> {
    if issues.len() == 0 {
        "All runtime validations passed"@
    } else {
        "Runtime validation issues: "@ + join(issues, ", "@)
    }
}

/// The details of a runtime validation, in order: the status of each check
/// that ran, the time taken, the validations counted and the success rate.
pub open spec fn runtime_details(c: ValidationConfig, memory: Option<Seq<char>>, time_us: u64, total: u64, success_rate: Seq<char>) -> Seq<(Seq<char>, Seq<char>)> {
    (if c.enable_memory_validation {
        seq![("memory_status"@, match memory {
            Some(e) => "error: "@ + e,
            None => "healthy"@,
        })]
    } else {
        Seq::empty()
    })
        + (if c.enable_thread_validation { seq![("thread_status"@, "healthy"@)] } else { Seq::empty() })
        + (if c.enable_resource_leak_detection { seq![("resource_status"@, "healthy"@)] } else { Seq::empty() })
        + seq![
            ("validation_time_us"@, decimal_seq(time_us as nat)),
            ("total_validations"@, decimal_seq(total as nat)),
            ("success_rate"@, success_rate),
        ]
}

/// The counters after a validation that took `time_us` and passed (or
/// not), with a failed memory check counted.
pub open spec fn runtime_counted(m: RuntimeMetrics, passed: bool, memory_failed: bool, time_us: u64) -> RuntimeMetrics {
    let total = bump(m.total_validations);
    RuntimeMetrics {
        total_validations: total,
        successful_validations: if passed { bump(m.successful_validations) } else { m.successful_validations },
        failed_validations: if passed { m.failed_validations } else { bump(m.failed_validations) },
        avg_validation_time_us: ((m.avg_validation_time_us * (total - 1) + time_us) / (total as int)) as u64,
        max_validation_time_us: if time_us > m.max_validation_time_us { time_us } else { m.max_validation_time_us },
        memory_validation_failures: if memory_failed { bump(m.memory_validation_failures) } else { m.memory_validation_failures },
        ..m
    }
}

/// Whether `e` nanoseconds are at least `secs` seconds.
pub open spec fn interval_passed(e: u128, secs: u64) -> bool {
    e >= secs as u128 * 1_000_000_000
}

/// The runtime validator.
pub struct RuntimeValidator {
    pub metrics: RuntimeMetrics,
    config: ValidationConfig,
    last_validation: Option<Instant>,
}

impl RuntimeValidator {
    /// The counters.
    pub closed spec fn counters(&self) -> RuntimeMetrics {
        self.metrics
    }

    /// The settings.
    pub closed spec fn settings(&self) -> ValidationConfig {
        self.config
    }

    /// When the last validation started, if one ran.
    pub closed spec fn last(&self) -> Option<Instant> {
        self.last_validation
    }

    /// A validator with zero counters, the default settings and no
    /// validation yet.
    pub fn new() -> (r: Self)
        ensures
            r.counters() == (RuntimeMetrics {
                total_validations: 0,
                successful_validations: 0,
                failed_validations: 0,
                avg_validation_time_us: 0,
                max_validation_time_us: 0,
                memory_validation_failures: 0,
                thread_state_failures: 0,
                resource_leak_detections: 0,
            }),
            r.settings() == default_validation_config(),
            r.last() is None,
    {
        RuntimeValidator {
            metrics: RuntimeMetrics {
                total_validations: 0,
                successful_validations: 0,
                failed_validations: 0,
                avg_validation_time_us: 0,
                max_validation_time_us: 0,
                memory_validation_failures: 0,
                thread_state_failures: 0,
                resource_leak_detections: 0,
            },
            config: ValidationConfig::default(),
            last_validation: None,
        }
    }

    /// Validate the system state. `memory_check` is the outcome of the
    /// memory check (its thresholds are percentages the caller compares);
    /// `success_rate` is the share of successful validations among all, this
    /// one included, written with two decimals and a percent sign. The
    /// thread and resource checks pass (ten open files against a limit of
    /// 1000). The level is a warning with any issue (see `runtime_issues`),
    /// else healthy; the counters take the validation (see
    /// `runtime_counted`, with the time measured).
    pub fn validate_system_state(&mut self, memory_check: Result<(), String>, success_rate: &str) -> (r: Result<ComponentHealthCheck, String>)
        requires
            old(self).counters().total_validations < u64::MAX,
        ensures
            final(self).settings() == old(self).settings(),
            final(self).last() is Some,
            r matches Ok(h) && exists|t: u64| #![trigger runtime_issues(old(self).settings(), failure_of(memory_check), t)] {
                let c = old(self).settings();
                let mem = failure_of(memory_check);
                let issues = runtime_issues(c, mem, t);
                let passed = issues.len() == 0;
                &&& check_view(h) == (
                    if passed { HealthStatus::Healthy } else { HealthStatus::Warning },
                    runtime_message(issues),
                    runtime_details(c, mem, t, (old(self).counters().total_validations + 1) as u64, success_rate@),
                )
                &&& final(self).counters() == runtime_counted(old(self).counters(), passed, c.enable_memory_validation && mem is Some, t)
            },
    {
        let start_time = instant_now();
        let ghost mem = failure_of(memory_check);
        let mut details: Vec<(String, String)> = Vec::new();
        let mut issues: Vec<String> = Vec::new();
        let mut memory_failed = false;
        if self.config.enable_memory_validation {
            match &memory_check {
                Ok(_) => {
                    details.push((str_to_string("memory_status"), str_to_string("healthy")));
                },
                Err(e) => {
                    issues.push(string_concat(str_to_string("Memory validation: "), e.as_str()));
                    details.push((str_to_string("memory_status"), string_concat(str_to_string("error: "), e.as_str())));
                    memory_failed = true;
                },
            }
        }
        if self.config.enable_thread_validation {
            match self.validate_thread_state() {
                Ok(_) => {
                    details.push((str_to_string("thread_status"), str_to_string("healthy")));
                },
                Err(e) => {
                    issues.push(string_concat(str_to_string("Thread validation: "), e.as_str()));
                    details.push((str_to_string("thread_status"), string_concat(str_to_string("error: "), e.as_str())));
                    self.metrics.thread_state_failures = if self.metrics.thread_state_failures == u64::MAX { 0 } else { self.metrics.thread_state_failures + 1 };
                },
            }
        }
        if self.config.enable_resource_leak_detection {
            match self.validate_resource_state() {
                Ok(_) => {
                    details.push((str_to_string("resource_status"), str_to_string("healthy")));
                },
                Err(e) => {
                    issues.push(string_concat(str_to_string("Resource validation: "), e.as_str()));
                    details.push((str_to_string("resource_status"), string_concat(str_to_string("error: "), e.as_str())));
                    self.metrics.resource_leak_detections = if self.metrics.resource_leak_detections == u64::MAX { 0 } else { self.metrics.resource_leak_detections + 1 };
                },
            }
        }
        let micros: u128 = nanos_since(&start_time) / 1000;
        let validation_time_us: u64 = #[verifier::truncate] (micros as u64);
        let limit: u128 = (self.config.max_validation_time_ms as u128) * 1000;
        if (validation_time_us as u128) > limit {
            let m = string_concat(str_to_string("Validation took too long: "), decimal_string(validation_time_us).as_str());
            issues.push(string_concat(m, " μs"));
        }
        let ghost expected = runtime_issues(self.config, mem, validation_time_us);
        assert(texts(issues@) =~= expected);
        let passed = issues.len() == 0;
        if memory_failed {
            self.metrics.memory_validation_failures = if self.metrics.memory_validation_failures == u64::MAX {
                0
            } else {
                self.metrics.memory_validation_failures + 1
            };
        }
        self.metrics.total_validations = self.metrics.total_validations + 1;
        let total = self.metrics.total_validations;
        if passed {
            self.metrics.successful_validations = if self.metrics.successful_validations == u64::MAX {
                0
            } else {
                self.metrics.successful_validations + 1
            };
        } else {
            self.metrics.failed_validations = if self.metrics.failed_validations == u64::MAX {
                0
            } else {
                self.metrics.failed_validations + 1
            };
        }
        let current_avg = self.metrics.avg_validation_time_us;
        let weight: u128 = (total - 1) as u128;
        assert((current_avg as u128) * weight <= 0xffff_ffff_ffff_ffffu128 * 0xffff_ffff_ffff_ffffu128) by (nonlinear_arith)
            requires
                current_avg <= 0xffff_ffff_ffff_ffffu64,
                weight <= 0xffff_ffff_ffff_ffffu128;
        let sum: u128 = (current_avg as u128) * weight + (validation_time_us as u128);
        proof {
            assert(sum <= (u64::MAX as int) * (total as int)) by (nonlinear_arith)
                requires
                    sum == current_avg * (total - 1) + validation_time_us,
                    current_avg <= u64::MAX,
                    validation_time_us <= u64::MAX,
                    total >= 1;
            assert((sum as int) / (total as int) <= u64::MAX) by (nonlinear_arith)
                requires
                    sum <= (u64::MAX as int) * (total as int),
                    total >= 1,
                    sum >= 0;
        }
        self.metrics.avg_validation_time_us = (sum / (total as u128)) as u64;
        if validation_time_us > self.metrics.max_validation_time_us {
            self.metrics.max_validation_time_us = validation_time_us;
        }
        self.last_validation = Some(start_time);
        details.push((str_to_string("validation_time_us"), decimal_string(validation_time_us)));
        details.push((str_to_string("total_validations"), decimal_string(total)));
        details.push((str_to_string("success_rate"), str_to_string(success_rate)));
        let message = if issues.len() == 0 {
            str_to_string("All runtime validations passed")
        } else {
            let joined = join_strings(&issues, ", ");
            string_concat(str_to_string("Runtime validation issues: "), joined.as_str())
        };
        let status = if passed { HealthStatus::Healthy } else { HealthStatus::Warning };
        let h = ComponentHealthCheck { status, message, details };
        assert(h.details@.map_values(|p: (String, String)| (p.0@, p.1@)) =~= runtime_details(
            old(self).config, mem, validation_time_us, total, success_rate@,
        ));
        assert(self.metrics == runtime_counted(old(self).metrics, passed, old(self).config.enable_memory_validation && mem is Some, validation_time_us));
        assert(passed == (expected.len() == 0));
        assert(check_view(h).1 == runtime_message(expected));
        assert(check_view(h).0 == (if expected.len() == 0 { HealthStatus::Healthy } else { HealthStatus::Warning }));
        assert(expected == runtime_issues(old(self).settings(), failure_of(memory_check), validation_time_us));
        Ok(h)
    }

    /// The thread check: it passes (there is no thread state to inspect).
    fn validate_thread_state(&self) -> (r: Result<(), String>)
        ensures
            r is Ok,
    {
        Ok(())
    }

    /// The resource check: too many open files fail it.
    fn validate_resource_state(&self) -> (r: Result<(), String>)
        ensures
            r is Ok,
    {
        let open_files = self.get_open_file_count()?;
        if open_files > 1000 {
            let m = string_concat(str_to_string("Too many open files: "), decimal_string(open_files as u64).as_str());
            return Err(m);
        }
        Ok(())
    }

    /// The number of open files: ten (no system figure is read).
    fn get_open_file_count(&self) -> (r: Result<usize, String>)
        ensures
            r == Ok::<usize, String>(10),
    {
        Ok(10)
    }

    /// The counters.
    pub fn get_metrics(&self) -> (r: &RuntimeMetrics)
        ensures
            *r == self.counters(),
    {
        &self.metrics
    }

    /// Use other settings.
    pub fn update_config(&mut self, config: ValidationConfig)
        ensures
            final(self).settings() == config,
            final(self).counters() == old(self).counters(),
            final(self).last() == old(self).last(),
    {
        self.config = config;
    }

    /// Whether a validation is due: always before the first one, else once
    /// the interval has passed since the last one started.
    pub fn should_validate(&self) -> (r: bool)
        ensures
            self.last() is None ==> r,
            self.last() is Some ==> exists|e: u128| r == #[trigger] interval_passed(e, self.settings().validation_interval_seconds),
    {
        match &self.last_validation {
            Some(last) => {
                let elapsed = nanos_since(last);
                let interval = duration_as_nanos(&seconds(self.config.validation_interval_seconds));
                let r = elapsed >= interval;
                assert(r == interval_passed(elapsed, self.settings().validation_interval_seconds));
                r
            },
            None => true,
        }
    }

    /// A quick check of memory alone (see `validate_system_state` for
    /// `memory_check`): a warning that names the failure, or healthy with
    /// the time it took.
    pub fn quick_validate(&self, memory_check: Result<(), String>) -> (r: Result<ComponentHealthCheck, String>)
        ensures
            r matches Ok(h) && match memory_check {
                Err(e) => check_view(h) == (
                    HealthStatus::Warning,
                    "Quick validation warning: "@ + e@,
                    seq![("quick_memory_check"@, "failed: "@ + e@)],
                ),
                Ok(_) => exists|t: u64| check_view(h) == (
                    HealthStatus::Healthy,
                    "Quick validation passed"@,
                    seq![("quick_memory_check"@, "passed"@), ("quick_validation_time_us"@, #[trigger] decimal_seq(t as nat))],
                ),
            },
    {
        let start_time = instant_now();
        let mut details: Vec<(String, String)> = Vec::new();
        match memory_check {
            Ok(_) => {
                details.push((str_to_string("quick_memory_check"), str_to_string("passed")));
            },
            Err(e) => {
                details.push((str_to_string("quick_memory_check"), string_concat(str_to_string("failed: "), e.as_str())));
                let h = ComponentHealthCheck {
                    status: HealthStatus::Warning,
                    message: string_concat(str_to_string("Quick validation warning: "), e.as_str()),
                    details,
                };
                assert(check_view(h).2 =~= seq![("quick_memory_check"@, "failed: "@ + e@)]);
                return Ok(h);
            },
        }
        let micros: u128 = nanos_since(&start_time) / 1000;
        let validation_time_us: u64 = #[verifier::truncate] (micros as u64);
        details.push((str_to_string("quick_validation_time_us"), decimal_string(validation_time_us)));
        let h = ComponentHealthCheck {
            status: HealthStatus::Healthy,
            message: str_to_string("Quick validation passed"),
            details,
        };
        assert(check_view(h).2 =~= seq![("quick_memory_check"@, "passed"@), ("quick_validation_time_us"@, decimal_seq(validation_time_us as nat))]);
        Ok(h)
    }
}

} // verus!
