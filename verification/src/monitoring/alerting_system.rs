//! Alerting: alerts by level and component, the active ones and a bounded
//! history, acknowledgement and resolution, and handlers that are told of
//! each alert.

use vstd::prelude::*;
use std::time::Instant;
use crate::clock::{instant_now, nanos_since};
use crate::monitoring::integration_monitor::keep_last;
use crate::lib5250::telnet::text_pairs;
use crate::text::{decimal_seq, decimal_string, str_equal, str_to_string, string_concat};

verus! {

/// Whether a character is a lower-case hexadecimal digit.
pub open spec fn is_lower_hex(c: char) -> bool {
    ('0' <= c && c <= '9') || ('a' <= c && c <= 'f')
}

/// `uuid::Uuid::new_v4().to_string()`: a fresh random (version 4) UUID in
/// its hyphenated lower-case form: 36 characters, hyphens at 8, 13, 18 and
/// 23, lower-case hexadecimal digits elsewhere, the version digit '4' at 14
/// and the variant digit (8, 9, a or b) at 19. Which random UUID comes out
/// is not stated.
#[verifier::external_body]
pub(crate) fn new_alert_id() -> (r: String)
    ensures
        r@.len() == 36,
        forall|i: int| 0 <= i < 36 ==> if i == 8 || i == 13 || i == 18 || i == 23 {
            #[trigger] r@[i] == '-'
        } else {
            is_lower_hex(r@[i])
        },
        r@[14] == '4',
        r@[19] == '8' || r@[19] == '9' || r@[19] == 'a' || r@[19] == 'b',
{
    uuid::Uuid::new_v4().to_string()
}

/// Alert counters.
#[derive(Debug, Clone, Copy, PartialEq, Eq, Structural)]
pub struct AlertMetrics {
    pub total_alerts: u64,
    /// Critical and emergency alerts.
    pub critical_alerts: u64,
    pub warning_alerts: u64,
    pub info_alerts: u64,
    pub acknowledged_alerts: u64,
    pub resolved_alerts: u64,
    pub false_positives: u64,
    /// Mean seconds from an alert to its acknowledgement.
    pub avg_response_time_seconds: u64,
}

/// Alerting settings.
#[derive(Debug, Clone, Copy, PartialEq, Eq, Structural)]
pub struct AlertConfig {
    pub enable_alerting: bool,
    pub max_alert_history: usize,
    /// How long an alert of a component and level silences the next one.
    pub alert_cooldown_seconds: u64,
    pub enable_email_notifications: bool,
    pub enable_logging_notifications: bool,
    pub enable_dashboard_notifications: bool,
    pub critical_alert_threshold: u32,
    pub auto_resolve_after_seconds: u64,
}

/// The default settings: alerting on, 200 alerts kept, two minutes of
/// cooldown, no e-mail.
pub open spec fn default_alert_config() -> AlertConfig {
    AlertConfig {
        enable_alerting: true,
        max_alert_history: 200,
        alert_cooldown_seconds: 120,
        enable_email_notifications: false,
        enable_logging_notifications: true,
        enable_dashboard_notifications: true,
        critical_alert_threshold: 5,
        auto_resolve_after_seconds: 600,
    }
}

impl Default for AlertConfig {
    fn default() -> (r: Self)
        ensures
            r == default_alert_config(),
    {
        AlertConfig {
            enable_alerting: true,
            max_alert_history: 200,
            alert_cooldown_seconds: 120,
            enable_email_notifications: false,
            enable_logging_notifications: true,
            enable_dashboard_notifications: true,
            critical_alert_threshold: 5,
            auto_resolve_after_seconds: 600,
        }
    }
}

/// How serious an alert is.
#[derive(Debug, Clone, Copy, PartialEq, Eq, Structural)]
pub enum AlertLevel {
    Info,
    Warning,
    Critical,
    Emergency,
}

/// An alert.
#[derive(Debug)]
pub struct Alert {
    /// Its identifier (a fresh UUID when triggered without one).
    pub id: String,
    pub timestamp: Instant,
    pub level: AlertLevel,
    pub component: String,
    pub message: String,
    /// (name, value) details.
    pub details: Vec<(String, String)>,
    pub acknowledged: bool,
    pub acknowledged_at: Option<Instant>,
    pub resolved: bool,
    pub resolved_at: Option<Instant>,
    /// How often it occurred.
    pub occurrence_count: u32,
    pub last_occurrence: Instant,
}

/// An alert as plain values: id, time, level, component, message,
/// acknowledged (and when), resolved (and when), occurrences, last
/// occurrence and the (name, value) details.
pub type AlertView = (Seq<char>, Instant, AlertLevel, Seq<char>, Seq<char>, bool, Option<Instant>, bool, Option<Instant>, u32, Instant, Seq<(Seq<char>, Seq<char>)>);

impl Alert {
    /// The alert as plain values.
    pub open spec fn view_of(&self) -> AlertView {
        (
            self.id@,
            self.timestamp,
            self.level,
            self.component@,
            self.message@,
            self.acknowledged,
            self.acknowledged_at,
            self.resolved,
            self.resolved_at,
            self.occurrence_count,
            self.last_occurrence,
            text_pairs(self.details@),
        )
    }

    /// A copy with the same contents.
    pub fn duplicate(&self) -> (r: Self)
        ensures
            r.view_of() == self.view_of(),
    {
        let mut details: Vec<(String, String)> = Vec::new();
        let mut i: usize = 0;
        while i < self.details.len()
            invariant
                i <= self.details@.len(),
                text_pairs(details@) == text_pairs(self.details@.take(i as int)),
            decreases self.details@.len() - i,
        {
            let ghost before = details@;
            details.push((str_to_string(self.details[i].0.as_str()), str_to_string(self.details[i].1.as_str())));
            proof {
                assert(self.details@.take(i + 1) =~= self.details@.take(i as int).push(self.details@[i as int]));
                assert(text_pairs(details@) =~= text_pairs(before).push((self.details@[i as int].0@, self.details@[i as int].1@)));
                assert(text_pairs(details@) =~= text_pairs(self.details@.take(i + 1)));
            }
            i = i + 1;
        }
        assert(self.details@.take(i as int) =~= self.details@);
        Alert {
            id: str_to_string(self.id.as_str()),
            timestamp: self.timestamp,
            level: self.level,
            component: str_to_string(self.component.as_str()),
            message: str_to_string(self.message.as_str()),
            details,
            acknowledged: self.acknowledged,
            acknowledged_at: self.acknowledged_at,
            resolved: self.resolved,
            resolved_at: self.resolved_at,
            occurrence_count: self.occurrence_count,
            last_occurrence: self.last_occurrence,
        }
    }
}

/// Something that is told of alerts.
pub trait AlertHandler: Send + Sync {
    /// Handle an alert.
    fn handle_alert(&self, alert: &Alert) -> Result<(), String>;

    /// The handler's name.
    fn get_name(&self) -> &str;

    /// Whether it handles alerts of a level.
    fn can_handle(&self, level: &AlertLevel) -> bool;
}

/// The handler that logs every alert.
pub struct LoggingAlertHandler;

impl AlertHandler for LoggingAlertHandler {
    fn handle_alert(&self, alert: &Alert) -> Result<(), String> {
        Ok(())
    }

    fn get_name(&self) -> &str {
        "logging"
    }

    fn can_handle(&self, level: &AlertLevel) -> bool {
        true
    }
}

/// The counters after an alert of a level: the total and its level's
/// counter go up (wrapping).
pub open spec fn alert_counted(m: AlertMetrics, level: AlertLevel) -> AlertMetrics {
    let inc = |x: u64| if x == u64::MAX { 0u64 } else { (x + 1) as u64 };
    AlertMetrics {
        total_alerts: inc(m.total_alerts),
        critical_alerts: if level == AlertLevel::Critical || level == AlertLevel::Emergency { inc(m.critical_alerts) } else { m.critical_alerts },
        warning_alerts: if level == AlertLevel::Warning { inc(m.warning_alerts) } else { m.warning_alerts },
        info_alerts: if level == AlertLevel::Info { inc(m.info_alerts) } else { m.info_alerts },
        ..m
    }
}

/// The index of the first alert with the given id, or -1.
pub open spec fn alert_index(s: Seq<AlertView>, id: Seq<char>) -> int
    decreases s.len(),
{
    if s.len() == 0 {
        -1
    } else if alert_index(s.drop_last(), id) >= 0 {
        alert_index(s.drop_last(), id)
    } else if s.last().0 == id {
        s.len() - 1
    } else {
        -1
    }
}

/// Whether some alert of the history has the component and level and an
/// age (by `ages`, one reading per alert) under the cooldown.
pub open spec fn cooldown_hit(history: Seq<AlertView>, ages: Seq<u128>, component: Seq<char>, level: AlertLevel, cooldown: int) -> bool {
    exists|k: int| #![trigger history[k]] 0 <= k < history.len() && history[k].3 == component && history[k].2 == level && ages[k] < cooldown
}

/// The index of the first alert of a component and level, or -1.
pub open spec fn same_source_index(s: Seq<AlertView>, component: Seq<char>, level: AlertLevel) -> int
    decreases s.len(),
{
    if s.len() == 0 {
        -1
    } else if same_source_index(s.drop_last(), component, level) >= 0 {
        same_source_index(s.drop_last(), component, level)
    } else if s.last().3 == component && s.last().2 == level {
        s.len() - 1
    } else {
        -1
    }
}

/// The latest `n` alerts of a history, newest first.
pub open spec fn newest_first(s: Seq<AlertView>, n: nat) -> Seq<AlertView>
    decreases n,
{
    if n == 0 || s.len() == 0 {
        Seq::empty()
    } else {
        seq![s.last()] + newest_first(s.drop_last(), (n - 1) as nat)
    }
}

/// The alerts of a level, in order.
pub open spec fn of_level(s: Seq<AlertView>, level: AlertLevel) -> Seq<AlertView>
    decreases s.len(),
{
    if s.len() == 0 {
        Seq::empty()
    } else {
        of_level(s.drop_last(), level) + if s.last().2 == level { seq![s.last()] } else { Seq::empty() }
    }
}

/// The mean of `count` values that averaged `avg`, and `value`, rounded
/// down.
pub open spec fn running_average(avg: u64, count: u64, value: u64) -> u64 {
    ((avg * count + value) / (count + 1)) as u64
}

/// The mean after one more value: `count` values averaged `avg`; the
/// result is the floor of the new mean, which fits in 64 bits.
pub fn updated_average(avg: u64, count: u64, value: u64) -> (r: u64)
    requires
        count < u64::MAX,
    ensures
        r == running_average(avg, count, value),
{
    proof {
        let a = avg as int;
        let c = count as int;
        let v = value as int;
        assert(a * c <= 0xffff_ffff_ffff_ffff * 0xffff_ffff_ffff_ffff) by (nonlinear_arith)
            requires 0 <= a <= 0xffff_ffff_ffff_ffff, 0 <= c <= 0xffff_ffff_ffff_ffff;
        assert((a * c + v) / (c + 1) <= 0xffff_ffff_ffff_ffff) by (nonlinear_arith)
            requires 0 <= a <= 0xffff_ffff_ffff_ffff, 0 <= v <= 0xffff_ffff_ffff_ffff, 0 <= c;
    }
    let total = (avg as u128) * (count as u128) + (value as u128);
    let n = (count as u128) + 1;
    (total / n) as u64
}

/// The index of the first unresolved alert of a component and level, or
/// -1.
pub open spec fn open_index(s: Seq<AlertView>, component: Seq<char>, level: AlertLevel) -> int
    decreases s.len(),
{
    if s.len() == 0 {
        -1
    } else if open_index(s.drop_last(), component, level) >= 0 {
        open_index(s.drop_last(), component, level)
    } else if s.last().3 == component && s.last().2 == level && !s.last().7 {
        s.len() - 1
    } else {
        -1
    }
}

/// The level's tag in a report.
pub open spec fn level_tag(level: AlertLevel) -> Seq<char> {
    match level {
        AlertLevel::Info => "INFO"@,
        AlertLevel::Warning => "WARN"@,
        AlertLevel::Critical => "CRIT"@,
        AlertLevel::Emergency => "EMERG"@,
    }
}

/// A report line of an alert with its state word.
pub open spec fn alert_line(a: AlertView, state: Seq<char>) -> Seq<char> {
    "  ["@ + level_tag(a.2) + "] "@ + a.3 + " - "@ + a.4 + " ("@ + state + ")\n"@
}

/// Report lines of active alerts (acknowledged or not).
pub open spec fn active_lines(s: Seq<AlertView>) -> Seq<char>
    decreases s.len(),
{
    if s.len() == 0 {
        Seq::empty()
    } else {
        active_lines(s.drop_last()) + alert_line(s.last(), if s.last().5 { "ACK"@ } else { "UNACK"@ })
    }
}

/// Report lines of recent alerts (resolved or not).
pub open spec fn recent_lines(s: Seq<AlertView>) -> Seq<char>
    decreases s.len(),
{
    if s.len() == 0 {
        Seq::empty()
    } else {
        recent_lines(s.drop_last()) + alert_line(s.last(), if s.last().7 { "RESOLVED"@ } else { "ACTIVE"@ })
    }
}

/// At most the first `n` of a sequence.
pub open spec fn first_n<T>(s: Seq<T>, n: int) -> Seq<T> {
    if s.len() <= n { s } else { s.take(n) }
}

/// The counters part of the alerting report (the mean response time once
/// an alert was acknowledged).
pub open spec fn metrics_part(m: AlertMetrics) -> Seq<char> {
    "=== Alerting System Report ===\n\n"@ + "Alert Metrics:\n"@
        + "  Total Alerts: "@ + decimal_seq(m.total_alerts as nat) + "\n"@
        + "  Critical Alerts: "@ + decimal_seq(m.critical_alerts as nat) + "\n"@
        + "  Warning Alerts: "@ + decimal_seq(m.warning_alerts as nat) + "\n"@
        + "  Info Alerts: "@ + decimal_seq(m.info_alerts as nat) + "\n"@
        + "  Acknowledged: "@ + decimal_seq(m.acknowledged_alerts as nat) + "\n"@
        + "  Resolved: "@ + decimal_seq(m.resolved_alerts as nat) + "\n"@
        + "  False Positives: "@ + decimal_seq(m.false_positives as nat) + "\n"@
        + (if m.acknowledged_alerts > 0 {
            "  Avg Response Time: "@ + decimal_seq(m.avg_response_time_seconds as nat) + " seconds\n"@
        } else {
            Seq::empty()
        })
}

/// The active part of the alerting report: their number and ten listed.
pub open spec fn active_part(active: Seq<AlertView>) -> Seq<char> {
    "\nActive Alerts: "@ + decimal_seq(active.len()) + "\n"@ + active_lines(first_n(active, 10))
}

/// The recent part of the alerting report: the latest twenty, ten
/// listed.
pub open spec fn recent_part(history: Seq<AlertView>) -> Seq<char> {
    let recent = newest_first(history, 20);
    "\nRecent Alerts: "@ + decimal_seq(recent.len()) + "\n"@ + recent_lines(first_n(recent, 10))
}

/// The alerting report: the counters, the active alerts and the recent
/// ones.
pub open spec fn alert_report(m: AlertMetrics, active: Seq<AlertView>, history: Seq<AlertView>) -> Seq<char> {
    metrics_part(m) + active_part(active) + recent_part(history)
}

/// The active alerts after putting one in by its id: it replaces the
/// first alert with that id, or comes last.
pub open spec fn put_by_id(s: Seq<AlertView>, x: AlertView) -> Seq<AlertView> {
    let i = alert_index(s, x.0);
    if i >= 0 {
        s.update(i, x)
    } else {
        s.push(x)
    }
}

/// Whether an alert id occurs in a list.
pub open spec fn has_id(s: Seq<AlertView>, id: Seq<char>) -> bool {
    alert_index(s, id) >= 0
}

/// Whether `x` is what an alert (`alert`, triggered with `fresh` as the id
/// it gets) became: a repeat of the unresolved active alert of its
/// component and level counts one more occurrence and takes the new
/// message; anything else is the alert itself with its id.
pub open spec fn triggered_as(old_active: Seq<AlertView>, alert: AlertView, x: AlertView) -> bool {
    let i = open_index(old_active, alert.3, alert.2);
    &&& x.2 == alert.2 && x.3 == alert.3 && x.4 == alert.4
    &&& i >= 0 ==> {
        let e = old_active[i];
        &&& x.0 == e.0 && x.1 == e.1 && x.5 == e.5 && x.6 == e.6 && x.7 == e.7 && x.8 == e.8 && x.11 == e.11
        &&& x.9 == e.9 + 1
    }
    &&& i < 0 ==> {
        &&& (alert.0.len() > 0 ==> x.0 == alert.0)
        &&& (alert.0.len() == 0 ==> x.0.len() == 36)
        &&& x.1 == alert.1 && x.5 == alert.5 && x.6 == alert.6 && x.7 == alert.7 && x.8 == alert.8 && x.9 == alert.9
        &&& x.11 == alert.11
    }
}

/// What triggering alert `a` does: an alert of the same component and
/// level still in the history's cooldown leaves everything as it was;
/// otherwise the alert (as `triggered_as` makes it) is counted, joins the
/// history (the latest 200 kept) and updates the open alert of its
/// component and level, or joins the active alerts.
pub open spec fn trigger_outcome(before: AlertingSystem, after: AlertingSystem, a: AlertView) -> bool {
    ||| {
        &&& same_source_index(before.history(), a.3, a.2) >= 0
        &&& after.active() == before.active()
        &&& after.history() == before.history()
        &&& after.counters() == before.counters()
    }
    ||| {
        let x = after.history().last();
        &&& triggered_as(before.active(), a, x)
        &&& after.counters() == alert_counted(before.counters(), a.2)
        &&& after.history().len() > 0
        &&& after.history() == keep_last(before.history().push(x), 200)
        &&& open_index(before.active(), a.3, a.2) >= 0 ==> after.active()
            == before.active().update(open_index(before.active(), a.3, a.2), x)
        &&& open_index(before.active(), a.3, a.2) < 0 ==> after.active()
            == put_by_id(before.active(), x)
    }
}

/// The alerting system: counters, settings, the active alerts (each id
/// once), a bounded history and the handlers.
pub struct AlertingSystem {
    pub metrics: AlertMetrics,
    config: AlertConfig,
    active_alerts: Vec<Alert>,
    alert_history: Vec<Alert>,
    alert_handlers: Vec<Box<dyn AlertHandler>>,
}

impl AlertingSystem {
    /// The counters.
    pub closed spec fn counters(&self) -> AlertMetrics {
        self.metrics
    }

    /// The settings.
    pub closed spec fn settings(&self) -> AlertConfig {
        self.config
    }

    /// The active alerts.
    pub closed spec fn active(&self) -> Seq<AlertView> {
        self.active_alerts@.map_values(|a: Alert| a.view_of())
    }

    /// The alert history, oldest first.
    pub closed spec fn history(&self) -> Seq<AlertView> {
        self.alert_history@.map_values(|a: Alert| a.view_of())
    }

    /// The settings are the defaults.
    pub closed spec fn wf(&self) -> bool {
        self.config == default_alert_config()
    }

    /// A system with no alerts and the logging handler.
    pub fn new() -> (r: Self)
        ensures
            r.wf(),
            r.counters() == (AlertMetrics {
                total_alerts: 0,
                critical_alerts: 0,
                warning_alerts: 0,
                info_alerts: 0,
                acknowledged_alerts: 0,
                resolved_alerts: 0,
                false_positives: 0,
                avg_response_time_seconds: 0,
            }),
            r.settings() == default_alert_config(),
            r.active().len() == 0,
            r.history().len() == 0,
    {
        let mut system = AlertingSystem {
            metrics: AlertMetrics {
                total_alerts: 0,
                critical_alerts: 0,
                warning_alerts: 0,
                info_alerts: 0,
                acknowledged_alerts: 0,
                resolved_alerts: 0,
                false_positives: 0,
                avg_response_time_seconds: 0,
            },
            config: AlertConfig::default(),
            active_alerts: Vec::new(),
            alert_history: Vec::new(),
            alert_handlers: Vec::new(),
        };
        system.register_alert_handler(Box::new(LoggingAlertHandler));
        system
    }

    /// The settings.
    pub fn config(&self) -> (r: &AlertConfig)
        ensures
            *r == self.settings(),
    {
        &self.config
    }

    /// Add a handler; it is told of each later alert it can handle.
    pub fn register_alert_handler(&mut self, handler: Box<dyn AlertHandler>)
        ensures
            final(self).counters() == old(self).counters(),
            final(self).settings() == old(self).settings(),
            final(self).active() == old(self).active(),
            final(self).history() == old(self).history(),
            final(self).wf() == old(self).wf(),
    {
        self.alert_handlers.push(handler);
    }

    /// Where the active alert with an id is.
    fn find_active(&self, alert_id: &str) -> (r: Option<usize>)
        ensures
            match r {
                Some(i) => i as int == alert_index(self.active(), alert_id@) && i < self.active_alerts@.len(),
                None => alert_index(self.active(), alert_id@) == -1,
            },
    {
        let mut found: Option<usize> = None;
        let mut i: usize = 0;
        while i < self.active_alerts.len()
            invariant
                i <= self.active_alerts@.len(),
                match found {
                    Some(k) => k as int == alert_index(self.active().take(i as int), alert_id@) && k < i,
                    None => alert_index(self.active().take(i as int), alert_id@) == -1,
                },
            decreases self.active_alerts@.len() - i,
        {
            proof {
                assert(self.active().take(i + 1).drop_last() =~= self.active().take(i as int));
                assert(self.active().take(i + 1).last() == self.active_alerts@[i as int].view_of());
            }
            if found.is_none() && str_equal(self.active_alerts[i].id.as_str(), alert_id) {
                found = Some(i);
            }
            i = i + 1;
        }
        assert(self.active().take(i as int) =~= self.active());
        found
    }

    /// Where the unresolved active alert of a component and level is.
    fn get_existing_alert(&self, new_alert: &Alert) -> (r: Option<usize>)
        ensures
            match r {
                Some(i) => i as int == open_index(self.active(), new_alert.component@, new_alert.level) && i < self.active_alerts@.len(),
                None => open_index(self.active(), new_alert.component@, new_alert.level) == -1,
            },
    {
        let mut found: Option<usize> = None;
        let mut i: usize = 0;
        while i < self.active_alerts.len()
            invariant
                i <= self.active_alerts@.len(),
                match found {
                    Some(k) => k as int == open_index(self.active().take(i as int), new_alert.component@, new_alert.level) && k < i,
                    None => open_index(self.active().take(i as int), new_alert.component@, new_alert.level) == -1,
                },
            decreases self.active_alerts@.len() - i,
        {
            proof {
                assert(self.active().take(i + 1).drop_last() =~= self.active().take(i as int));
                assert(self.active().take(i + 1).last() == self.active_alerts@[i as int].view_of());
            }
            if found.is_none() && str_equal(self.active_alerts[i].component.as_str(), new_alert.component.as_str())
                && self.active_alerts[i].level == new_alert.level && !self.active_alerts[i].resolved {
                found = Some(i);
            }
            i = i + 1;
        }
        assert(self.active().take(i as int) =~= self.active());
        found
    }

    /// Whether an alert of the same component and level is in the
    /// history and younger than the cooldown (one clock reading per alert;
    /// see `cooldown_hit`).
    fn is_alert_in_cooldown(&self, alert: &Alert) -> (r: bool)
        ensures
            r ==> same_source_index(self.history(), alert.component@, alert.level) >= 0,
            exists|ages: Seq<u128>| #[trigger] cooldown_hit(self.history(), ages, alert.component@, alert.level,
                self.settings().alert_cooldown_seconds * 1_000_000_000) == r && ages.len() == self.history().len(),
    {
        let cooldown: u128 = (self.config.alert_cooldown_seconds as u128) * 1_000_000_000;
        let ghost limit: int = self.settings().alert_cooldown_seconds * 1_000_000_000;
        let ghost mut ages: Seq<u128> = Seq::empty();
        let mut i: usize = 0;
        while i < self.alert_history.len()
            invariant
                i <= self.alert_history@.len(),
                ages.len() == i,
                cooldown == limit,
                limit == self.settings().alert_cooldown_seconds * 1_000_000_000,
                forall|k: int| 0 <= k < i ==> (#[trigger] self.history()[k]).3 == alert.component@ && self.history()[k].2 == alert.level
                    ==> ages[k] >= limit,
            decreases self.alert_history@.len() - i,
        {
            proof {
                assert(self.history()[i as int] == self.alert_history@[i as int].view_of());
            }
            if str_equal(self.alert_history[i].component.as_str(), alert.component.as_str()) && self.alert_history[i].level == alert.level {
                let age = nanos_since(&self.alert_history[i].timestamp);
                if age < cooldown {
                    proof {
                        lemma_index_grows(self.history(), alert.component@, alert.level, i as int + 1);
                        let rest = (self.history().len() - i - 1) as nat;
                        let w = ages.push(age) + Seq::new(rest, |_k: int| 0u128);
                        assert(w[i as int] == age);
                        assert(cooldown_hit(self.history(), w, alert.component@, alert.level, limit));
                    }
                    return true;
                }
                proof {
                    ages = ages.push(age);
                }
            } else {
                proof {
                    ages = ages.push(0u128);
                }
            }
            i = i + 1;
        }
        proof {
            assert(!cooldown_hit(self.history(), ages, alert.component@, alert.level, limit));
        }
        false
    }

    /// Tell each handler that can handle the alert's level; a failing
    /// handler does not stop the others.
    fn notify_alert_handlers(&self, alert: &Alert) {
        let mut i: usize = 0;
        while i < self.alert_handlers.len()
            decreases self.alert_handlers@.len() - i,
        {
            let handler = &self.alert_handlers[i];
            if handler.can_handle(&alert.level) {
                let _ = handler.handle_alert(alert);
            }
            i = i + 1;
        }
    }

    /// Put an alert among the active ones by its id.
    fn put_active(&mut self, alert: Alert)
        ensures
            final(self).active() == put_by_id(old(self).active(), alert.view_of()),
            final(self).history() == old(self).history(),
            final(self).counters() == old(self).counters(),
            final(self).settings() == old(self).settings(),
    {
        let ghost x = alert.view_of();
        match self.find_active(alert.id.as_str()) {
            Some(i) => {
                self.active_alerts.set(i, alert);
                assert(self.active() =~= old(self).active().update(i as int, x));
            },
            None => {
                self.active_alerts.push(alert);
                assert(self.active() =~= old(self).active().push(x));
            },
        }
    }

    /// Raise an alert. Unless alerting is off or an alert of the same
    /// component and level is in the history within the cooldown, it
    /// becomes active (a repeat of an unresolved active alert of its
    /// component and level updates that one, see `triggered_as`), is
    /// counted, goes into the history (the latest 200 kept) and the
    /// handlers are told.
    pub fn trigger_alert(&mut self, alert: Alert)
        requires
            old(self).wf(),
            forall|k: int| 0 <= k < old(self).active().len() ==> (#[trigger] old(self).active()[k]).9 < u32::MAX,
        ensures
            final(self).wf(),
            trigger_outcome(*old(self), *final(self), alert.view_of()),
    {
        if !self.config.enable_alerting {
            return;
        }
        if self.is_alert_in_cooldown(&alert) {
            return;
        }
        let ghost av = alert.view_of();
        let mut alert = alert;
        if alert.id.as_str().unicode_len() == 0 {
            alert.id = new_alert_id();
        }
        alert.last_occurrence = instant_now();
        proof {
            lemma_open_index(old(self).active(), av.3, av.2);
        }
        let recorded: Alert = match self.get_existing_alert(&alert) {
            Some(i) => {
                proof {
                    assert(self.active()[i as int] == self.active_alerts@[i as int].view_of());
                }
                let mut updated = self.active_alerts.remove(i);
                updated.occurrence_count = updated.occurrence_count + 1;
                updated.last_occurrence = instant_now();
                updated.message = alert.message;
                let copy = updated.duplicate();
                let ghost x = updated.view_of();
                self.active_alerts.insert(i, updated);
                assert(self.active() =~= old(self).active().update(i as int, x));
                copy
            },
            None => {
                let copy = alert.duplicate();
                self.put_active(alert);
                copy
            },
        };
        let m = self.metrics;
        self.metrics.total_alerts = if m.total_alerts == u64::MAX { 0 } else { m.total_alerts + 1 };
        match recorded.level {
            AlertLevel::Critical | AlertLevel::Emergency => {
                self.metrics.critical_alerts = if m.critical_alerts == u64::MAX { 0 } else { m.critical_alerts + 1 };
            },
            AlertLevel::Warning => {
                self.metrics.warning_alerts = if m.warning_alerts == u64::MAX { 0 } else { m.warning_alerts + 1 };
            },
            AlertLevel::Info => {
                self.metrics.info_alerts = if m.info_alerts == u64::MAX { 0 } else { m.info_alerts + 1 };
            },
        }
        let ghost pushed = self.history().push(recorded.view_of());
        self.alert_history.push(recorded.duplicate());
        assert(self.history() =~= pushed);
        trim_alerts(&mut self.alert_history, self.config.max_alert_history);
        proof {
            assert(pushed.last() == recorded.view_of());
            assert(self.history() == keep_last(pushed, 200));
            assert(self.history().len() > 0);
            assert(self.history().last() == pushed.last());
        }
        self.notify_alert_handlers(&recorded);
    }

    /// Acknowledge an active alert that is not acknowledged yet: it is
    /// counted and the mean response time takes the seconds since the
    /// alert; otherwise an error names the id.
    pub fn acknowledge_alert(&mut self, alert_id: &str) -> (r: Result<(), String>)
        requires
            old(self).wf(),
            old(self).counters().acknowledged_alerts < u64::MAX,
        ensures
            final(self).wf(),
            final(self).history() == old(self).history(),
            ({
                let i = alert_index(old(self).active(), alert_id@);
                if i >= 0 && !old(self).active()[i].5 {
                    let a = old(self).active()[i];
                    let b = final(self).active()[i];
                    &&& r is Ok
                    &&& final(self).active() == old(self).active().update(i, b)
                    &&& b.5 && b.6 is Some
                    &&& b.0 == a.0 && b.1 == a.1 && b.2 == a.2 && b.3 == a.3 && b.4 == a.4 && b.7 == a.7 && b.8 == a.8 && b.9 == a.9 && b.10 == a.10 && b.11 == a.11
                    &&& final(self).counters().acknowledged_alerts == old(self).counters().acknowledged_alerts + 1
                    &&& exists|secs: u64| final(self).counters().avg_response_time_seconds == running_average(
                        old(self).counters().avg_response_time_seconds, old(self).counters().acknowledged_alerts, secs)
                    &&& final(self).counters() == (AlertMetrics {
                        acknowledged_alerts: final(self).counters().acknowledged_alerts,
                        avg_response_time_seconds: final(self).counters().avg_response_time_seconds,
                        ..old(self).counters()
                    })
                } else {
                    &&& r matches Err(m) && m@ == "Alert "@ + alert_id@ + " not found or already acknowledged"@
                    &&& final(self).active() == old(self).active()
                    &&& final(self).counters() == old(self).counters()
                }
            }),
    {
        if let Some(i) = self.find_active(alert_id) {
            proof {
                assert(old(self).active()[i as int] == self.active_alerts@[i as int].view_of());
            }
            if !self.active_alerts[i].acknowledged {
                let mut a = self.active_alerts.remove(i);
                a.acknowledged = true;
                let now = instant_now();
                a.acknowledged_at = Some(now);
                let count = self.metrics.acknowledged_alerts;
                self.metrics.acknowledged_alerts = count + 1;
                let response_time = secs_between(&now, &a.timestamp);
                self.metrics.avg_response_time_seconds = updated_average(self.metrics.avg_response_time_seconds, count, response_time);
                let ghost b = a.view_of();
                self.active_alerts.insert(i, a);
                assert(self.active() =~= old(self).active().update(i as int, b));
                return Ok(());
            }
        }
        let msg = string_concat(string_concat(str_to_string("Alert "), alert_id), " not found or already acknowledged");
        Err(msg)
    }

    /// Resolve an active alert that is not resolved yet: it is counted,
    /// goes into the history unless an alert with its id is there, and
    /// leaves the active alerts; otherwise an error names the id.
    pub fn resolve_alert(&mut self, alert_id: &str) -> (r: Result<(), String>)
        requires
            old(self).wf(),
        ensures
            final(self).wf(),
            ({
                let i = alert_index(old(self).active(), alert_id@);
                if i >= 0 && !old(self).active()[i].7 {
                    let a = old(self).active()[i];
                    &&& r is Ok
                    &&& final(self).active() == old(self).active().remove(i)
                    &&& final(self).counters() == (AlertMetrics {
                        resolved_alerts: if old(self).counters().resolved_alerts == u64::MAX { 0 } else { (old(self).counters().resolved_alerts + 1) as u64 },
                        ..old(self).counters()
                    })
                    &&& has_id(old(self).history(), alert_id@) ==> final(self).history() == old(self).history()
                    &&& !has_id(old(self).history(), alert_id@) ==> {
                        let b = final(self).history().last();
                        &&& final(self).history() == old(self).history().push(b)
                        &&& b.7 && b.8 is Some
                        &&& b.0 == a.0 && b.1 == a.1 && b.2 == a.2 && b.3 == a.3 && b.4 == a.4 && b.5 == a.5 && b.6 == a.6 && b.9 == a.9 && b.10 == a.10 && b.11 == a.11
                    }
                } else {
                    &&& r matches Err(m) && m@ == "Alert "@ + alert_id@ + " not found or already resolved"@
                    &&& final(self).active() == old(self).active()
                    &&& final(self).history() == old(self).history()
                    &&& final(self).counters() == old(self).counters()
                }
            }),
    {
        if let Some(i) = self.find_active(alert_id) {
            proof {
                assert(old(self).active()[i as int] == self.active_alerts@[i as int].view_of());
            }
            if !self.active_alerts[i].resolved {
                let mut a = self.active_alerts.remove(i);
                assert(self.active() =~= old(self).active().remove(i as int));
                a.resolved = true;
                a.resolved_at = Some(instant_now());
                let c = self.metrics.resolved_alerts;
                self.metrics.resolved_alerts = if c == u64::MAX { 0 } else { c + 1 };
                if !self.history_has(alert_id) {
                    let ghost b = a.view_of();
                    self.alert_history.push(a);
                    assert(self.history() =~= old(self).history().push(b));
                }
                return Ok(());
            }
        }
        let msg = string_concat(string_concat(str_to_string("Alert "), alert_id), " not found or already resolved");
        Err(msg)
    }

    /// Whether the history holds an alert with an id.
    fn history_has(&self, alert_id: &str) -> (r: bool)
        ensures
            r == has_id(self.history(), alert_id@),
    {
        let mut found = false;
        let mut i: usize = 0;
        while i < self.alert_history.len()
            invariant
                i <= self.alert_history@.len(),
                found == has_id(self.history().take(i as int), alert_id@),
            decreases self.alert_history@.len() - i,
        {
            proof {
                assert(self.history().take(i + 1).drop_last() =~= self.history().take(i as int));
                assert(self.history().take(i + 1).last() == self.alert_history@[i as int].view_of());
            }
            if str_equal(self.alert_history[i].id.as_str(), alert_id) {
                found = true;
            }
            i = i + 1;
        }
        assert(self.history().take(i as int) =~= self.history());
        found
    }

    /// Mark an active alert a false positive: it is resolved, counted as
    /// both and leaves the active alerts; otherwise an error names the id.
    pub fn mark_false_positive(&mut self, alert_id: &str) -> (r: Result<(), String>)
        requires
            old(self).wf(),
        ensures
            final(self).wf(),
            final(self).history() == old(self).history(),
            ({
                let i = alert_index(old(self).active(), alert_id@);
                if i >= 0 {
                    &&& r is Ok
                    &&& final(self).active() == old(self).active().remove(i)
                    &&& final(self).counters() == (AlertMetrics {
                        resolved_alerts: if old(self).counters().resolved_alerts == u64::MAX { 0 } else { (old(self).counters().resolved_alerts + 1) as u64 },
                        false_positives: if old(self).counters().false_positives == u64::MAX { 0 } else { (old(self).counters().false_positives + 1) as u64 },
                        ..old(self).counters()
                    })
                } else {
                    &&& r matches Err(m) && m@ == "Alert "@ + alert_id@ + " not found"@
                    &&& final(self).active() == old(self).active()
                    &&& final(self).counters() == old(self).counters()
                }
            }),
    {
        if let Some(i) = self.find_active(alert_id) {
            let mut a = self.active_alerts.remove(i);
            assert(self.active() =~= old(self).active().remove(i as int));
            a.resolved = true;
            a.resolved_at = Some(instant_now());
            let f = self.metrics.false_positives;
            self.metrics.false_positives = if f == u64::MAX { 0 } else { f + 1 };
            let c = self.metrics.resolved_alerts;
            self.metrics.resolved_alerts = if c == u64::MAX { 0 } else { c + 1 };
            return Ok(());
        }
        let msg = string_concat(string_concat(str_to_string("Alert "), alert_id), " not found");
        Err(msg)
    }

    /// Copies of the active alerts.
    pub fn get_active_alerts(&self) -> (r: Vec<Alert>)
        ensures
            r@.map_values(|a: Alert| a.view_of()) == self.active(),
    {
        let mut out: Vec<Alert> = Vec::new();
        let mut i: usize = 0;
        while i < self.active_alerts.len()
            invariant
                i <= self.active_alerts@.len(),
                out@.map_values(|a: Alert| a.view_of()) == self.active().take(i as int),
            decreases self.active_alerts@.len() - i,
        {
            let ghost before = out@;
            let c = self.active_alerts[i].duplicate();
            out.push(c);
            proof {
                assert(out@.map_values(|a: Alert| a.view_of()) =~= before.map_values(|a: Alert| a.view_of()).push(c.view_of()));
                assert(self.active().take(i + 1) =~= self.active().take(i as int).push(self.active()[i as int]));
            }
            i = i + 1;
        }
        assert(self.active().take(i as int) =~= self.active());
        out
    }

    /// Copies of the latest `max_count` alerts of the history, newest
    /// first.
    pub fn get_recent_alerts(&self, max_count: usize) -> (r: Vec<Alert>)
        ensures
            r@.map_values(|a: Alert| a.view_of()) == newest_first(self.history(), max_count as nat),
    {
        let mut out: Vec<Alert> = Vec::new();
        let mut k: usize = 0;
        let n = self.alert_history.len();
        proof {
            assert(self.history().take(n as int) =~= self.history());
            assert(out@.map_values(|a: Alert| a.view_of()) =~= Seq::<AlertView>::empty());
            assert(Seq::<AlertView>::empty() + newest_first(self.history(), max_count as nat) =~= newest_first(self.history(), max_count as nat));
        }
        while k < max_count && k < n
            invariant
                k <= max_count,
                k <= n,
                n == self.alert_history@.len(),
                out@.map_values(|a: Alert| a.view_of()) + newest_first(self.history().take(n - k), (max_count - k) as nat)
                    == newest_first(self.history(), max_count as nat),
            decreases n - k,
        {
            let ghost before = out@;
            let ghost rest = self.history().take(n - k);
            let c = self.alert_history[n - 1 - k].duplicate();
            out.push(c);
            proof {
                assert(rest.last() == self.alert_history@[n - 1 - k].view_of());
                assert(rest.drop_last() =~= self.history().take(n - k - 1));
                assert(out@.map_values(|a: Alert| a.view_of()) =~= before.map_values(|a: Alert| a.view_of()).push(c.view_of()));
                assert(newest_first(rest, (max_count - k) as nat) == seq![rest.last()] + newest_first(rest.drop_last(), (max_count - k - 1) as nat));
                assert(before.map_values(|a: Alert| a.view_of()) + newest_first(rest, (max_count - k) as nat) =~= out@.map_values(
                    |a: Alert| a.view_of(),
                ) + newest_first(self.history().take(n - k - 1), (max_count - k - 1) as nat));
            }
            k = k + 1;
        }
        proof {
            assert(newest_first(self.history().take(n - k), (max_count - k) as nat) == Seq::<AlertView>::empty());
            assert(out@.map_values(|a: Alert| a.view_of()) =~= out@.map_values(|a: Alert| a.view_of()) + Seq::<AlertView>::empty());
        }
        out
    }

    /// Copies of the history's alerts of a level, oldest first.
    pub fn get_alerts_by_level(&self, level: &AlertLevel) -> (r: Vec<Alert>)
        ensures
            r@.map_values(|a: Alert| a.view_of()) == of_level(self.history(), *level),
    {
        let mut out: Vec<Alert> = Vec::new();
        let mut i: usize = 0;
        while i < self.alert_history.len()
            invariant
                i <= self.alert_history@.len(),
                out@.map_values(|a: Alert| a.view_of()) == of_level(self.history().take(i as int), *level),
            decreases self.alert_history@.len() - i,
        {
            proof {
                assert(self.history().take(i + 1).drop_last() =~= self.history().take(i as int));
                assert(self.history().take(i + 1).last() == self.alert_history@[i as int].view_of());
            }
            let ghost before = out@;
            if self.alert_history[i].level == *level {
                let c = self.alert_history[i].duplicate();
                out.push(c);
                proof {
                    assert(out@.map_values(|a: Alert| a.view_of()) =~= before.map_values(|a: Alert| a.view_of()).push(c.view_of()));
                }
            }
            proof {
                assert(out@.map_values(|a: Alert| a.view_of()) =~= of_level(self.history().take(i + 1), *level));
            }
            i = i + 1;
        }
        assert(self.history().take(i as int) =~= self.history());
        out
    }

    /// The counters.
    pub fn get_metrics(&self) -> (r: &AlertMetrics)
        ensures
            *r == self.counters(),
    {
        &self.metrics
    }

    /// A report line of an alert.
    fn alert_line_text(alert: &Alert, state: &str) -> (r: String)
        ensures
            r@ == alert_line(alert.view_of(), state@),
    {
        let tag = match alert.level {
            AlertLevel::Info => "INFO",
            AlertLevel::Warning => "WARN",
            AlertLevel::Critical => "CRIT",
            AlertLevel::Emergency => "EMERG",
        };
        let mut line = str_to_string("  [");
        line = string_concat(line, tag);
        line = string_concat(line, "] ");
        line = string_concat(line, alert.component.as_str());
        line = string_concat(line, " - ");
        line = string_concat(line, alert.message.as_str());
        line = string_concat(line, " (");
        line = string_concat(line, state);
        line = string_concat(line, ")\n");
        line
    }

    /// The counters part of the report (see `metrics_part`).
    fn metrics_section(&self) -> (r: String)
        ensures
            r@ == metrics_part(self.counters()),
    {
        let m = self.metrics;
        let mut report = str_to_string("=== Alerting System Report ===\n\n");
        report = string_concat(report, "Alert Metrics:\n");
        report = string_concat(report, "  Total Alerts: ");
        report = string_concat(report, decimal_string(m.total_alerts).as_str());
        report = string_concat(report, "\n");
        report = string_concat(report, "  Critical Alerts: ");
        report = string_concat(report, decimal_string(m.critical_alerts).as_str());
        report = string_concat(report, "\n");
        report = string_concat(report, "  Warning Alerts: ");
        report = string_concat(report, decimal_string(m.warning_alerts).as_str());
        report = string_concat(report, "\n");
        report = string_concat(report, "  Info Alerts: ");
        report = string_concat(report, decimal_string(m.info_alerts).as_str());
        report = string_concat(report, "\n");
        report = string_concat(report, "  Acknowledged: ");
        report = string_concat(report, decimal_string(m.acknowledged_alerts).as_str());
        report = string_concat(report, "\n");
        report = string_concat(report, "  Resolved: ");
        report = string_concat(report, decimal_string(m.resolved_alerts).as_str());
        report = string_concat(report, "\n");
        report = string_concat(report, "  False Positives: ");
        report = string_concat(report, decimal_string(m.false_positives).as_str());
        report = string_concat(report, "\n");
        if m.acknowledged_alerts > 0 {
            report = string_concat(report, "  Avg Response Time: ");
            report = string_concat(report, decimal_string(m.avg_response_time_seconds).as_str());
            report = string_concat(report, " seconds\n");
        }
        proof {
            assert(report@ =~= metrics_part(self.counters()));
        }
        report
    }

    /// The active part of the report (see `active_part`).
    fn active_section(&self) -> (r: String)
        ensures
            r@ == active_part(self.active()),
    {
        let active_alerts = self.get_active_alerts();
        let ghost av = self.active();
        let mut report = str_to_string("\nActive Alerts: ");
        report = string_concat(report, decimal_string(active_alerts.len() as u64).as_str());
        report = string_concat(report, "\n");
        let ghost head = report@;
        let limit: usize = if active_alerts.len() < 10 { active_alerts.len() } else { 10 };
        let mut k: usize = 0;
        while k < limit
            invariant
                k <= limit,
                limit <= active_alerts@.len(),
                limit == first_n(av, 10).len(),
                av == active_alerts@.map_values(|a: Alert| a.view_of()),
                report@ == head + active_lines(first_n(av, 10).take(k as int)),
            decreases limit - k,
        {
            let a = &active_alerts[k];
            let state = if a.acknowledged { "ACK" } else { "UNACK" };
            let line = Self::alert_line_text(a, state);
            proof {
                let t = first_n(av, 10);
                assert(t.take(k + 1).drop_last() =~= t.take(k as int));
                assert(t.take(k + 1).last() == a.view_of());
            }
            report = string_concat(report, line.as_str());
            proof {
                assert(report@ =~= head + active_lines(first_n(av, 10).take(k + 1)));
            }
            k = k + 1;
        }
        proof {
            assert(first_n(av, 10).take(limit as int) =~= first_n(av, 10));
            assert(report@ =~= active_part(av));
        }
        report
    }

    /// The recent part of the report (see `recent_part`).
    fn recent_section(&self) -> (r: String)
        ensures
            r@ == recent_part(self.history()),
    {
        let recent_alerts = self.get_recent_alerts(20);
        let ghost rv = newest_first(self.history(), 20);
        let mut report = str_to_string("\nRecent Alerts: ");
        report = string_concat(report, decimal_string(recent_alerts.len() as u64).as_str());
        report = string_concat(report, "\n");
        let ghost head = report@;
        let limit: usize = if recent_alerts.len() < 10 { recent_alerts.len() } else { 10 };
        let mut j: usize = 0;
        while j < limit
            invariant
                j <= limit,
                limit <= recent_alerts@.len(),
                limit == first_n(rv, 10).len(),
                rv == recent_alerts@.map_values(|a: Alert| a.view_of()),
                report@ == head + recent_lines(first_n(rv, 10).take(j as int)),
            decreases limit - j,
        {
            let a = &recent_alerts[j];
            let state = if a.resolved { "RESOLVED" } else { "ACTIVE" };
            let line = Self::alert_line_text(a, state);
            proof {
                let t = first_n(rv, 10);
                assert(t.take(j + 1).drop_last() =~= t.take(j as int));
                assert(t.take(j + 1).last() == a.view_of());
            }
            report = string_concat(report, line.as_str());
            proof {
                assert(report@ =~= head + recent_lines(first_n(rv, 10).take(j + 1)));
            }
            j = j + 1;
        }
        proof {
            assert(first_n(rv, 10).take(limit as int) =~= first_n(rv, 10));
            assert(report@ =~= recent_part(self.history()));
        }
        report
    }

    /// A text report (see `alert_report`).
    pub fn generate_report(&self) -> (r: String)
        ensures
            r@ == alert_report(self.counters(), self.active(), self.history()),
    {
        let head = self.metrics_section();
        let active = self.active_section();
        let recent = self.recent_section();
        let report = string_concat(string_concat(head, active.as_str()), recent.as_str());
        report
    }
}

/// Once an alert of a component and level occurs among the first `n`,
/// the first such index is found there.
pub proof fn lemma_index_grows(s: Seq<AlertView>, component: Seq<char>, level: AlertLevel, n: int)
    requires
        0 < n <= s.len(),
        s[n - 1].3 == component && s[n - 1].2 == level,
    ensures
        same_source_index(s, component, level) >= 0,
    decreases s.len(),
{
    if n < s.len() {
        lemma_index_grows(s.drop_last(), component, level, n);
    }
}

/// Drop the oldest alerts until at most `max` are left.
fn trim_alerts(v: &mut Vec<Alert>, max: usize)
    ensures
        final(v)@.map_values(|a: Alert| a.view_of()) == keep_last(old(v)@.map_values(|a: Alert| a.view_of()), max as int),
{
    let ghost s = v@.map_values(|a: Alert| a.view_of());
    while v.len() > max
        invariant
            v@.map_values(|a: Alert| a.view_of()) == s.subrange(s.len() - v@.len(), s.len() as int),
            v@.len() <= s.len(),
            s.len() > max ==> v@.len() >= max,
            s.len() <= max ==> v@.len() == s.len(),
        decreases v@.len(),
    {
        let ghost before = v@.map_values(|a: Alert| a.view_of());
        v.remove(0);
        assert(v@.map_values(|a: Alert| a.view_of()) =~= before.subrange(1, before.len() as int));
    }
    proof {
        if s.len() <= max {
            assert(s.subrange(0, s.len() as int) =~= s);
        }
    }
}

/// The whole seconds from `earlier` to `later` (see `instant_between`):
/// the span's nanoseconds divided by a billion.
fn secs_between(later: &Instant, earlier: &Instant) -> (r: u64)
    ensures
        exists|d: std::time::Duration| r == #[trigger] crate::clock::duration_nanos(d) / 1_000_000_000,
{
    let d = crate::clock::instant_between(later, earlier);
    let r = crate::clock::duration_secs(&d);
    assert(r == crate::clock::duration_nanos(d) / 1_000_000_000);
    r
}

/// The first unresolved alert of a component and level is one.
pub proof fn lemma_open_index(s: Seq<AlertView>, component: Seq<char>, level: AlertLevel)
    ensures
        open_index(s, component, level) >= 0 ==> {
            let i = open_index(s, component, level);
            &&& i < s.len()
            &&& s[i].3 == component && s[i].2 == level && !s[i].7
        },
        open_index(s, component, level) >= -1,
    decreases s.len(),
{
    if s.len() > 0 {
        lemma_open_index(s.drop_last(), component, level);
    }
}

/// The first alert with an id has it.
pub proof fn lemma_alert_index(s: Seq<AlertView>, id: Seq<char>)
    ensures
        alert_index(s, id) >= 0 ==> alert_index(s, id) < s.len() && s[alert_index(s, id)].0 == id,
        alert_index(s, id) >= -1,
    decreases s.len(),
{
    if s.len() > 0 {
        lemma_alert_index(s.drop_last(), id);
    }
}

/// Whether no alert id occurs twice.
pub open spec fn ids_unique(s: Seq<AlertView>) -> bool {
    forall|i: int, j: int| 0 <= i < j < s.len() ==> (#[trigger] s[i]).0 != (#[trigger] s[j]).0
}

/// An id that is not found occurs nowhere.
proof fn lemma_alert_index_absent(s: Seq<AlertView>, id: Seq<char>)
    ensures
        alert_index(s, id) < 0 ==> forall|k: int| 0 <= k < s.len() ==> (#[trigger] s[k]).0 != id,
    decreases s.len(),
{
    if s.len() > 0 {
        lemma_alert_index_absent(s.drop_last(), id);
        if alert_index(s, id) < 0 {
            assert forall|k: int| 0 <= k < s.len() implies (#[trigger] s[k]).0 != id by {
                if k < s.len() - 1 {
                    assert(s[k] == s.drop_last()[k]);
                }
            }
        }
    }
}

/// Putting an alert by its id keeps every id once: an alert with the same
/// id is replaced in place, a new id goes at the end.
pub proof fn lemma_put_by_id_keeps_ids_unique(s: Seq<AlertView>, x: AlertView)
    requires
        ids_unique(s),
    ensures
        ids_unique(put_by_id(s, x)),
{
    lemma_alert_index(s, x.0);
    lemma_alert_index_absent(s, x.0);
    let i = alert_index(s, x.0);
    let t = put_by_id(s, x);
    assert forall|a: int, b: int| 0 <= a < b < t.len() implies (#[trigger] t[a]).0 != (#[trigger] t[b]).0 by {
        if i >= 0 {
            if a == i {
                assert(t[b] == s[b]);
            } else if b == i {
                assert(t[a] == s[a]);
            } else {
                assert(t[a] == s[a] && t[b] == s[b]);
            }
        } else if b == s.len() {
            assert(t[a] == s[a]);
        } else {
            assert(t[a] == s[a] && t[b] == s[b]);
        }
    }
}

impl Default for AlertingSystem {
    fn default() -> (r: Self)
        ensures
            r.wf(),
            r.active().len() == 0,
            r.history().len() == 0,
    {
        AlertingSystem::new()
    }
}

} // verus!
