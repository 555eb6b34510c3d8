//! Alerts, the thresholds that raise them, and the rule by which an alert
//! moves from one state to the next.

use crate::text::{one_decimal, render_one_decimal, render_two_decimals, two_decimals};
use vstd::prelude::*;

verus! {

/// How serious an alert is.
#[derive(Debug, Clone, Copy, PartialEq, Eq, Structural)]
pub enum AlertLevel {
    Warning,
    Critical,
    Anomaly,
}

impl AlertLevel {
    /// The level's name, in lower case.
    pub open spec fn label(self) -> Seq<char> {
        match self {
            AlertLevel::Warning => "warning"@,
            AlertLevel::Critical => "critical"@,
            AlertLevel::Anomaly => "anomaly"@,
        }
    }

    /// The level's name, in lower case.
    pub fn as_str(&self) -> (s: &'static str)
        ensures
            s@ == self.label(),
    {
        match self {
            AlertLevel::Warning => "warning",
            AlertLevel::Critical => "critical",
            AlertLevel::Anomaly => "anomaly",
        }
    }
}

/// What a classification did to the alert of its metric.
#[derive(Debug, Clone, Copy, PartialEq, Eq, Structural)]
pub enum AlertEvent {
    /// Nothing changed.
    Nothing,
    /// An alert was raised where there was none.
    Created,
    /// The alert took another level, or was raised again after it had been
    /// resolved.
    Updated,
    /// The metric is back to normal: the alert was resolved and archived.
    Resolved,
}

/// Why a request on an alert failed.
#[derive(Debug, Clone, Copy, PartialEq, Eq, Structural)]
pub enum AlertError {
    /// No alert has the given id.
    NotFound,
}

/// The levels from which a metric raises a warning and a critical alert, in
/// thousandths.
#[derive(Debug)]
pub struct AlertThreshold {
    pub metric: String,
    pub warning_level: i64,
    pub critical_level: i64,
    /// Seconds for which the level should hold.
    pub duration: u64,
    pub enabled: bool,
}

/// An `AlertThreshold` with its text as a sequence of characters.
pub ghost struct ThresholdView {
    pub metric: Seq<char>,
    pub warning_level: i64,
    pub critical_level: i64,
    pub duration: u64,
    pub enabled: bool,
}

impl View for AlertThreshold {
    type V = ThresholdView;

    open spec fn view(&self) -> ThresholdView {
        ThresholdView {
            metric: self.metric@,
            warning_level: self.warning_level,
            critical_level: self.critical_level,
            duration: self.duration,
            enabled: self.enabled,
        }
    }
}

impl Clone for AlertThreshold {
    fn clone(&self) -> (c: Self)
        ensures
            c@ == self@,
    {
        AlertThreshold {
            metric: self.metric.clone(),
            warning_level: self.warning_level,
            critical_level: self.critical_level,
            duration: self.duration,
            enabled: self.enabled,
        }
    }
}

/// The state of one metric of one device that is, or was, out of its normal
/// range. Readings and thresholds are in thousandths, the time in
/// milliseconds.
#[derive(Debug)]
pub struct Alert {
    pub id: String,
    pub device_ip: String,
    pub metric: String,
    pub level: AlertLevel,
    pub value: i64,
    pub threshold: i64,
    pub timestamp: i64,
    pub acknowledged: bool,
    pub resolved: bool,
    pub message: String,
}

/// An `Alert` with its texts as sequences of characters.
pub ghost struct AlertView {
    pub id: Seq<char>,
    pub device_ip: Seq<char>,
    pub metric: Seq<char>,
    pub level: AlertLevel,
    pub value: i64,
    pub threshold: i64,
    pub timestamp: i64,
    pub acknowledged: bool,
    pub resolved: bool,
    pub message: Seq<char>,
}

impl View for Alert {
    type V = AlertView;

    open spec fn view(&self) -> AlertView {
        AlertView {
            id: self.id@,
            device_ip: self.device_ip@,
            metric: self.metric@,
            level: self.level,
            value: self.value,
            threshold: self.threshold,
            timestamp: self.timestamp,
            acknowledged: self.acknowledged,
            resolved: self.resolved,
            message: self.message@,
        }
    }
}

impl Clone for Alert {
    fn clone(&self) -> (c: Self)
        ensures
            c@ == self@,
    {
        Alert {
            id: self.id.clone(),
            device_ip: self.device_ip.clone(),
            metric: self.metric.clone(),
            level: self.level,
            value: self.value,
            threshold: self.threshold,
            timestamp: self.timestamp,
            acknowledged: self.acknowledged,
            resolved: self.resolved,
            message: self.message.clone(),
        }
    }
}

/// The level that a reading calls for: an outlier is an anomaly, whatever its
/// size; otherwise a reading at or above the critical level is critical, one at
/// or above the warning level a warning, and any other none.
pub open spec fn classify(outlier: bool, value: i64, warning: i64, critical: i64) -> Option<
    AlertLevel,
> {
    if outlier {
        Some(AlertLevel::Anomaly)
    } else if value >= critical {
        Some(AlertLevel::Critical)
    } else if value >= warning {
        Some(AlertLevel::Warning)
    } else {
        None
    }
}

/// The threshold that an alert of `level` records: the level's own, and 0 for
/// an anomaly.
pub open spec fn threshold_used(level: AlertLevel, warning: i64, critical: i64) -> i64 {
    match level {
        AlertLevel::Anomaly => 0,
        AlertLevel::Critical => critical,
        AlertLevel::Warning => warning,
    }
}

/// The message of an alert of `level` on `metric`, for a reading of `value`
/// thousandths with a z-score of `z` hundredths.
pub open spec fn message_text(level: AlertLevel, metric: Seq<char>, value: i64, z: nat) -> Seq<
    char,
> {
    match level {
        AlertLevel::Anomaly => "Anomalous "@ + metric + " value detected (z-score: "@
            + two_decimals(z) + ")"@,
        AlertLevel::Critical => metric + " usage critically high: "@ + one_decimal(value) + "%"@,
        AlertLevel::Warning => metric + " usage high: "@ + one_decimal(value) + "%"@,
    }
}

/// The message of an alert on `metric` that has been resolved.
pub open spec fn resolved_text(metric: Seq<char>) -> Seq<char> {
    metric + " returned to normal levels"@
}

/// A new alert: neither acknowledged nor resolved.
pub open spec fn fresh_alert(
    id: Seq<char>,
    device_ip: Seq<char>,
    metric: Seq<char>,
    level: AlertLevel,
    value: i64,
    threshold: i64,
    message: Seq<char>,
    now: i64,
) -> AlertView {
    AlertView {
        id,
        device_ip,
        metric,
        level,
        value,
        threshold,
        timestamp: now,
        acknowledged: false,
        resolved: false,
        message,
    }
}

/// `a` raised to `level`: level, reading, threshold, time and message are
/// new, and the alert is unresolved.
pub open spec fn raised(
    a: AlertView,
    level: AlertLevel,
    value: i64,
    threshold: i64,
    message: Seq<char>,
    now: i64,
) -> AlertView {
    AlertView { level, value, threshold, timestamp: now, message, resolved: false, ..a }
}

/// `a` resolved at `now`, with the message that says so.
pub open spec fn settled(a: AlertView, metric: Seq<char>, now: i64) -> AlertView {
    AlertView { resolved: true, timestamp: now, message: resolved_text(metric), ..a }
}

/// What a classification makes of the alert under `key`: the alert there
/// afterwards, if any, and what happened.
///
/// Without an alert, a level creates one and no level does nothing. With an
/// alert, a level that differs from the alert's, or any level when the alert
/// is resolved, raises it anew; the alert's own level leaves an unresolved
/// alert as it is. No level resolves an unresolved alert and leaves a resolved
/// one as it is.
pub open spec fn transition(
    existing: Option<AlertView>,
    class: Option<AlertLevel>,
    key: Seq<char>,
    device_ip: Seq<char>,
    metric: Seq<char>,
    value: i64,
    warning: i64,
    critical: i64,
    z: nat,
    now: i64,
) -> (Option<AlertView>, AlertEvent) {
    match (existing, class) {
        (None, None) => (None, AlertEvent::Nothing),
        (None, Some(level)) => (
            Some(
                fresh_alert(
                    key,
                    device_ip,
                    metric,
                    level,
                    value,
                    threshold_used(level, warning, critical),
                    message_text(level, metric, value, z),
                    now,
                ),
            ),
            AlertEvent::Created,
        ),
        (Some(a), Some(level)) => if a.level != level || a.resolved {
            (
                Some(
                    raised(
                        a,
                        level,
                        value,
                        threshold_used(level, warning, critical),
                        message_text(level, metric, value, z),
                        now,
                    ),
                ),
                AlertEvent::Updated,
            )
        } else {
            (Some(a), AlertEvent::Nothing)
        },
        (Some(a), None) => if !a.resolved {
            (Some(settled(a, metric, now)), AlertEvent::Resolved)
        } else {
            (Some(a), AlertEvent::Nothing)
        },
    }
}

/// Whatever the classification, the alert under a key keeps that key as its
/// id: two classifications of one metric of one device never give alerts of
/// two ids.
pub proof fn lemma_transition_keeps_id(
    existing: Option<AlertView>,
    class: Option<AlertLevel>,
    key: Seq<char>,
    device_ip: Seq<char>,
    metric: Seq<char>,
    value: i64,
    warning: i64,
    critical: i64,
    z: nat,
    now: i64,
)
    requires
        existing matches Some(a) ==> a.id == key,
    ensures
        transition(
            existing,
            class,
            key,
            device_ip,
            metric,
            value,
            warning,
            critical,
            z,
            now,
        ).0 matches Some(b) ==> b.id == key,
{
}

/// The level that a reading calls for.
pub fn classify_reading(outlier: bool, value: i64, warning: i64, critical: i64) -> (class: Option<
    AlertLevel,
>)
    ensures
        class == classify(outlier, value, warning, critical),
{
    if outlier {
        Some(AlertLevel::Anomaly)
    } else if value >= critical {
        Some(AlertLevel::Critical)
    } else if value >= warning {
        Some(AlertLevel::Warning)
    } else {
        None
    }
}

/// The threshold that an alert of `level` records.
pub fn threshold_for(level: AlertLevel, warning: i64, critical: i64) -> (t: i64)
    ensures
        t == threshold_used(level, warning, critical),
{
    match level {
        AlertLevel::Anomaly => 0,
        AlertLevel::Critical => critical,
        AlertLevel::Warning => warning,
    }
}

/// The message of an alert of `level` on `metric`.
pub fn compose_message(level: AlertLevel, metric: &str, value: i64, z: u64) -> (m: String)
    ensures
        m@ == message_text(level, metric@, value, z as nat),
{
    match level {
        AlertLevel::Anomaly => {
            let m = String::from_str("Anomalous ").concat(metric).concat(
                " value detected (z-score: ",
            ).concat(render_two_decimals(z).as_str()).concat(")");
            assert(m@ =~= message_text(level, metric@, value, z as nat));
            m
        },
        AlertLevel::Critical => {
            let m = String::from_str(metric).concat(" usage critically high: ").concat(
                render_one_decimal(value).as_str(),
            ).concat("%");
            assert(m@ =~= message_text(level, metric@, value, z as nat));
            m
        },
        AlertLevel::Warning => {
            let m = String::from_str(metric).concat(" usage high: ").concat(
                render_one_decimal(value).as_str(),
            ).concat("%");
            assert(m@ =~= message_text(level, metric@, value, z as nat));
            m
        },
    }
}

/// The message of an alert on `metric` that has been resolved.
pub fn compose_resolved(metric: &str) -> (m: String)
    ensures
        m@ == resolved_text(metric@),
{
    String::from_str(metric).concat(" returned to normal levels")
}

} // verus!
