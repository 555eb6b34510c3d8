//! The alert manager: one alert per metric of a device, raised, changed and
//! resolved by the classification of each reading, and an archive of the
//! alerts that were resolved.

use crate::alert::{
    classify, classify_reading, compose_message, compose_resolved, fresh_alert, threshold_for,
    transition, Alert, AlertError, AlertEvent, AlertLevel, AlertThreshold, AlertView,
    ThresholdView,
};
use crate::anomaly::{rolled, window_capacity, AnomalyDetector, DEFAULT_Z_THRESHOLD};
use crate::clock::now_millis;
use crate::config::{AppConfig, ThresholdSetting};
use crate::keys::{composite_key, make_key};
use crate::stats::{bounded, is_outlier, z_score_centi};
use crate::table::{find, put, Table};
use std::collections::VecDeque;
use vstd::prelude::*;

verus! {

/// The number of resolved alerts that the archive keeps.
pub const HISTORY_LIMIT: usize = 1000;

/// The seconds that a threshold taken from the settings should hold.
pub const DEFAULT_DURATION: u64 = 300;

/// The archive `h` after `a` arrived: `a` stands last, and the oldest entry has
/// left if the archive was full.
pub open spec fn archived(h: Seq<AlertView>, a: AlertView) -> Seq<AlertView> {
    if h.len() + 1 > HISTORY_LIMIT {
        h.push(a).drop_first()
    } else {
        h.push(a)
    }
}

/// An archive within `HISTORY_LIMIT` stays within it, whatever arrives. Below
/// the limit it grows by the alert that arrived; at the limit the oldest entry
/// leaves, every other moves up one place, and the alert that arrived stands
/// last.
pub proof fn lemma_archive_is_bounded(h: Seq<AlertView>, a: AlertView)
    requires
        h.len() <= HISTORY_LIMIT,
    ensures
        archived(h, a).len() <= HISTORY_LIMIT,
        archived(h, a).last() == a,
        h.len() < HISTORY_LIMIT ==> archived(h, a) == h.push(a),
        h.len() == HISTORY_LIMIT ==> archived(h, a).len() == HISTORY_LIMIT && forall|i: int|
            0 <= i < HISTORY_LIMIT - 1 ==> #[trigger] archived(h, a)[i] == h[i + 1],
{
}

/// The slots `s` after `a` was put: `a` stands in the slot of the alert with its
/// id, and in a new last slot if no alert has its id.
pub open spec fn placed(s: Seq<AlertView>, a: AlertView) -> Seq<AlertView> {
    if exists|i: int| 0 <= i < s.len() && (#[trigger] s[i]).id == a.id {
        s.update(choose|i: int| 0 <= i < s.len() && (#[trigger] s[i]).id == a.id, a)
    } else {
        s.push(a)
    }
}

/// The slots `s` after `a` was put, if there is an `a`; `s` itself if not.
pub open spec fn placed_if(s: Seq<AlertView>, a: Option<AlertView>) -> Seq<AlertView> {
    match a {
        Some(x) => placed(s, x),
        None => s,
    }
}

/// The alerts of `s` that are not resolved, in the order of `s`.
pub open spec fn unresolved(s: Seq<AlertView>) -> Seq<AlertView>
    decreases s.len(),
{
    if s.len() == 0 {
        Seq::empty()
    } else if s.last().resolved {
        unresolved(s.drop_last())
    } else {
        unresolved(s.drop_last()).push(s.last())
    }
}

/// Each alert of `s` with its texts as sequences of characters.
pub open spec fn views(s: Seq<Alert>) -> Seq<AlertView> {
    Seq::new(s.len(), |i: int| s[i]@)
}

/// The thresholds that the settings `s` give: each enabled, to hold for
/// `DEFAULT_DURATION` seconds; of two settings for one metric the later counts.
pub open spec fn configured(s: Seq<ThresholdSetting>) -> Map<Seq<char>, ThresholdView>
    decreases s.len(),
{
    if s.len() == 0 {
        Map::empty()
    } else {
        configured(s.drop_last()).insert(
            s.last().metric@,
            ThresholdView {
                metric: s.last().metric@,
                warning_level: s.last().warning,
                critical_level: s.last().critical,
                duration: DEFAULT_DURATION,
                enabled: true,
            },
        )
    }
}

/// Whether `t` has an enabled threshold for `metric`.
pub open spec fn watches(t: Map<Seq<char>, ThresholdView>, metric: Seq<char>) -> bool {
    t.contains_key(metric) && t[metric].enabled
}

/// Holds the thresholds, the alerts and the archive, and the detector that
/// tells outliers.
pub struct AlertManager {
    thresholds: Table<AlertThreshold>,
    alerts: Table<Alert>,
    anomaly_detector: AnomalyDetector,
    alert_history: VecDeque<Alert>,
}

impl AlertManager {
    /// The tables and the detector are in order, every alert stands under its
    /// id, and the archive is within `HISTORY_LIMIT`.
    pub closed spec fn wf(&self) -> bool {
        &&& self.thresholds.wf()
        &&& self.alerts.wf()
        &&& self.anomaly_detector.wf()
        &&& self.alert_history@.len() <= HISTORY_LIMIT
        &&& forall|k: Seq<char>| #[trigger]
            self.alerts@.contains_key(k) ==> self.alerts@[k].id@ == k
    }

    /// The threshold of each metric that has one.
    pub closed spec fn thresholds(&self) -> Map<Seq<char>, ThresholdView> {
        self.thresholds@.map_values(|t: AlertThreshold| t@)
    }

    /// The alert under each key that has one, resolved ones included.
    pub closed spec fn alerts(&self) -> Map<Seq<char>, AlertView> {
        self.alerts@.map_values(|a: Alert| a@)
    }

    /// The alerts in the order of their slots.
    pub closed spec fn alert_slots(&self) -> Seq<AlertView> {
        views(self.alerts.values())
    }

    /// The archive of resolved alerts, oldest first.
    pub closed spec fn history(&self) -> Seq<AlertView> {
        views(self.alert_history@)
    }

    /// The detector.
    pub closed spec fn detector(&self) -> AnomalyDetector {
        self.anomaly_detector
    }

    /// The window of `metric` on `device_ip` after `value` has arrived.
    pub open spec fn window_after(&self, device_ip: Seq<char>, metric: Seq<char>, value: i64) -> Seq<
        i64,
    > {
        rolled(
            self.detector().window(composite_key(device_ip, metric)),
            bounded(value),
            self.detector().capacity(),
        )
    }

    /// What a reading of `value` for `metric` on `device_ip` at `now` makes
    /// of the alert of that metric, where the metric is watched: the reading
    /// enters the window first and is then classified against it.
    pub open spec fn step(
        &self,
        device_ip: Seq<char>,
        metric: Seq<char>,
        value: i64,
        now: i64,
    ) -> (Option<AlertView>, AlertEvent) {
        let window = self.window_after(device_ip, metric, value);
        let levels = self.thresholds()[metric];
        transition(
            find(self.alerts(), composite_key(device_ip, metric)),
            classify(
                is_outlier(window, bounded(value), self.detector().threshold()),
                value,
                levels.warning_level,
                levels.critical_level,
            ),
            composite_key(device_ip, metric),
            device_ip,
            metric,
            value,
            levels.warning_level,
            levels.critical_level,
            z_score_centi(window, bounded(value)),
            now,
        )
    }

    /// In a well-formed manager the detector is well-formed, the archive is
    /// within `HISTORY_LIMIT`, every alert has its key as id, and the slots
    /// hold the alerts of the map, each once: no two slots hold one id, and
    /// there are as many slots as alerts.
    pub proof fn lemma_wf(&self)
        requires
            self.wf(),
        ensures
            self.detector().wf(),
            self.history().len() <= HISTORY_LIMIT,
            forall|k: Seq<char>| #[trigger]
                self.alerts().contains_key(k) ==> self.alerts()[k].id == k,
            forall|i: int|
                0 <= i < self.alert_slots().len() ==> self.alerts().contains_key(
                    (#[trigger] self.alert_slots()[i]).id,
                ) && self.alerts()[self.alert_slots()[i].id] == self.alert_slots()[i],
            forall|i: int, j: int|
                0 <= i < j < self.alert_slots().len() ==> (#[trigger] self.alert_slots()[i]).id
                    != (#[trigger] self.alert_slots()[j]).id,
            self.alerts().dom().finite(),
            self.alert_slots().len() == self.alerts().dom().len(),
    {
        self.alerts.lemma_slots();
        Self::lemma_slot_ids(&self.alerts);
        assert forall|i: int| 0 <= i < self.alert_slots().len() implies self.alerts().contains_key(
            (#[trigger] self.alert_slots()[i]).id,
        ) && self.alerts()[self.alert_slots()[i].id] == self.alert_slots()[i] by {
            let k = self.alerts.keys()[i];
            assert(self.alerts@.contains_key(k));
            assert(self.alerts@[k] == self.alerts.values()[i]);
        }
        assert(self.alerts().dom() =~= self.alerts@.dom());
    }

    /// In a table whose alerts stand under their ids, each slot's alert has
    /// the slot's key as its id.
    proof fn lemma_slot_ids(t: &Table<Alert>)
        requires
            t.wf(),
            forall|k: Seq<char>| #[trigger] t@.contains_key(k) ==> t@[k].id@ == k,
        ensures
            t.keys().len() == t.values().len(),
            t.keys().no_duplicates(),
            forall|i: int| 0 <= i < t.values().len() ==> (#[trigger] t.values()[i]).id@ == t.keys()[i],
            forall|i: int|
                0 <= i < t.values().len() ==> (#[trigger] views(t.values())[i]).id == t.keys()[i],
    {
        t.lemma_slots();
        assert forall|i: int| 0 <= i < t.values().len() implies (#[trigger] t.values()[i]).id@
            == t.keys()[i] by {
            assert(t@.contains_key(t.keys()[i]));
            assert(t@[t.keys()[i]] == t.values()[i]);
        }
    }

    /// Putting `a` into the slot whose key is its id is placing it.
    proof fn lemma_update_is_placed(t: &Table<Alert>, i: int, a: Alert)
        requires
            t.wf(),
            forall|k: Seq<char>| #[trigger] t@.contains_key(k) ==> t@[k].id@ == k,
            0 <= i < t.keys().len(),
            a.id@ == t.keys()[i],
        ensures
            views(t.values().update(i, a)) == placed(views(t.values()), a@),
    {
        Self::lemma_slot_ids(t);
        let s = views(t.values());
        assert(0 <= i < s.len() && s[i].id == a@.id);
        let j = choose|j: int| 0 <= j < s.len() && (#[trigger] s[j]).id == a@.id;
        assert(t.keys()[j] == t.keys()[i]);
        assert(j == i);
        assert(views(t.values().update(i, a)) =~= s.update(i, a@));
    }

    /// Putting `a` into a new last slot, where no slot has its id, is placing
    /// it.
    proof fn lemma_push_is_placed(t: &Table<Alert>, a: Alert)
        requires
            t.wf(),
            forall|k: Seq<char>| #[trigger] t@.contains_key(k) ==> t@[k].id@ == k,
            !t.keys().contains(a.id@),
        ensures
            views(t.values().push(a)) == placed(views(t.values()), a@),
    {
        Self::lemma_slot_ids(t);
        let s = views(t.values());
        if exists|i: int| 0 <= i < s.len() && (#[trigger] s[i]).id == a@.id {
            let i = choose|i: int| 0 <= i < s.len() && (#[trigger] s[i]).id == a@.id;
            assert(t.keys()[i] == a.id@);
            assert(t.keys().contains(a.id@));
        }
        assert(views(t.values().push(a)) =~= s.push(a@));
    }

    /// A manager without alerts, with the thresholds of `config` and a
    /// detector whose windows hold `config.max_history_size` readings.
    pub fn new(config: &AppConfig) -> (m: Self)
        ensures
            m.wf(),
            m.thresholds() == configured(config.alert_thresholds@),
            m.alerts() == Map::<Seq<char>, AlertView>::empty(),
            m.alert_slots() == Seq::<AlertView>::empty(),
            m.history() == Seq::<AlertView>::empty(),
            m.detector().capacity() == window_capacity(config.max_history_size),
            m.detector().threshold() == DEFAULT_Z_THRESHOLD,
            forall|k: Seq<char>| #[trigger] m.detector().window(k) == Seq::<i64>::empty(),
    {
        let mut m = AlertManager {
            thresholds: Table::new(),
            alerts: Table::new(),
            anomaly_detector: AnomalyDetector::new(config.max_history_size),
            alert_history: VecDeque::new(),
        };
        assert(m.thresholds() =~= configured(config.alert_thresholds@.take(0)));
        assert(m.alerts() =~= Map::<Seq<char>, AlertView>::empty());
        assert(m.alert_slots() =~= Seq::<AlertView>::empty());
        assert(m.history() =~= Seq::<AlertView>::empty());
        let ghost start = m;
        let n = config.alert_thresholds.len();
        let mut i: usize = 0;
        while i < n
            invariant
                n == config.alert_thresholds@.len(),
                0 <= i <= n,
                m.wf(),
                m.thresholds() == configured(config.alert_thresholds@.take(i as int)),
                m.alerts() == start.alerts(),
                m.alert_slots() == start.alert_slots(),
                m.history() == start.history(),
                m.detector() == start.detector(),
            decreases n - i,
        {
            let setting = &config.alert_thresholds[i];
            m.set_threshold(setting.metric.as_str(), setting.warning, setting.critical, DEFAULT_DURATION);
            proof {
                let done = config.alert_thresholds@.take(i as int);
                let next = config.alert_thresholds@.take(i + 1);
                assert(next.drop_last() =~= done);
                assert(next.last() == config.alert_thresholds@[i as int]);
            }
            i = i + 1;
        }
        assert(config.alert_thresholds@.take(n as int) =~= config.alert_thresholds@);
        m
    }

    /// Sets the levels of `metric`, in thousandths, and enables the threshold.
    pub fn set_threshold(&mut self, metric: &str, warning: i64, critical: i64, duration: u64)
        requires
            old(self).wf(),
        ensures
            final(self).wf(),
            final(self).thresholds() == old(self).thresholds().insert(
                metric@,
                ThresholdView {
                    metric: metric@,
                    warning_level: warning,
                    critical_level: critical,
                    duration,
                    enabled: true,
                },
            ),
            final(self).alerts() == old(self).alerts(),
            final(self).alert_slots() == old(self).alert_slots(),
            final(self).history() == old(self).history(),
            final(self).detector() == old(self).detector(),
    {
        let threshold = AlertThreshold {
            metric: String::from_str(metric),
            warning_level: warning,
            critical_level: critical,
            duration,
            enabled: true,
        };
        let _ = self.thresholds.insert(String::from_str(metric), threshold);
        assert(self.thresholds() =~= old(self).thresholds().insert(metric@, threshold@));
    }

    /// Puts `threshold` in place of the one that its metric has, or as its
    /// first.
    pub fn update_threshold(&mut self, threshold: AlertThreshold)
        requires
            old(self).wf(),
        ensures
            final(self).wf(),
            final(self).thresholds() == old(self).thresholds().insert(
                threshold.metric@,
                threshold@,
            ),
            final(self).alerts() == old(self).alerts(),
            final(self).alert_slots() == old(self).alert_slots(),
            final(self).history() == old(self).history(),
            final(self).detector() == old(self).detector(),
    {
        let key = threshold.metric.clone();
        let _ = self.thresholds.insert(key, threshold);
        assert(self.thresholds() =~= old(self).thresholds().insert(threshold.metric@, threshold@));
    }

    /// Puts a new alert under `alert_key`, in place of any that stands there:
    /// neither acknowledged nor resolved, with `alert_key` as its id and `now`
    /// as its time.
    pub fn create_alert_at(
        &mut self,
        device_ip: &str,
        metric: &str,
        value: i64,
        level: AlertLevel,
        threshold: i64,
        alert_key: &str,
        message: String,
        now: i64,
    )
        requires
            old(self).wf(),
        ensures
            final(self).wf(),
            final(self).alerts() == old(self).alerts().insert(
                alert_key@,
                fresh_alert(
                    alert_key@,
                    device_ip@,
                    metric@,
                    level,
                    value,
                    threshold,
                    message@,
                    now,
                ),
            ),
            final(self).alert_slots() == placed(
                old(self).alert_slots(),
                fresh_alert(
                    alert_key@,
                    device_ip@,
                    metric@,
                    level,
                    value,
                    threshold,
                    message@,
                    now,
                ),
            ),
            final(self).thresholds() == old(self).thresholds(),
            final(self).history() == old(self).history(),
            final(self).detector() == old(self).detector(),
    {
        let alert = Alert {
            id: String::from_str(alert_key),
            device_ip: String::from_str(device_ip),
            metric: String::from_str(metric),
            level,
            value,
            threshold,
            timestamp: now,
            acknowledged: false,
            resolved: false,
            message,
        };
        proof {
            self.alerts.lemma_slots();
            if self.alerts.keys().contains(alert_key@) {
                let i = self.alerts.keys().index_of(alert_key@);
                assert(self.alerts.keys()[i] == alert_key@);
                Self::lemma_update_is_placed(&self.alerts, i, alert);
            } else {
                Self::lemma_push_is_placed(&self.alerts, alert);
            }
        }
        let _ = self.alerts.insert(String::from_str(alert_key), alert);
        assert(self.alerts() =~= old(self).alerts().insert(alert_key@, alert@));
    }

    /// Puts a new alert under `alert_key` as `create_alert_at` does, with the
    /// time that the clock shows.
    pub fn create_alert(
        &mut self,
        device_ip: &str,
        metric: &str,
        value: i64,
        level: AlertLevel,
        threshold: i64,
        alert_key: &str,
        message: String,
    )
        requires
            old(self).wf(),
        ensures
            final(self).wf(),
            exists|now: i64|
                final(self).alerts() == old(self).alerts().insert(
                    alert_key@,
                    #[trigger] fresh_alert(
                        alert_key@,
                        device_ip@,
                        metric@,
                        level,
                        value,
                        threshold,
                        message@,
                        now,
                    ),
                ) && final(self).alert_slots() == placed(
                    old(self).alert_slots(),
                    fresh_alert(
                        alert_key@,
                        device_ip@,
                        metric@,
                        level,
                        value,
                        threshold,
                        message@,
                        now,
                    ),
                ),
            final(self).thresholds() == old(self).thresholds(),
            final(self).history() == old(self).history(),
            final(self).detector() == old(self).detector(),
    {
        let now = now_millis();
        self.create_alert_at(device_ip, metric, value, level, threshold, alert_key, message, now);
    }

    /// Takes `alert` into the archive. The oldest entry leaves a full archive.
    pub fn archive_alert(&mut self, alert: Alert)
        requires
            old(self).wf(),
        ensures
            final(self).wf(),
            final(self).history() == archived(old(self).history(), alert@),
            final(self).history().len() <= HISTORY_LIMIT,
            final(self).alerts() == old(self).alerts(),
            final(self).alert_slots() == old(self).alert_slots(),
            final(self).thresholds() == old(self).thresholds(),
            final(self).detector() == old(self).detector(),
    {
        self.alert_history.push_back(alert);
        if self.alert_history.len() > HISTORY_LIMIT {
            let _ = self.alert_history.pop_front();
        }
        assert(self.history() =~= archived(old(self).history(), alert@));
    }

    /// Takes a reading of `value` thousandths for `metric` on `device_ip` at
    /// time `now`, and says what it did to the alert of that metric.
    ///
    /// A metric without an enabled threshold changes nothing. Otherwise the
    /// reading enters the metric's window, is classified, and the alert under
    /// the metric's key moves as `transition` says; an alert that is resolved
    /// is copied to the archive.
    pub fn check_metric_at(&mut self, device_ip: &str, metric: &str, value: i64, now: i64) -> (event:
        AlertEvent)
        requires
            old(self).wf(),
        ensures
            final(self).wf(),
            checked(old(self), final(self), device_ip@, metric@, value, now, event),
    {
        let (warning, critical) = match self.thresholds.get(metric) {
            Some(t) => {
                if !t.enabled {
                    return AlertEvent::Nothing;
                }
                (t.warning_level, t.critical_level)
            },
            None => {
                return AlertEvent::Nothing;
            },
        };
        self.anomaly_detector.update_baseline(device_ip, metric, value);
        let key = make_key(device_ip, metric);
        let (outlier, z) = self.anomaly_detector.detect_anomaly(device_ip, metric, value);
        let class = classify_reading(outlier, value, warning, critical);
        let ghost expected = old(self).step(device_ip@, metric@, value, now);
        proof {
            self.alerts.lemma_slots();
        }
        match self.alerts.position(key.as_str()) {
            Some(i) => {
                let current = self.alerts.value_at(i);
                assert(find(old(self).alerts(), key@) == Some(current@));
                match class {
                    Some(level) => {
                        if current.level != level || current.resolved {
                            let next = Alert {
                                id: current.id.clone(),
                                device_ip: current.device_ip.clone(),
                                metric: current.metric.clone(),
                                level,
                                value,
                                threshold: threshold_for(level, warning, critical),
                                timestamp: now,
                                acknowledged: current.acknowledged,
                                resolved: false,
                                message: compose_message(level, metric, value, z),
                            };
                            assert(Some(next@) == expected.0);
                            proof {
                                Self::lemma_update_is_placed(&self.alerts, i as int, next);
                            }
                            let _ = self.alerts.replace_at(i, next);
                            assert(self.alerts() =~= old(self).alerts().insert(key@, next@));
                            AlertEvent::Updated
                        } else {
                            proof {
                                Self::lemma_update_is_placed(&self.alerts, i as int, *current);
                                assert(self.alerts.values().update(i as int, *current)
                                    =~= self.alerts.values());
                            }
                            assert(self.alerts() =~= old(self).alerts().insert(key@, current@));
                            AlertEvent::Nothing
                        }
                    },
                    None => {
                        if !current.resolved {
                            let next = Alert {
                                id: current.id.clone(),
                                device_ip: current.device_ip.clone(),
                                metric: current.metric.clone(),
                                level: current.level,
                                value: current.value,
                                threshold: current.threshold,
                                timestamp: now,
                                acknowledged: current.acknowledged,
                                resolved: true,
                                message: compose_resolved(metric),
                            };
                            assert(Some(next@) == expected.0);
                            proof {
                                Self::lemma_update_is_placed(&self.alerts, i as int, next);
                            }
                            let copy = next.clone();
                            let _ = self.alerts.replace_at(i, next);
                            assert(self.alerts() =~= old(self).alerts().insert(key@, next@));
                            self.archive_alert(copy);
                            AlertEvent::Resolved
                        } else {
                            proof {
                                Self::lemma_update_is_placed(&self.alerts, i as int, *current);
                                assert(self.alerts.values().update(i as int, *current)
                                    =~= self.alerts.values());
                            }
                            assert(self.alerts() =~= old(self).alerts().insert(key@, current@));
                            AlertEvent::Nothing
                        }
                    },
                }
            },
            None => {
                assert(find(old(self).alerts(), key@) == None::<AlertView>);
                match class {
                    Some(level) => {
                        self.create_alert_at(
                            device_ip,
                            metric,
                            value,
                            level,
                            threshold_for(level, warning, critical),
                            key.as_str(),
                            compose_message(level, metric, value, z),
                            now,
                        );
                        AlertEvent::Created
                    },
                    None => AlertEvent::Nothing,
                }
            },
        }
    }

    /// Takes a reading as `check_metric_at` does, at the time that the clock
    /// shows.
    pub fn check_metric(&mut self, device_ip: &str, metric: &str, value: i64) -> (event: AlertEvent)
        requires
            old(self).wf(),
        ensures
            final(self).wf(),
            exists|now: i64| checked(old(self), final(self), device_ip@, metric@, value, now, event),
    {
        let now = now_millis();
        self.check_metric_at(device_ip, metric, value, now)
    }

    /// Copies of the alerts that are not resolved, each once, in the order of
    /// their slots.
    pub fn get_active_alerts(&self) -> (active: Vec<Alert>)
        requires
            self.wf(),
        ensures
            views(active@) == unresolved(self.alert_slots()),
            forall|i: int|
                0 <= i < active@.len() ==> self.alerts().contains_key((#[trigger] active@[i]).id@)
                    && self.alerts()[active@[i].id@] == active@[i]@ && !active@[i].resolved,
            forall|k: Seq<char>|
                self.alerts().contains_key(k) && !self.alerts()[k].resolved ==> exists|i: int|
                    0 <= i < active@.len() && (#[trigger] active@[i])@ == self.alerts()[k],
            forall|i: int, j: int|
                0 <= i < j < active@.len() ==> (#[trigger] active@[i]).id@ != (
                #[trigger] active@[j]).id@,
            active@.len() <= self.alert_slots().len(),
    {
        let n = self.alerts.len();
        let mut active: Vec<Alert> = Vec::new();
        let mut i: usize = 0;
        proof {
            self.lemma_wf();
            self.alerts.lemma_slots();
            assert(views(active@) =~= unresolved(self.alert_slots().take(0)));
        }
        while i < n
            invariant
                self.wf(),
                n == self.alerts.keys().len(),
                n == self.alert_slots().len(),
                0 <= i <= n,
                views(active@) == unresolved(self.alert_slots().take(i as int)),
                forall|j: int|
                    0 <= j < active@.len() ==> self.alerts().contains_key(
                        (#[trigger] active@[j]).id@,
                    ) && self.alerts()[active@[j].id@] == active@[j]@ && !active@[j].resolved,
                forall|s: int|
                    0 <= s < i && !self.alert_slots()[s].resolved ==> exists|j: int|
                        0 <= j < active@.len() && (#[trigger] active@[j])@ == self.alert_slots()[s],
                active@.len() <= i,
                forall|j: int|
                    0 <= j < active@.len() ==> exists|s: int|
                        0 <= s < i && (#[trigger] self.alert_slots()[s]).id == (
                        #[trigger] active@[j]).id@,
                forall|j: int, k: int|
                    0 <= j < k < active@.len() ==> (#[trigger] active@[j]).id@ != (
                    #[trigger] active@[k]).id@,
            decreases n - i,
        {
            let alert = self.alerts.value_at(i);
            proof {
                self.lemma_wf();
                let done = self.alert_slots().take(i as int);
                let next = self.alert_slots().take(i + 1);
                assert(next.drop_last() =~= done);
                assert(next.last() == alert@);
            }
            if !alert.resolved {
                let ghost before = active@;
                let copy = alert.clone();
                active.push(copy);
                proof {
                    assert(views(active@) =~= views(before).push(alert@));
                    assert forall|s: int|
                        0 <= s < i + 1 && !self.alert_slots()[s].resolved implies exists|j: int|
                        0 <= j < active@.len() && (#[trigger] active@[j])@
                            == self.alert_slots()[s] by {
                        if s < i {
                            let j = choose|j: int|
                                0 <= j < before.len() && (#[trigger] before[j])@
                                    == self.alert_slots()[s];
                            assert(active@[j] == before[j]);
                        } else {
                            assert(active@[before.len() as int]@ == self.alert_slots()[s]);
                        }
                    }
                    assert forall|j: int| 0 <= j < active@.len() implies exists|s: int|
                        0 <= s < i + 1 && (#[trigger] self.alert_slots()[s]).id == (
                        #[trigger] active@[j]).id@ by {
                        if j < before.len() {
                            let s = choose|s: int|
                                0 <= s < i && (#[trigger] self.alert_slots()[s]).id
                                    == before[j].id@;
                            assert(active@[j] == before[j]);
                            assert(0 <= s < i + 1 && self.alert_slots()[s].id == active@[j].id@);
                        } else {
                            assert(self.alert_slots()[i as int].id == active@[j].id@);
                        }
                    }
                    assert forall|j: int, k: int| 0 <= j < k < active@.len() implies (
                    #[trigger] active@[j]).id@ != (#[trigger] active@[k]).id@ by {
                        if k == before.len() {
                            let s = choose|s: int|
                                0 <= s < i && (#[trigger] self.alert_slots()[s]).id
                                    == before[j].id@;
                            assert(active@[j] == before[j]);
                            assert(self.alert_slots()[s].id != self.alert_slots()[i as int].id);
                        } else {
                            assert(active@[j] == before[j]);
                            assert(active@[k] == before[k]);
                        }
                    }
                }
            } else {
                proof {
                    assert forall|j: int| 0 <= j < active@.len() implies exists|s: int|
                        0 <= s < i + 1 && (#[trigger] self.alert_slots()[s]).id == (
                        #[trigger] active@[j]).id@ by {
                        let s = choose|s: int|
                            0 <= s < i && (#[trigger] self.alert_slots()[s]).id == active@[j].id@;
                        assert(0 <= s < i + 1 && self.alert_slots()[s].id == active@[j].id@);
                    }
                }
            }
            i = i + 1;
        }
        proof {
            assert(self.alert_slots().take(n as int) =~= self.alert_slots());
            self.alerts.lemma_slots();
            assert forall|k: Seq<char>|
                self.alerts().contains_key(k) && !self.alerts()[k].resolved implies exists|i: int|
                0 <= i < active@.len() && (#[trigger] active@[i])@ == self.alerts()[k] by {
                let s = self.alerts.keys().index_of(k);
                assert(self.alerts.keys()[s] == k);
                assert(self.alerts@[self.alerts.keys()[s]] == self.alerts.values()[s]);
                assert(self.alert_slots()[s] == self.alerts()[k]);
            }
        }
        active
    }

    /// Marks the alert with id `alert_id` as acknowledged. Without such an
    /// alert nothing changes and the call fails.
    pub fn acknowledge_alert(&mut self, alert_id: &str) -> (r: Result<(), AlertError>)
        requires
            old(self).wf(),
        ensures
            final(self).wf(),
            r.is_ok() == old(self).alerts().contains_key(alert_id@),
            r.is_err() ==> r == Err::<(), AlertError>(AlertError::NotFound),
            final(self).alerts() == if r.is_ok() {
                old(self).alerts().insert(
                    alert_id@,
                    (AlertView { acknowledged: true, ..old(self).alerts()[alert_id@] }),
                )
            } else {
                old(self).alerts()
            },
            final(self).alert_slots() == if r.is_ok() {
                placed(
                    old(self).alert_slots(),
                    (AlertView { acknowledged: true, ..old(self).alerts()[alert_id@] }),
                )
            } else {
                old(self).alert_slots()
            },
            final(self).thresholds() == old(self).thresholds(),
            final(self).history() == old(self).history(),
            final(self).detector() == old(self).detector(),
    {
        match self.alerts.position(alert_id) {
            Some(i) => {
                proof {
                    self.alerts.lemma_slots();
                }
                let current = self.alerts.value_at(i);
                let next = Alert {
                    id: current.id.clone(),
                    device_ip: current.device_ip.clone(),
                    metric: current.metric.clone(),
                    level: current.level,
                    value: current.value,
                    threshold: current.threshold,
                    timestamp: current.timestamp,
                    acknowledged: true,
                    resolved: current.resolved,
                    message: current.message.clone(),
                };
                proof {
                    Self::lemma_update_is_placed(&self.alerts, i as int, next);
                }
                let _ = self.alerts.replace_at(i, next);
                assert(self.alerts() =~= old(self).alerts().insert(alert_id@, next@));
                Ok(())
            },
            None => Err(AlertError::NotFound),
        }
    }

    /// A copy of the alert with id `alert_id`, if there is one.
    pub fn get_alert(&self, alert_id: &str) -> (r: Option<Alert>)
        requires
            self.wf(),
        ensures
            match r {
                Some(a) => find(self.alerts(), alert_id@) == Some(a@),
                None => !self.alerts().contains_key(alert_id@),
            },
    {
        match self.alerts.get(alert_id) {
            Some(a) => Some(a.clone()),
            None => None,
        }
    }

    /// Copies of the archived alerts, oldest first.
    pub fn get_alert_history(&self) -> (h: Vec<Alert>)
        requires
            self.wf(),
        ensures
            views(h@) == self.history(),
    {
        let n = self.alert_history.len();
        let mut h: Vec<Alert> = Vec::new();
        let mut i: usize = 0;
        while i < n
            invariant
                n == self.alert_history@.len(),
                0 <= i <= n,
                h@.len() == i,
                self.history().len() == n,
                views(h@) == self.history().take(i as int),
            decreases n - i,
        {
            let ghost before = h@;
            let entry = &self.alert_history[i];
            let copy = entry.clone();
            h.push(copy);
            proof {
                assert(*entry == self.alert_history@[i as int]);
                assert(views(before) == self.history().take(i as int));
                assert(h@ == before.push(copy));
                assert forall|j: int| 0 <= j < i + 1 implies views(h@)[j] == self.history().take(
                    i + 1,
                )[j] by {
                    if j < i {
                        assert(views(before)[j] == self.history().take(i as int)[j]);
                    }
                }
                assert(views(h@) =~= self.history().take(i + 1));
            }
            i = i + 1;
        }
        assert(self.history().take(n as int) =~= self.history());
        h
    }

    /// The detector, to look at its windows.
    pub fn anomaly_detector(&self) -> (d: &AnomalyDetector)
        ensures
            *d == self.detector(),
    {
        &self.anomaly_detector
    }
}

/// `post` is what `pre` becomes by a reading of `value` thousandths for
/// `metric` on `device_ip` at `now`, and `event` is what happened.
///
/// The thresholds stay. A metric that `pre` does not watch changes nothing.
/// For a watched metric the reading enters the metric's window and no other;
/// the alert under the metric's key becomes what `pre.step` gives, in the slot
/// that it had or in a new last slot, and no other alert changes; the archive
/// takes the alert if it was resolved.
pub open spec fn checked(
    pre: &AlertManager,
    post: &AlertManager,
    device_ip: Seq<char>,
    metric: Seq<char>,
    value: i64,
    now: i64,
    event: AlertEvent,
) -> bool {
    let key = composite_key(device_ip, metric);
    let step = pre.step(device_ip, metric, value, now);
    &&& post.thresholds() == pre.thresholds()
    &&& post.detector().capacity() == pre.detector().capacity()
    &&& post.detector().threshold() == pre.detector().threshold()
    &&& if watches(pre.thresholds(), metric) {
        &&& event == step.1
        &&& post.alerts() == put(pre.alerts(), key, step.0)
        &&& post.alert_slots() == placed_if(pre.alert_slots(), step.0)
        &&& post.history() == if event == AlertEvent::Resolved {
            archived(pre.history(), step.0.unwrap())
        } else {
            pre.history()
        }
        &&& post.detector().window(key) == pre.window_after(device_ip, metric, value)
        &&& forall|k: Seq<char>|
            k != key ==> #[trigger] post.detector().window(k) == pre.detector().window(k)
    } else {
        &&& event == AlertEvent::Nothing
        &&& post.alerts() == pre.alerts()
        &&& post.alert_slots() == pre.alert_slots()
        &&& post.history() == pre.history()
        &&& post.detector() == pre.detector()
    }
}

/// Two readings of one metric of one device, one after the other: whatever
/// they are classified as, the alert of the metric has the metric's key as its
/// id after each, and an alert that the first left is still there after the
/// second.
pub proof fn lemma_alert_identity(
    m0: &AlertManager,
    m1: &AlertManager,
    m2: &AlertManager,
    device_ip: Seq<char>,
    metric: Seq<char>,
    first: i64,
    second: i64,
    t1: i64,
    t2: i64,
    e1: AlertEvent,
    e2: AlertEvent,
)
    requires
        m0.wf(),
        m1.wf(),
        m2.wf(),
        checked(m0, m1, device_ip, metric, first, t1, e1),
        checked(m1, m2, device_ip, metric, second, t2, e2),
    ensures
        m1.alerts().contains_key(composite_key(device_ip, metric)) ==> {
            &&& m1.alerts()[composite_key(device_ip, metric)].id == composite_key(device_ip, metric)
            &&& m2.alerts().contains_key(composite_key(device_ip, metric))
            &&& m2.alerts()[composite_key(device_ip, metric)].id == m1.alerts()[composite_key(
                device_ip,
                metric,
            )].id
        },
        m2.alerts().dom().subset_of(
            m0.alerts().dom().insert(composite_key(device_ip, metric)),
        ),
{
    m0.lemma_wf();
    m1.lemma_wf();
    m2.lemma_wf();
}

} // verus!
