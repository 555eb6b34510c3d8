use device_monitor::alert::{
    classify_reading, compose_message, compose_resolved, threshold_for, Alert, AlertError,
    AlertEvent, AlertLevel, AlertThreshold,
};
use device_monitor::config::{AppConfig, ThresholdSetting};
use device_monitor::manager::{AlertManager, HISTORY_LIMIT};

fn manager() -> AlertManager {
    AlertManager::new(&AppConfig::default())
}

fn ids(alerts: &[Alert]) -> Vec<String> {
    let mut ids: Vec<String> = alerts.iter().map(|a| a.id.clone()).collect();
    ids.sort();
    ids
}

#[test]
fn classification_follows_the_fixed_priority() {
    assert_eq!(classify_reading(true, 0, 80_000, 95_000), Some(AlertLevel::Anomaly));
    assert_eq!(classify_reading(true, 99_000, 80_000, 95_000), Some(AlertLevel::Anomaly));
    assert_eq!(classify_reading(false, 95_000, 80_000, 95_000), Some(AlertLevel::Critical));
    assert_eq!(classify_reading(false, 94_999, 80_000, 95_000), Some(AlertLevel::Warning));
    assert_eq!(classify_reading(false, 80_000, 80_000, 95_000), Some(AlertLevel::Warning));
    assert_eq!(classify_reading(false, 79_999, 80_000, 95_000), None);
}

#[test]
fn threshold_used_is_the_levels_own() {
    assert_eq!(threshold_for(AlertLevel::Warning, 80_000, 95_000), 80_000);
    assert_eq!(threshold_for(AlertLevel::Critical, 80_000, 95_000), 95_000);
    assert_eq!(threshold_for(AlertLevel::Anomaly, 80_000, 95_000), 0);
}

#[test]
fn messages_read_as_written() {
    assert_eq!(compose_message(AlertLevel::Warning, "cpu", 85_000, 0), "cpu usage high: 85.0%");
    assert_eq!(
        compose_message(AlertLevel::Critical, "memory", 97_250, 0),
        "memory usage critically high: 97.3%"
    );
    assert_eq!(
        compose_message(AlertLevel::Anomaly, "disk", 10_000, 327),
        "Anomalous disk value detected (z-score: 3.27)"
    );
    assert_eq!(compose_resolved("cpu"), "cpu returned to normal levels");
}

#[test]
fn level_names_are_lower_case() {
    assert_eq!(AlertLevel::Warning.as_str(), "warning");
    assert_eq!(AlertLevel::Critical.as_str(), "critical");
    assert_eq!(AlertLevel::Anomaly.as_str(), "anomaly");
}

#[test]
fn warning_critical_resolve_sequence() {
    let mut m = AlertManager::new(&AppConfig {
        alert_thresholds: vec![ThresholdSetting {
            metric: "cpu".to_string(),
            warning: 80_000,
            critical: 95_000,
        }],
        ..AppConfig::default()
    });
    assert_eq!(m.check_metric_at("10.0.0.1", "cpu", 50_000, 1), AlertEvent::Nothing);
    assert!(m.get_active_alerts().is_empty());
    assert!(m.get_alert("10.0.0.1_cpu").is_none());

    assert_eq!(m.check_metric_at("10.0.0.1", "cpu", 85_000, 2), AlertEvent::Created);
    let active = m.get_active_alerts();
    assert_eq!(active.len(), 1);
    assert_eq!(active[0].id, "10.0.0.1_cpu");
    assert_eq!(active[0].device_ip, "10.0.0.1");
    assert_eq!(active[0].metric, "cpu");
    assert_eq!(active[0].level, AlertLevel::Warning);
    assert_eq!(active[0].value, 85_000);
    assert_eq!(active[0].threshold, 80_000);
    assert_eq!(active[0].timestamp, 2);
    assert!(!active[0].acknowledged);
    assert!(!active[0].resolved);
    assert_eq!(active[0].message, "cpu usage high: 85.0%");

    assert_eq!(m.check_metric_at("10.0.0.1", "cpu", 97_000, 3), AlertEvent::Updated);
    let active = m.get_active_alerts();
    assert_eq!(active.len(), 1);
    assert_eq!(active[0].id, "10.0.0.1_cpu");
    assert_eq!(active[0].level, AlertLevel::Critical);
    assert_eq!(active[0].value, 97_000);
    assert_eq!(active[0].threshold, 95_000);
    assert_eq!(active[0].timestamp, 3);
    assert_eq!(active[0].message, "cpu usage critically high: 97.0%");

    assert_eq!(m.check_metric_at("10.0.0.1", "cpu", 60_000, 4), AlertEvent::Resolved);
    assert!(m.get_active_alerts().is_empty());
    let kept = m.get_alert("10.0.0.1_cpu").unwrap();
    assert!(kept.resolved);
    assert_eq!(kept.level, AlertLevel::Critical);
    assert_eq!(kept.value, 97_000);
    assert_eq!(kept.timestamp, 4);
    assert_eq!(kept.message, "cpu returned to normal levels");
    let history = m.get_alert_history();
    assert_eq!(history.len(), 1);
    assert_eq!(history[0].id, "10.0.0.1_cpu");
    assert!(history[0].resolved);
    assert_eq!(history[0].timestamp, 4);
}

#[test]
fn same_level_again_changes_nothing() {
    let mut m = manager();
    assert_eq!(m.check_metric_at("d", "cpu", 85_000, 10), AlertEvent::Created);
    assert_eq!(m.check_metric_at("d", "cpu", 90_000, 20), AlertEvent::Nothing);
    let alert = m.get_alert("d_cpu").unwrap();
    assert_eq!(alert.value, 85_000);
    assert_eq!(alert.timestamp, 10);
}

#[test]
fn resolved_alert_is_raised_again_by_any_level() {
    let mut m = manager();
    m.check_metric_at("d", "cpu", 85_000, 10);
    m.acknowledge_alert("d_cpu").unwrap();
    assert_eq!(m.check_metric_at("d", "cpu", 10_000, 20), AlertEvent::Resolved);
    assert_eq!(m.check_metric_at("d", "cpu", 10_000, 30), AlertEvent::Nothing);
    assert_eq!(m.get_alert_history().len(), 1);
    assert_eq!(m.check_metric_at("d", "cpu", 86_000, 40), AlertEvent::Updated);
    let alert = m.get_alert("d_cpu").unwrap();
    assert!(!alert.resolved);
    assert!(alert.acknowledged);
    assert_eq!(alert.level, AlertLevel::Warning);
    assert_eq!(alert.value, 86_000);
    assert_eq!(alert.timestamp, 40);
    assert_eq!(m.get_active_alerts().len(), 1);
}

#[test]
fn one_alert_per_device_and_metric() {
    let mut m = manager();
    for (i, value) in [85_000, 97_000, 85_000, 10_000, 99_000, 86_000].iter().enumerate() {
        m.check_metric_at("d1", "cpu", *value, i as i64);
        let stored = m.get_alert("d1_cpu").unwrap();
        assert_eq!(stored.id, "d1_cpu");
        assert!(m.get_active_alerts().len() <= 1);
    }
    m.check_metric_at("d1", "memory", 99_000, 10);
    m.check_metric_at("d2", "cpu", 99_000, 11);
    assert_eq!(ids(&m.get_active_alerts()), vec!["d1_cpu", "d1_memory", "d2_cpu"]);
}

#[test]
fn unwatched_metric_raises_nothing() {
    let mut m = manager();
    assert_eq!(m.check_metric_at("d", "load", 1_000_000, 1), AlertEvent::Nothing);
    assert!(m.get_active_alerts().is_empty());
    assert_eq!(m.anomaly_detector().sample_count("d", "load"), 0);
}

#[test]
fn disabled_threshold_raises_nothing() {
    let mut m = manager();
    m.update_threshold(AlertThreshold {
        metric: "cpu".to_string(),
        warning_level: 80_000,
        critical_level: 95_000,
        duration: 300,
        enabled: false,
    });
    assert_eq!(m.check_metric_at("d", "cpu", 99_000, 1), AlertEvent::Nothing);
    assert!(m.get_active_alerts().is_empty());
    assert_eq!(m.anomaly_detector().sample_count("d", "cpu"), 0);
    m.set_threshold("cpu", 80_000, 95_000, 300);
    assert_eq!(m.check_metric_at("d", "cpu", 99_000, 2), AlertEvent::Created);
}

#[test]
fn default_thresholds_come_from_the_settings() {
    let mut m = manager();
    assert_eq!(m.check_metric_at("d", "memory", 84_999, 1), AlertEvent::Nothing);
    assert_eq!(m.check_metric_at("d", "memory", 85_000, 2), AlertEvent::Created);
    assert_eq!(m.check_metric_at("d", "disk", 89_999, 3), AlertEvent::Nothing);
    assert_eq!(m.check_metric_at("d", "disk", 98_000, 4), AlertEvent::Created);
    assert_eq!(m.get_alert("d_disk").unwrap().level, AlertLevel::Critical);
    assert_eq!(m.get_alert("d_disk").unwrap().threshold, 98_000);
}

#[test]
fn anomaly_outranks_the_thresholds() {
    let mut m = manager();
    for i in 0..30 {
        let value = if i % 2 == 0 { 10_000 } else { 12_000 };
        assert_eq!(m.check_metric_at("d", "cpu", value, i), AlertEvent::Nothing);
    }
    // Far below the warning level, and far from the baseline.
    assert_eq!(m.check_metric_at("d", "cpu", 40_000, 100), AlertEvent::Created);
    let alert = m.get_alert("d_cpu").unwrap();
    assert_eq!(alert.level, AlertLevel::Anomaly);
    assert_eq!(alert.threshold, 0);
    assert_eq!(alert.value, 40_000);
    // The window held 31 readings when the reading was scored, itself among
    // them: 15 of 10, 15 of 12, one of 40 (in units).
    assert_eq!(alert.message, "Anomalous cpu value detected (z-score: 5.37)");
    // Above the critical level, and still an outlier (z-score 5.27): an
    // anomaly, not critical.
    assert_eq!(m.check_metric_at("d", "cpu", 99_000, 101), AlertEvent::Nothing);
    assert_eq!(m.get_alert("d_cpu").unwrap().level, AlertLevel::Anomaly);
}

#[test]
fn reading_enters_the_baseline_before_it_is_scored() {
    let mut m = manager();
    for i in 0..19 {
        m.check_metric_at("d", "cpu", if i % 2 == 0 { 10_000 } else { 12_000 }, i);
    }
    assert_eq!(m.anomaly_detector().sample_count("d", "cpu"), 19);
    // The twentieth reading completes the window that scores it.
    assert_eq!(m.check_metric_at("d", "cpu", 40_000, 20), AlertEvent::Created);
    assert_eq!(m.anomaly_detector().sample_count("d", "cpu"), 20);
    assert_eq!(m.get_alert("d_cpu").unwrap().level, AlertLevel::Anomaly);
}

#[test]
fn acknowledge_marks_the_alert() {
    let mut m = manager();
    m.check_metric_at("d", "cpu", 85_000, 1);
    assert_eq!(m.acknowledge_alert("d_cpu"), Ok(()));
    let alert = m.get_alert("d_cpu").unwrap();
    assert!(alert.acknowledged);
    assert!(!alert.resolved);
    assert_eq!(alert.value, 85_000);
    assert_eq!(m.get_active_alerts().len(), 1);
}

#[test]
fn acknowledge_of_unknown_id_fails_without_effect() {
    let mut m = manager();
    m.check_metric_at("d", "cpu", 85_000, 1);
    assert_eq!(m.acknowledge_alert("d_memory"), Err(AlertError::NotFound));
    assert_eq!(m.acknowledge_alert(""), Err(AlertError::NotFound));
    assert!(!m.get_alert("d_cpu").unwrap().acknowledged);
    assert_eq!(m.get_active_alerts().len(), 1);
}

#[test]
fn history_never_exceeds_its_limit() {
    let mut m = manager();
    assert_eq!(HISTORY_LIMIT, 1000);
    for i in 0..1001i64 {
        let device = format!("d{}", i);
        assert_eq!(m.check_metric_at(&device, "cpu", 85_000, 2 * i), AlertEvent::Created);
        assert_eq!(m.check_metric_at(&device, "cpu", 10_000, 2 * i + 1), AlertEvent::Resolved);
        assert!(m.get_alert_history().len() <= 1000);
    }
    let history = m.get_alert_history();
    assert_eq!(history.len(), 1000);
    // The first alert resolved has left; the second is now the oldest.
    assert_eq!(history[0].id, "d1_cpu");
    assert_eq!(history[999].id, "d1000_cpu");
    assert!(m.get_active_alerts().is_empty());
    // Resolved alerts stay in the map.
    assert!(m.get_alert("d0_cpu").unwrap().resolved);
}

#[test]
fn archive_takes_alerts_directly() {
    let mut m = manager();
    for i in 0..1000 {
        m.archive_alert(sample_alert(&format!("a{}", i)));
    }
    assert_eq!(m.get_alert_history().len(), 1000);
    m.archive_alert(sample_alert("last"));
    let history = m.get_alert_history();
    assert_eq!(history.len(), 1000);
    assert_eq!(history[0].id, "a1");
    assert_eq!(history[999].id, "last");
}

fn sample_alert(id: &str) -> Alert {
    Alert {
        id: id.to_string(),
        device_ip: "d".to_string(),
        metric: "cpu".to_string(),
        level: AlertLevel::Warning,
        value: 1,
        threshold: 2,
        timestamp: 3,
        acknowledged: false,
        resolved: true,
        message: "m".to_string(),
    }
}

#[test]
fn create_alert_replaces_what_stands_under_the_key() {
    let mut m = manager();
    m.create_alert_at("d", "cpu", 85_000, AlertLevel::Warning, 80_000, "d_cpu", "first".to_string(), 5);
    m.acknowledge_alert("d_cpu").unwrap();
    m.create_alert_at("d", "cpu", 99_000, AlertLevel::Critical, 95_000, "d_cpu", "second".to_string(), 6);
    let alert = m.get_alert("d_cpu").unwrap();
    assert_eq!(alert.id, "d_cpu");
    assert_eq!(alert.level, AlertLevel::Critical);
    assert_eq!(alert.message, "second");
    assert_eq!(alert.timestamp, 6);
    assert!(!alert.acknowledged);
    assert_eq!(m.get_active_alerts().len(), 1);
}

#[test]
fn clocked_calls_stamp_the_present_time() {
    let mut m = manager();
    assert_eq!(m.check_metric("d", "cpu", 85_000), AlertEvent::Created);
    let first = m.get_alert("d_cpu").unwrap().timestamp;
    // After 2020, before 2200, in milliseconds.
    assert!(first > 1_577_836_800_000);
    assert!(first < 7_258_118_400_000);
    assert_eq!(m.check_metric("d", "cpu", 10_000), AlertEvent::Resolved);
    assert!(m.get_alert("d_cpu").unwrap().timestamp >= first);
    m.create_alert("d", "disk", 1, AlertLevel::Warning, 0, "d_disk", "m".to_string());
    assert!(m.get_alert("d_disk").unwrap().timestamp >= first);
}

#[test]
fn copies_are_snapshots() {
    let mut m = manager();
    m.check_metric_at("d", "cpu", 85_000, 1);
    let mut snapshot = m.get_active_alerts();
    snapshot[0].resolved = true;
    snapshot[0].value = 0;
    let stored = m.get_alert("d_cpu").unwrap();
    assert!(!stored.resolved);
    assert_eq!(stored.value, 85_000);
    let copy = stored.clone();
    assert_eq!(copy.id, stored.id);
    assert_eq!(copy.message, stored.message);
}

#[test]
fn later_setting_for_a_metric_counts() {
    let mut m = AlertManager::new(&AppConfig {
        alert_thresholds: vec![
            ThresholdSetting { metric: "cpu".to_string(), warning: 10_000, critical: 20_000 },
            ThresholdSetting { metric: "cpu".to_string(), warning: 50_000, critical: 60_000 },
        ],
        ..AppConfig::default()
    });
    assert_eq!(m.check_metric_at("d", "cpu", 30_000, 1), AlertEvent::Nothing);
    assert_eq!(m.check_metric_at("d", "cpu", 55_000, 2), AlertEvent::Created);
    assert_eq!(m.get_alert("d_cpu").unwrap().threshold, 50_000);
}

#[test]
fn each_unresolved_alert_is_listed_once() {
    let mut m = manager();
    for value in [50_000, 85_000, 97_000] {
        m.check_metric_at("d", "cpu", value, 1);
    }
    let active = m.get_active_alerts();
    assert_eq!(active.len(), 1);
    assert_eq!(active[0].id, "d_cpu");
    assert_eq!(active[0].level, AlertLevel::Critical);
    assert_eq!(active[0].value, 97_000);
    assert!(!active[0].resolved);

    let mut again = manager();
    for value in [85_000, 60_000, 97_000] {
        again.check_metric_at("d", "cpu", value, 1);
    }
    let active = again.get_active_alerts();
    assert_eq!(active.len(), 1);
    assert_eq!(active[0].id, "d_cpu");
    assert_eq!(active[0].level, AlertLevel::Critical);
    assert!(!active[0].resolved);
    assert_eq!(again.get_alert_history().len(), 1);
}

#[test]
fn alerts_keep_their_slots() {
    let mut m = manager();
    m.check_metric_at("d1", "cpu", 85_000, 1);
    m.check_metric_at("d2", "cpu", 85_000, 2);
    m.check_metric_at("d3", "cpu", 85_000, 3);
    m.check_metric_at("d1", "cpu", 99_000, 4);
    m.acknowledge_alert("d2_cpu").unwrap();
    m.check_metric_at("d2", "cpu", 10_000, 5);
    let active: Vec<String> = m.get_active_alerts().into_iter().map(|a| a.id).collect();
    assert_eq!(active, vec!["d1_cpu", "d3_cpu"]);
    m.check_metric_at("d2", "cpu", 85_000, 6);
    let active: Vec<String> = m.get_active_alerts().into_iter().map(|a| a.id).collect();
    assert_eq!(active, vec!["d1_cpu", "d2_cpu", "d3_cpu"]);
}
