use device_monitor::alert::{AlertEvent, AlertLevel};
use device_monitor::config::AppConfig;
use device_monitor::device::{
    Candidate, DeviceStatus, MetricSample, NetworkDevice, ServiceUsage, DEFAULT_HISTORY_SIZE,
};
use device_monitor::manager::AlertManager;
use device_monitor::scheduler::{
    changed_metrics, MetricEvents, MetricsReport, MonitoringThread, PollAction, PollError,
    PollEvent, PollState, TASK_TIMEOUT_SECS,
};

fn online(ip: &str, mac: &str) -> NetworkDevice {
    let mut d = NetworkDevice::new(ip, mac, "host");
    d.status = DeviceStatus::Online;
    d.monitoring_enabled = true;
    d
}

fn report(cpu: Option<i64>, memory: Option<i64>, disk: Option<i64>) -> MetricsReport {
    MetricsReport { cpu, memory, disk, top_services: Vec::new() }
}

fn samples(d: &NetworkDevice, metric: &str) -> Vec<MetricSample> {
    match d.metrics_history.get(metric) {
        Some(h) => h.iter().copied().collect(),
        None => Vec::new(),
    }
}

#[test]
fn new_scheduler_is_stopped() {
    let t = MonitoringThread::new(5, 10);
    assert!(!t.is_running());
    assert_eq!(t.interval(), 5);
    assert_eq!(t.max_concurrent_monitors(), 10);
    assert_eq!(t.task_timeout(), 30);
    assert_eq!(TASK_TIMEOUT_SECS, 30);
    assert_eq!(DEFAULT_HISTORY_SIZE, 100);
}

#[test]
fn scheduler_from_config_takes_its_numbers() {
    let t = MonitoringThread::from_config(&AppConfig::default());
    assert!(!t.is_running());
    assert_eq!(t.interval(), 5);
    assert_eq!(t.max_concurrent_monitors(), 10);
}

#[test]
fn start_twice_launches_one_loop() {
    let mut t = MonitoringThread::new(5, 10);
    assert!(t.start());
    assert!(t.is_running());
    assert!(!t.start());
    assert!(t.is_running());
}

#[test]
fn stop_then_start_resumes() {
    let mut t = MonitoringThread::new(5, 10);
    assert!(!t.stop());
    assert!(t.start());
    assert!(t.stop());
    assert!(!t.is_running());
    assert!(!t.stop());
    assert!(t.start());
    assert!(t.is_running());
}

#[test]
fn sleep_is_the_rest_of_the_interval() {
    let t = MonitoringThread::new(5, 10);
    assert_eq!(t.sleep_after(0), 5_000);
    assert_eq!(t.sleep_after(1_200), 3_800);
    assert_eq!(t.sleep_after(4_999), 1);
    assert_eq!(t.sleep_after(5_000), 0);
    assert_eq!(t.sleep_after(60_000), 0);
    assert_eq!(t.sleep_after(u64::MAX), 0);
    assert_eq!(MonitoringThread::new(0, 1).sleep_after(0), 0);
    assert_eq!(MonitoringThread::new(u64::MAX, 1).sleep_after(0), u64::MAX);
    assert_eq!(MonitoringThread::new(u64::MAX / 1000, 1).sleep_after(15), u64::MAX / 1000 * 1000 - 15);
}

#[test]
fn selection_takes_only_enabled_online_devices() {
    let mut disabled = online("10.0.0.2", "m2");
    disabled.monitoring_enabled = false;
    let mut failed = online("10.0.0.3", "m3");
    failed.status = DeviceStatus::ConnectionFailed;
    let devices = vec![
        online("10.0.0.1", "m1"),
        disabled,
        failed,
        NetworkDevice::new("10.0.0.4", "m4", "h"),
        online("10.0.0.5", "m5"),
    ];
    let candidates: Vec<Candidate> = devices.iter().map(|d| d.candidate()).collect();
    let t = MonitoringThread::new(5, 10);
    assert_eq!(t.select_devices(&candidates), vec!["m1".to_string(), "m5".to_string()]);
}

#[test]
fn candidate_carries_what_selection_reads() {
    let d = online("10.0.0.1", "m1");
    let c = d.candidate();
    assert_eq!(c.key, "m1");
    assert!(c.monitoring_enabled);
    assert_eq!(c.status, DeviceStatus::Online);
    let unknown = NetworkDevice::default().candidate();
    assert_eq!(unknown.key, "");
    assert!(!unknown.monitoring_enabled);
    assert_eq!(unknown.status, DeviceStatus::Unknown);
}

#[test]
fn selection_is_capped_per_cycle() {
    let candidates: Vec<Candidate> =
        (0..5).map(|i| online("ip", &format!("m{}", i)).candidate()).collect();
    assert_eq!(
        MonitoringThread::new(5, 3).select_devices(&candidates),
        vec!["m0".to_string(), "m1".to_string(), "m2".to_string()]
    );
    assert!(MonitoringThread::new(5, 0).select_devices(&candidates).is_empty());
    assert_eq!(MonitoringThread::new(5, 50).select_devices(&candidates).len(), 5);
    assert!(MonitoringThread::new(5, 3).select_devices(&Vec::new()).is_empty());
}

#[test]
fn empty_cycle_rests_the_whole_interval() {
    let t = MonitoringThread::new(5, 10);
    assert_eq!(t.cycle_rest(0, 0), 5_000);
    assert_eq!(t.cycle_rest(0, 4_000), 5_000);
    assert_eq!(t.cycle_rest(0, 60_000), 5_000);
    assert_eq!(t.cycle_rest(3, 0), 5_000);
    assert_eq!(t.cycle_rest(3, 4_000), 1_000);
    assert_eq!(t.cycle_rest(1, 5_000), 0);
    assert_eq!(t.cycle_rest(1, 60_000), 0);
    assert_eq!(MonitoringThread::new(u64::MAX, 1).cycle_rest(0, 7), u64::MAX);
    assert_eq!(MonitoringThread::new(0, 1).cycle_rest(0, 7), 0);
}

#[test]
fn changed_metrics_names_what_is_to_be_stored() {
    let none = MetricEvents {
        cpu: AlertEvent::Nothing,
        memory: AlertEvent::Nothing,
        disk: AlertEvent::Nothing,
    };
    assert!(changed_metrics(&none).is_empty());
    let all = MetricEvents {
        cpu: AlertEvent::Created,
        memory: AlertEvent::Updated,
        disk: AlertEvent::Resolved,
    };
    assert_eq!(changed_metrics(&all), vec!["cpu", "memory", "disk"]);
    let some = MetricEvents {
        cpu: AlertEvent::Nothing,
        memory: AlertEvent::Resolved,
        disk: AlertEvent::Nothing,
    };
    assert_eq!(changed_metrics(&some), vec!["memory"]);
    let ends = MetricEvents {
        cpu: AlertEvent::Updated,
        memory: AlertEvent::Nothing,
        disk: AlertEvent::Created,
    };
    assert_eq!(changed_metrics(&ends), vec!["cpu", "disk"]);
}

#[test]
fn disabled_device_is_never_connected() {
    let t = MonitoringThread::new(5, 10);
    let mut alerts = AlertManager::new(&AppConfig::default());
    let mut d = online("10.0.0.1", "m1");
    d.monitoring_enabled = false;
    let next = t.poll_step(PollState::Ready, PollEvent::Begin, &mut d, &mut alerts, 1);
    assert_eq!(next, (PollState::Finished, PollAction::Skip));
    let mut offline = online("10.0.0.1", "m1");
    offline.status = DeviceStatus::Unknown;
    let next = t.poll_step(PollState::Ready, PollEvent::Begin, &mut offline, &mut alerts, 1);
    assert_eq!(next, (PollState::Finished, PollAction::Skip));
}

#[test]
fn full_poll_goes_connect_fetch_persist() {
    let t = MonitoringThread::new(5, 10);
    let mut alerts = AlertManager::new(&AppConfig::default());
    let mut d = online("10.0.0.1", "m1");
    d.connection_errors = 2;

    let (state, action) = t.poll_step(PollState::Ready, PollEvent::Begin, &mut d, &mut alerts, 1);
    assert_eq!((state, action), (PollState::Connecting, PollAction::Connect));
    assert_eq!(d.connection_errors, 2);

    let (state, action) = t.poll_step(state, PollEvent::Connected, &mut d, &mut alerts, 2);
    assert_eq!((state, action), (PollState::Fetching, PollAction::Fetch));
    assert_eq!(d.connection_errors, 0);
    assert_eq!(d.status, DeviceStatus::Online);

    let mut r = report(Some(85_000), Some(40_000), Some(99_000));
    r.top_services = vec![
        ServiceUsage { name: "mysql".to_string(), usage: 12_500 },
        ServiceUsage { name: "chrome".to_string(), usage: 3_000 },
        ServiceUsage { name: "mysql".to_string(), usage: 14_000 },
    ];
    let (state, action) = t.poll_step(state, PollEvent::Metrics(r), &mut d, &mut alerts, 3);
    assert_eq!(state, PollState::Finished);
    assert_eq!(
        action,
        PollAction::Persist(MetricEvents {
            cpu: AlertEvent::Created,
            memory: AlertEvent::Nothing,
            disk: AlertEvent::Created,
        })
    );
    assert_eq!(d.last_update, Some(3));
    assert_eq!(samples(&d, "cpu"), vec![MetricSample { value: 85_000, timestamp: 3 }]);
    assert_eq!(samples(&d, "memory"), vec![MetricSample { value: 40_000, timestamp: 3 }]);
    assert_eq!(samples(&d, "disk"), vec![MetricSample { value: 99_000, timestamp: 3 }]);
    assert_eq!(d.services.get("mysql"), Some(&14_000));
    assert_eq!(d.services.get("chrome"), Some(&3_000));
    assert_eq!(d.services.len(), 2);
    assert_eq!(alerts.get_alert("10.0.0.1_cpu").unwrap().level, AlertLevel::Warning);
    assert_eq!(alerts.get_alert("10.0.0.1_disk").unwrap().level, AlertLevel::Critical);
    assert!(alerts.get_alert("10.0.0.1_memory").is_none());
    assert_eq!(alerts.get_active_alerts().len(), 2);
}

#[test]
fn failed_connection_counts_and_ends_the_poll() {
    let t = MonitoringThread::new(5, 10);
    let mut alerts = AlertManager::new(&AppConfig::default());
    let mut d = online("10.0.0.1", "m1");
    let next = t.poll_step(PollState::Connecting, PollEvent::ConnectFailed, &mut d, &mut alerts, 1);
    assert_eq!(next, (PollState::Finished, PollAction::Abort(PollError::ConnectionFailed)));
    assert_eq!(d.connection_errors, 1);
    assert_eq!(d.status, DeviceStatus::ConnectionFailed);
    assert!(!d.is_eligible());
    assert_eq!(d.last_update, None);
    d.note_connect(false);
    assert_eq!(d.connection_errors, 2);
    d.connection_errors = u32::MAX;
    d.note_connect(false);
    assert_eq!(d.connection_errors, u32::MAX);
    d.note_connect(true);
    assert_eq!(d.connection_errors, 0);
    assert!(d.is_eligible());
}

#[test]
fn report_without_a_reading_changes_nothing() {
    let t = MonitoringThread::new(5, 10);
    let mut alerts = AlertManager::new(&AppConfig::default());
    let mut d = online("10.0.0.1", "m1");
    let cases = [
        (report(None, Some(1), Some(1)), PollError::InvalidCpu),
        (report(None, None, None), PollError::InvalidCpu),
        (report(Some(99_000), None, Some(1)), PollError::InvalidMemory),
        (report(Some(99_000), None, None), PollError::InvalidMemory),
        (report(Some(99_000), Some(99_000), None), PollError::InvalidDisk),
    ];
    for (r, error) in cases {
        let next = t.poll_step(PollState::Fetching, PollEvent::Metrics(r), &mut d, &mut alerts, 9);
        assert_eq!(next, (PollState::Finished, PollAction::Abort(error)));
        assert_eq!(d.last_update, None);
        assert_eq!(d.metrics_history.len(), 0);
        assert!(alerts.get_active_alerts().is_empty());
    }
}

#[test]
fn failures_and_timeouts_end_the_poll() {
    let t = MonitoringThread::new(5, 10);
    let mut alerts = AlertManager::new(&AppConfig::default());
    let mut d = online("10.0.0.1", "m1");
    assert_eq!(
        t.poll_step(PollState::Fetching, PollEvent::FetchFailed, &mut d, &mut alerts, 1),
        (PollState::Finished, PollAction::Abort(PollError::FetchFailed))
    );
    for state in [PollState::Ready, PollState::Connecting, PollState::Fetching, PollState::Finished] {
        assert_eq!(
            t.poll_step(state, PollEvent::TimedOut, &mut d, &mut alerts, 1),
            (PollState::Finished, PollAction::Abort(PollError::TimedOut))
        );
    }
    assert_eq!(d.connection_errors, 0);
    assert_eq!(d.status, DeviceStatus::Online);
}

#[test]
fn answers_out_of_turn_end_the_poll() {
    let t = MonitoringThread::new(5, 10);
    let mut alerts = AlertManager::new(&AppConfig::default());
    let mut d = online("10.0.0.1", "m1");
    let out_of_turn = (PollState::Finished, PollAction::Abort(PollError::OutOfTurn));
    assert_eq!(t.poll_step(PollState::Ready, PollEvent::Connected, &mut d, &mut alerts, 1), out_of_turn);
    assert_eq!(t.poll_step(PollState::Fetching, PollEvent::ConnectFailed, &mut d, &mut alerts, 1), out_of_turn);
    assert_eq!(t.poll_step(PollState::Connecting, PollEvent::FetchFailed, &mut d, &mut alerts, 1), out_of_turn);
    assert_eq!(t.poll_step(PollState::Finished, PollEvent::Begin, &mut d, &mut alerts, 1), out_of_turn);
    assert_eq!(
        t.poll_step(
            PollState::Ready,
            PollEvent::Metrics(report(Some(99_000), Some(99_000), Some(99_000))),
            &mut d,
            &mut alerts,
            1
        ),
        out_of_turn
    );
    assert_eq!(d.connection_errors, 0);
    assert_eq!(d.metrics_history.len(), 0);
    assert!(alerts.get_active_alerts().is_empty());
}

#[test]
fn history_keeps_the_latest_samples() {
    let mut d = online("10.0.0.1", "m1");
    for i in 0..5 {
        d.record_sample("cpu", i * 10, i, 3);
    }
    assert_eq!(
        samples(&d, "cpu"),
        vec![
            MetricSample { value: 20, timestamp: 2 },
            MetricSample { value: 30, timestamp: 3 },
            MetricSample { value: 40, timestamp: 4 },
        ]
    );
    d.record_sample("disk", 7, 9, 3);
    assert_eq!(samples(&d, "cpu").len(), 3);
    assert_eq!(samples(&d, "disk"), vec![MetricSample { value: 7, timestamp: 9 }]);
    d.record_sample("none", 7, 9, 0);
    assert!(samples(&d, "none").is_empty());
}

#[test]
fn poll_history_is_bounded_by_the_configured_size() {
    let t = MonitoringThread::from_config(&AppConfig { max_history_size: 2, ..AppConfig::default() });
    let mut alerts = AlertManager::new(&AppConfig::default());
    let mut d = online("10.0.0.1", "m1");
    for now in 0..4 {
        t.apply_metrics(&mut d, &mut alerts, 1_000 + now, 2_000, 3_000, &Vec::new(), now);
    }
    assert_eq!(
        samples(&d, "cpu"),
        vec![
            MetricSample { value: 1_002, timestamp: 2 },
            MetricSample { value: 1_003, timestamp: 3 },
        ]
    );
    assert_eq!(d.last_update, Some(3));
}

#[test]
fn status_labels_read_back() {
    for status in [DeviceStatus::Online, DeviceStatus::ConnectionFailed, DeviceStatus::Unknown] {
        assert_eq!(DeviceStatus::from_label(status.as_str()), status);
    }
    assert_eq!(DeviceStatus::Online.as_str(), "Online");
    assert_eq!(DeviceStatus::ConnectionFailed.as_str(), "Connection Failed");
    assert_eq!(DeviceStatus::from_label(""), DeviceStatus::Unknown);
    assert_eq!(DeviceStatus::from_label("online"), DeviceStatus::Unknown);
}
