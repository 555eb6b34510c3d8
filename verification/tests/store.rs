use device_monitor::alert::{Alert, AlertLevel};
use device_monitor::device::{DeviceStatus, NetworkDevice, ServiceUsage};
use device_monitor::store::{
    alert_row, device_from_row, device_of, device_row, list_services, DatabaseManager, DeviceRow,
    Lease,
};
use serde_json::Value;

fn sample_device() -> NetworkDevice {
    let mut d = NetworkDevice::new("192.168.1.100", "00:11:22:33:44:55", "workstation-01");
    d.os_type = "Ubuntu 22.04".to_string();
    d.status = DeviceStatus::Online;
    d.monitoring_enabled = true;
    d.username = "admin".to_string();
    d.password = "secret".to_string();
    d.bash_history = "ls\ncd /".to_string();
    d.last_update = Some(947_638_923_004);
    d.hardware_info = serde_json::from_str(r#"{"cores":8,"disks":["sda","sdb"]}"#).unwrap();
    d.connection_errors = 3;
    d.set_service("mysql", 12_500);
    d.set_service("chrome", 3_000);
    d.record_sample("cpu", 50_000, 1, 100);
    d.failed_logins.push(17);
    d
}

fn sample_row() -> DeviceRow {
    DeviceRow {
        mac: "m1".to_string(),
        ip: "10.0.0.1".to_string(),
        hostname: "h".to_string(),
        os_type: "os".to_string(),
        status: "Online".to_string(),
        monitoring_enabled: true,
        last_seen: Some("2000-01-12T01:02:03.004+00:00".to_string()),
        hardware_info: r#"{"cores":8}"#.to_string(),
        services: vec![ServiceUsage { name: "mysql".to_string(), usage: 5 }],
        username: "u".to_string(),
        password: "p".to_string(),
        bash_history: "b".to_string(),
        connection_errors: 1,
    }
}

#[test]
fn new_pool_has_every_connection_idle() {
    let db = DatabaseManager::new("network_monitor.db", 5);
    assert_eq!(db.db_path(), "network_monitor.db");
    assert_eq!(db.max_connections(), 5);
    assert_eq!(db.idle_count(), 5);
}

#[test]
fn acquire_takes_the_last_idle_connection() {
    let mut db = DatabaseManager::new("db", 3);
    assert_eq!(db.acquire(), Lease::Pooled(2));
    assert_eq!(db.acquire(), Lease::Pooled(1));
    assert_eq!(db.idle_count(), 1);
    assert!(db.release(Lease::Pooled(2)));
    assert_eq!(db.idle_count(), 2);
    assert_eq!(db.acquire(), Lease::Pooled(2));
}

#[test]
fn exhausted_pool_gives_temporary_connections() {
    let mut db = DatabaseManager::new("db", 2);
    assert_eq!(db.acquire(), Lease::Pooled(1));
    assert_eq!(db.acquire(), Lease::Pooled(0));
    assert_eq!(db.acquire(), Lease::Temporary);
    assert_eq!(db.acquire(), Lease::Temporary);
    assert_eq!(db.idle_count(), 0);
    assert!(!db.release(Lease::Temporary));
    assert_eq!(db.idle_count(), 0);
    assert!(db.release(Lease::Pooled(0)));
    assert_eq!(db.acquire(), Lease::Pooled(0));
    let mut none = DatabaseManager::new("db", 0);
    assert_eq!(none.acquire(), Lease::Temporary);
}

#[test]
fn release_ignores_what_is_not_out() {
    let mut db = DatabaseManager::new("db", 2);
    assert!(!db.release(Lease::Pooled(0)));
    assert!(!db.release(Lease::Pooled(7)));
    assert_eq!(db.idle_count(), 2);
    let lease = db.acquire();
    assert!(db.release(lease));
    assert!(!db.release(lease));
    assert_eq!(db.idle_count(), 2);
}

#[test]
fn save_device_lays_out_the_row() {
    let db = DatabaseManager::new("db", 1);
    let row = db.save_device(&sample_device()).unwrap();
    assert_eq!(row.mac, "00:11:22:33:44:55");
    assert_eq!(row.ip, "192.168.1.100");
    assert_eq!(row.hostname, "workstation-01");
    assert_eq!(row.os_type, "Ubuntu 22.04");
    assert_eq!(row.status, "Online");
    assert!(row.monitoring_enabled);
    assert_eq!(row.last_seen.as_deref(), Some("2000-01-12T01:02:03.004+00:00"));
    assert_eq!(row.hardware_info, r#"{"cores":8,"disks":["sda","sdb"]}"#);
    assert_eq!(row.services.len(), 2);
    assert_eq!(row.services[0].name, "mysql");
    assert_eq!(row.services[0].usage, 12_500);
    assert_eq!(row.services[1].name, "chrome");
    assert_eq!(row.services[1].usage, 3_000);
    assert_eq!(row.username, "admin");
    assert_eq!(row.password, "secret");
    assert_eq!(row.bash_history, "ls\ncd /");
    assert_eq!(row.connection_errors, 3);
}

#[test]
fn save_device_without_a_report_has_no_time() {
    let db = DatabaseManager::new("db", 1);
    let d = NetworkDevice::new("ip", "mac", "host");
    let row = db.save_device(&d).unwrap();
    assert_eq!(row.last_seen, None);
    assert_eq!(row.hardware_info, "null");
    assert_eq!(row.status, "Unknown");
    assert!(row.services.is_empty());
    let mut far = NetworkDevice::new("ip", "mac", "host");
    far.last_update = Some(i64::MAX);
    assert_eq!(db.save_device(&far).unwrap().last_seen, None);
}

#[test]
fn device_from_row_reads_the_texts() {
    let d = device_from_row(&sample_row());
    assert_eq!(d.mac, "m1");
    assert_eq!(d.ip, "10.0.0.1");
    assert_eq!(d.status, DeviceStatus::Online);
    assert!(d.monitoring_enabled);
    assert_eq!(d.last_update, Some(947_638_923_004));
    assert_eq!(d.hardware_info, serde_json::from_str::<Value>(r#"{"cores":8}"#).unwrap());
    assert_eq!(d.services.get("mysql"), Some(&5));
    assert_eq!(d.connection_errors, 1);
    assert_eq!(d.metrics_history.len(), 0);
    assert!(d.failed_logins.is_empty());
}

#[test]
fn device_from_row_reads_other_offsets_as_utc() {
    let mut row = sample_row();
    row.last_seen = Some("2000-01-12T03:02:03.004+02:00".to_string());
    assert_eq!(device_from_row(&row).last_update, Some(947_638_923_004));
    row.last_seen = Some("1970-01-01T00:00:00Z".to_string());
    assert_eq!(device_from_row(&row).last_update, Some(0));
}

#[test]
fn device_from_row_falls_back_on_bad_texts() {
    let mut row = sample_row();
    row.last_seen = Some("yesterday".to_string());
    row.hardware_info = "{not json".to_string();
    row.status = "Sleeping".to_string();
    let d = device_from_row(&row);
    assert_eq!(d.last_update, None);
    assert_eq!(d.hardware_info, Value::Null);
    assert_eq!(d.status, DeviceStatus::Unknown);
    row.last_seen = None;
    assert_eq!(device_from_row(&row).last_update, None);
}

#[test]
fn save_then_load_reproduces_the_device() {
    let db = DatabaseManager::new("db", 1);
    let d = sample_device();
    let row = db.save_device(&d).unwrap();
    let loaded = db.load_devices(&vec![row]);
    assert_eq!(loaded.len(), 1);
    let back = loaded.get("00:11:22:33:44:55").unwrap();
    assert_eq!(back.mac, d.mac);
    assert_eq!(back.ip, d.ip);
    assert_eq!(back.hostname, d.hostname);
    assert_eq!(back.os_type, d.os_type);
    assert_eq!(back.status, d.status);
    assert_eq!(back.monitoring_enabled, d.monitoring_enabled);
    assert_eq!(back.username, d.username);
    assert_eq!(back.password, d.password);
    assert_eq!(back.bash_history, d.bash_history);
    assert_eq!(back.last_update, d.last_update);
    assert_eq!(back.hardware_info, d.hardware_info);
    assert_eq!(back.connection_errors, d.connection_errors);
    assert_eq!(back.services.len(), 2);
    assert_eq!(back.services.get("mysql"), Some(&12_500));
    assert_eq!(back.services.get("chrome"), Some(&3_000));
    // Samples and failed logins are not part of the row.
    assert_eq!(back.metrics_history.len(), 0);
    assert!(back.failed_logins.is_empty());
}

#[test]
fn every_status_survives_the_round_trip() {
    let db = DatabaseManager::new("db", 1);
    for status in [DeviceStatus::Online, DeviceStatus::ConnectionFailed, DeviceStatus::Unknown] {
        let mut d = sample_device();
        d.status = status;
        let row = db.save_device(&d).unwrap();
        assert_eq!(device_from_row(&row).status, status);
    }
}

#[test]
fn load_devices_keys_by_hardware_address() {
    let db = DatabaseManager::new("db", 1);
    let mut first = sample_row();
    first.hostname = "first".to_string();
    let mut other = sample_row();
    other.mac = "m2".to_string();
    let mut again = sample_row();
    again.hostname = "again".to_string();
    let loaded = db.load_devices(&vec![first, other, again]);
    assert_eq!(loaded.len(), 2);
    assert_eq!(loaded.get("m1").unwrap().hostname, "again");
    assert_eq!(loaded.get("m2").unwrap().hostname, "h");
    assert!(loaded.get("m3").is_none());
    assert_eq!(db.load_devices(&Vec::new()).len(), 0);
}

#[test]
fn row_functions_take_the_texts_as_given() {
    let d = sample_device();
    let row = device_row(&d, "HW".to_string(), Some("T".to_string()));
    assert_eq!(row.hardware_info, "HW");
    assert_eq!(row.last_seen.as_deref(), Some("T"));
    assert_eq!(row.mac, d.mac);
    let listed = list_services(&d.services);
    assert_eq!(listed.len(), 2);
    let back = device_of(&row, Value::from(7), Some(99));
    assert_eq!(back.hardware_info, Value::from(7));
    assert_eq!(back.last_update, Some(99));
    assert_eq!(back.services.get("chrome"), Some(&3_000));
}

#[test]
fn save_alert_lays_out_the_row() {
    let db = DatabaseManager::new("db", 1);
    let alert = Alert {
        id: "10.0.0.1_cpu".to_string(),
        device_ip: "10.0.0.1".to_string(),
        metric: "cpu".to_string(),
        level: AlertLevel::Critical,
        value: 97_000,
        threshold: 95_000,
        timestamp: 1_000,
        acknowledged: true,
        resolved: false,
        message: "cpu usage critically high: 97.0%".to_string(),
    };
    let row = db.save_alert(&alert);
    assert_eq!(row.id, "10.0.0.1_cpu");
    assert_eq!(row.device_ip, "10.0.0.1");
    assert_eq!(row.metric, "cpu");
    assert_eq!(row.level, "critical");
    assert_eq!(row.value, 97_000);
    assert_eq!(row.threshold, 95_000);
    assert_eq!(row.timestamp.as_deref(), Some("1970-01-01T00:00:01+00:00"));
    assert!(row.acknowledged);
    assert!(!row.resolved);
    assert_eq!(row.message, "cpu usage critically high: 97.0%");
    let plain = alert_row(&alert, None);
    assert_eq!(plain.timestamp, None);
    assert_eq!(plain.level, "critical");
}
