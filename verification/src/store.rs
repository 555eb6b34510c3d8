//! What the database layer decides: which connection of the pool a piece of
//! work gets, and how devices and alerts are laid out in rows.
//!
//! The rows hold texts, whole numbers and flags. Opening connections and
//! running statements is the caller's part.

use crate::alert::Alert;
use crate::clock::{format_rfc3339, parse_rfc3339, rfc3339_millis, rfc3339_text};
use crate::device::{with_services, DeviceStatus, NetworkDevice, ServiceUsage};
use crate::json::{json_text, json_value, null_value, parse_json, to_json_text};
use crate::table::Table;
use std::collections::VecDeque;
use vstd::prelude::*;

verus! {

/// The connection that a piece of work got.
#[derive(Debug, Clone, Copy, PartialEq, Eq, Structural)]
pub enum Lease {
    /// The pooled connection with this handle.
    Pooled(usize),
    /// None of the pool: the caller opens a connection for this work alone
    /// and closes it afterwards.
    Temporary,
}

/// Why a row could not be made.
#[derive(Debug, Clone, Copy, PartialEq, Eq, Structural)]
pub enum StoreError {
    /// The hardware information could not be written as JSON.
    Serialize,
}

/// The idle handles and the lease after a connection was asked for: the last
/// idle handle leaves the pool, and an empty pool gives a temporary lease.
pub open spec fn taken(idle: Seq<usize>) -> (Seq<usize>, Lease) {
    if idle.len() > 0 {
        (idle.drop_last(), Lease::Pooled(idle.last()))
    } else {
        (idle, Lease::Temporary)
    }
}

/// The idle handles after `lease` came back to a pool of `size` connections:
/// a pooled handle of the pool that is not idle becomes idle, and nothing else
/// changes anything.
pub open spec fn given_back(idle: Seq<usize>, lease: Lease, size: nat) -> Seq<usize> {
    match lease {
        Lease::Pooled(h) => if h < size && !idle.contains(h) {
            idle.push(h)
        } else {
            idle
        },
        Lease::Temporary => idle,
    }
}

/// The idle handles are handles of a pool of `size` connections, each once.
pub open spec fn pool_ok(idle: Seq<usize>, size: nat) -> bool {
    idle.no_duplicates() && forall|i: int| 0 <= i < idle.len() ==> #[trigger] idle[i] < size
}

/// A connection that is taken and given back leaves the pool as it was.
pub proof fn lemma_take_then_give_back(idle: Seq<usize>, size: nat)
    requires
        pool_ok(idle, size),
    ensures
        given_back(taken(idle).0, taken(idle).1, size) == idle,
        pool_ok(taken(idle).0, size),
{
    if idle.len() > 0 {
        let rest = idle.drop_last();
        let h = idle.last();
        if rest.contains(h) {
            let j = rest.index_of(h);
            assert(idle[j] == idle[idle.len() - 1]);
        }
        assert(rest.push(h) =~= idle);
    }
}

/// A device as a row of the `devices` table.
#[derive(Debug)]
pub struct DeviceRow {
    pub mac: String,
    pub ip: String,
    pub hostname: String,
    pub os_type: String,
    pub status: String,
    pub monitoring_enabled: bool,
    /// The time of the last report, as RFC 3339 text.
    pub last_seen: Option<String>,
    /// The hardware information, as JSON text.
    pub hardware_info: String,
    pub services: Vec<ServiceUsage>,
    pub username: String,
    pub password: String,
    pub bash_history: String,
    pub connection_errors: u32,
}

/// An alert as a row of the `alerts` table.
#[derive(Debug)]
pub struct AlertRow {
    pub id: String,
    pub device_ip: String,
    pub metric: String,
    pub level: String,
    pub value: i64,
    pub threshold: i64,
    /// The alert's time as RFC 3339 text; `None` for a time that has none.
    pub timestamp: Option<String>,
    pub acknowledged: bool,
    pub resolved: bool,
    pub message: String,
}

/// The text of `t`, if any, as a sequence of characters.
pub open spec fn text_of(t: Option<String>) -> Option<Seq<char>> {
    match t {
        Some(s) => Some(s@),
        None => None,
    }
}

/// `s` lists the services of `t` in slot order.
pub open spec fn lists_services(s: Seq<ServiceUsage>, t: &Table<i64>) -> bool {
    &&& s.len() == t.keys().len()
    &&& forall|i: int|
        0 <= i < s.len() ==> (#[trigger] s[i]).name@ == t.keys()[i] && s[i].usage == t.values()[i]
}

/// `row` is the row of `d`.
pub open spec fn encodes(row: &DeviceRow, d: &NetworkDevice) -> bool {
    &&& row.mac@ == d.mac@
    &&& row.ip@ == d.ip@
    &&& row.hostname@ == d.hostname@
    &&& row.os_type@ == d.os_type@
    &&& row.status@ == d.status.label()
    &&& row.monitoring_enabled == d.monitoring_enabled
    &&& text_of(row.last_seen) == match d.last_update {
        Some(t) => rfc3339_text(t),
        None => None,
    }
    &&& Some(row.hardware_info@) == json_text(d.hardware_info)
    &&& lists_services(row.services@, &d.services)
    &&& row.username@ == d.username@
    &&& row.password@ == d.password@
    &&& row.bash_history@ == d.bash_history@
    &&& row.connection_errors == d.connection_errors
}

/// `d` is the device that `row` describes: its status is the one that the
/// row names, its time the one that the row's text gives, if it gives one, its
/// hardware information what the row's JSON text holds, if that is JSON, and it
/// has neither samples nor failed logins.
pub open spec fn decodes(d: &NetworkDevice, row: &DeviceRow) -> bool {
    &&& d.wf()
    &&& d.mac@ == row.mac@
    &&& d.ip@ == row.ip@
    &&& d.hostname@ == row.hostname@
    &&& d.os_type@ == row.os_type@
    &&& d.status == DeviceStatus::parse(row.status@)
    &&& d.monitoring_enabled == row.monitoring_enabled
    &&& d.last_update == match row.last_seen {
        Some(t) => rfc3339_millis(t@),
        None => None,
    }
    &&& json_value(row.hardware_info@) matches Some(v) ==> d.hardware_info == v
    &&& d.services@ == with_services(Map::empty(), row.services@)
    &&& d.username@ == row.username@
    &&& d.password@ == row.password@
    &&& d.bash_history@ == row.bash_history@
    &&& d.connection_errors == row.connection_errors
    &&& d.metrics_history@ == Map::<Seq<char>, VecDeque<crate::device::MetricSample>>::empty()
    &&& d.failed_logins@ == Seq::<i64>::empty()
}

/// `row` is the row of `a`.
pub open spec fn encodes_alert(row: &AlertRow, a: &Alert) -> bool {
    &&& row.id@ == a.id@
    &&& row.device_ip@ == a.device_ip@
    &&& row.metric@ == a.metric@
    &&& row.level@ == a.level.label()
    &&& row.value == a.value
    &&& row.threshold == a.threshold
    &&& text_of(row.timestamp) == rfc3339_text(a.timestamp)
    &&& row.acknowledged == a.acknowledged
    &&& row.resolved == a.resolved
    &&& row.message@ == a.message@
}

/// The services listed from a table, noted in turn, are the services of the
/// table.
pub proof fn lemma_services_round_trip(s: Seq<ServiceUsage>, t: &Table<i64>)
    requires
        t.wf(),
        lists_services(s, t),
    ensures
        with_services(Map::empty(), s) == t@,
{
    t.lemma_slots();
    lemma_services_prefix(s, t, s.len() as int);
    assert(s.take(s.len() as int) =~= s);
    assert forall|k: Seq<char>| t@.contains_key(k) implies with_services(
        Map::empty(),
        s,
    ).contains_key(k) by {
        let j = t.keys().index_of(k);
        assert(t.keys()[j] == k);
    }
    assert(with_services(Map::empty(), s) =~= t@);
}

/// The first `n` services listed from a table, noted in turn, are what the
/// table holds under the keys of its first `n` slots.
proof fn lemma_services_prefix(s: Seq<ServiceUsage>, t: &Table<i64>, n: int)
    requires
        t.wf(),
        lists_services(s, t),
        0 <= n <= s.len(),
    ensures
        forall|k: Seq<char>| #[trigger]
            with_services(Map::empty(), s.take(n)).contains_key(k) ==> t@.contains_key(k)
                && with_services(Map::empty(), s.take(n))[k] == t@[k],
        forall|i: int|
            0 <= i < n ==> with_services(Map::empty(), s.take(n)).contains_key(
                #[trigger] t.keys()[i],
            ),
    decreases n,
{
    t.lemma_slots();
    if n > 0 {
        lemma_services_prefix(s, t, n - 1);
        let before = with_services(Map::empty(), s.take(n - 1));
        let now = with_services(Map::empty(), s.take(n));
        assert(s.take(n).drop_last() =~= s.take(n - 1));
        assert(s.take(n).last() == s[n - 1]);
        assert(s[n - 1].name@ == t.keys()[n - 1] && s[n - 1].usage == t.values()[n - 1]);
        assert(t@.contains_key(t.keys()[n - 1]));
        assert(t@[t.keys()[n - 1]] == t.values()[n - 1]);
        assert(now == before.insert(s[n - 1].name@, s[n - 1].usage));
        assert forall|i: int| 0 <= i < n implies now.contains_key(#[trigger] t.keys()[i]) by {
            if i < n - 1 {
                assert(before.contains_key(t.keys()[i]));
            }
        }
    } else {
        assert(s.take(0).len() == 0);
    }
}

/// Reading back the row of a device gives a device of the same identity, the
/// same status and the same services, and of the same addresses, names,
/// credentials, monitoring flag and error count.
pub proof fn lemma_row_round_trip(d: &NetworkDevice, row: &DeviceRow, back: &NetworkDevice)
    requires
        d.wf(),
        encodes(row, d),
        decodes(back, row),
    ensures
        back.mac@ == d.mac@,
        back.status == d.status,
        back.services@ == d.services@,
        back.ip@ == d.ip@,
        back.hostname@ == d.hostname@,
        back.os_type@ == d.os_type@,
        back.username@ == d.username@,
        back.password@ == d.password@,
        back.bash_history@ == d.bash_history@,
        back.monitoring_enabled == d.monitoring_enabled,
        back.connection_errors == d.connection_errors,
{
    d.status.lemma_label_round_trip();
    lemma_services_round_trip(row.services@, &d.services);
}

/// Keeps count of the pooled connections to the database at `db_path`: which
/// of them are idle.
pub struct DatabaseManager {
    idle: Vec<usize>,
    db_path: String,
    max_connections: usize,
}

impl DatabaseManager {
    /// The idle handles are handles of the pool, each once.
    pub closed spec fn wf(&self) -> bool {
        pool_ok(self.idle@, self.max_connections as nat)
    }

    /// The handles of the idle connections; the last is the next to be taken.
    pub closed spec fn idle(&self) -> Seq<usize> {
        self.idle@
    }

    /// The number of pooled connections.
    pub closed spec fn size(&self) -> nat {
        self.max_connections as nat
    }

    /// The path of the database.
    pub closed spec fn path(&self) -> Seq<char> {
        self.db_path@
    }

    /// In a well-formed pool the idle handles are handles of the pool, each
    /// once.
    pub proof fn lemma_wf(&self)
        requires
            self.wf(),
        ensures
            pool_ok(self.idle(), self.size()),
    {
    }

    /// A pool of `max_connections` connections to the database at `db_path`,
    /// all idle, with the handles from 0 upwards.
    pub fn new(db_path: &str, max_connections: usize) -> (m: Self)
        ensures
            m.wf(),
            m.path() == db_path@,
            m.size() == max_connections,
            m.idle() == Seq::new(max_connections as nat, |i: int| i as usize),
    {
        let mut idle: Vec<usize> = Vec::new();
        let mut h: usize = 0;
        while h < max_connections
            invariant
                0 <= h <= max_connections,
                idle@ == Seq::new(h as nat, |i: int| i as usize),
            decreases max_connections - h,
        {
            idle.push(h);
            assert(idle@ =~= Seq::new((h + 1) as nat, |i: int| i as usize));
            h = h + 1;
        }
        DatabaseManager { idle, db_path: String::from_str(db_path), max_connections }
    }

    /// The path of the database.
    pub fn db_path(&self) -> (p: &str)
        ensures
            p@ == self.path(),
    {
        self.db_path.as_str()
    }

    /// The number of pooled connections.
    pub fn max_connections(&self) -> (n: usize)
        ensures
            n == self.size(),
    {
        self.max_connections
    }

    /// The number of idle connections.
    pub fn idle_count(&self) -> (n: usize)
        ensures
            n == self.idle().len(),
    {
        self.idle.len()
    }

    /// Gives a connection to a piece of work: the idle one that was given
    /// back last, or a temporary one if none is idle.
    pub fn acquire(&mut self) -> (lease: Lease)
        requires
            old(self).wf(),
        ensures
            final(self).wf(),
            final(self).size() == old(self).size(),
            final(self).path() == old(self).path(),
            (final(self).idle(), lease) == taken(old(self).idle()),
    {
        proof {
            lemma_take_then_give_back(self.idle@, self.max_connections as nat);
        }
        match self.idle.pop() {
            Some(h) => Lease::Pooled(h),
            None => Lease::Temporary,
        }
    }

    /// Takes a connection back. The result says whether it is idle in the
    /// pool now: a temporary one is not, nor is a handle that is not of the
    /// pool or is idle already.
    pub fn release(&mut self, lease: Lease) -> (pooled: bool)
        requires
            old(self).wf(),
        ensures
            final(self).wf(),
            final(self).size() == old(self).size(),
            final(self).path() == old(self).path(),
            final(self).idle() == given_back(old(self).idle(), lease, old(self).size()),
            pooled == (final(self).idle().len() > old(self).idle().len()),
    {
        match lease {
            Lease::Temporary => false,
            Lease::Pooled(h) => {
                if h >= self.max_connections {
                    return false;
                }
                let n = self.idle.len();
                let mut i: usize = 0;
                while i < n
                    invariant
                        n == self.idle@.len(),
                        0 <= i <= n,
                        self.idle@ == old(self).idle@,
                        pool_ok(self.idle@, self.max_connections as nat),
                        h < self.max_connections,
                        lease == Lease::Pooled(h),
                        self.max_connections == old(self).max_connections,
                        self.db_path == old(self).db_path,
                        forall|j: int| 0 <= j < i ==> self.idle@[j] != h,
                    decreases n - i,
                {
                    if self.idle[i] == h {
                        assert(old(self).idle@[i as int] == h);
                        assert(old(self).idle().contains(h));
                        return false;
                    }
                    i = i + 1;
                }
                assert(!self.idle@.contains(h));
                self.idle.push(h);
                true
            },
        }
    }

    /// The row of `device`, for the caller to store. There is none for a
    /// device whose hardware information cannot be written as JSON.
    pub fn save_device(&self, device: &NetworkDevice) -> (r: Result<DeviceRow, StoreError>)
        requires
            device.wf(),
        ensures
            r.is_ok() == json_text(device.hardware_info).is_some(),
            r matches Ok(row) ==> encodes(&row, device),
            r matches Err(e) ==> e == StoreError::Serialize,
    {
        let last_seen = match device.last_update {
            Some(t) => format_rfc3339(t),
            None => None,
        };
        match to_json_text(&device.hardware_info) {
            Ok(hardware) => Ok(device_row(device, hardware, last_seen)),
            Err(_) => Err(StoreError::Serialize),
        }
    }

    /// The devices that `rows` describe, each under its hardware address. Of
    /// two rows with one address the later counts.
    pub fn load_devices(&self, rows: &Vec<DeviceRow>) -> (devices: Table<NetworkDevice>)
        ensures
            devices.wf(),
            forall|k: Seq<char>| #[trigger]
                devices@.contains_key(k) <==> exists|i: int|
                    0 <= i < rows@.len() && (#[trigger] rows@[i]).mac@ == k,
            forall|i: int|
                0 <= i < rows@.len() && (forall|j: int|
                    i < j < rows@.len() ==> (#[trigger] rows@[j]).mac@ != rows@[i].mac@)
                    ==> decodes(&devices@[(#[trigger] rows@[i]).mac@], &rows@[i]),
            forall|k: Seq<char>| #[trigger] devices@.contains_key(k) ==> devices@[k].wf(),
    {
        let mut devices: Table<NetworkDevice> = Table::new();
        let n = rows.len();
        let mut done: usize = 0;
        while done < n
            invariant
                n == rows@.len(),
                0 <= done <= n,
                devices.wf(),
                forall|k: Seq<char>| #[trigger]
                    devices@.contains_key(k) <==> exists|i: int|
                        0 <= i < done && (#[trigger] rows@[i]).mac@ == k,
                forall|i: int|
                    0 <= i < done && (forall|j: int|
                        i < j < done ==> (#[trigger] rows@[j]).mac@ != rows@[i].mac@) ==> decodes(
                        &devices@[(#[trigger] rows@[i]).mac@],
                        &rows@[i],
                    ),
                forall|k: Seq<char>| #[trigger] devices@.contains_key(k) ==> devices@[k].wf(),
            decreases n - done,
        {
            let row = &rows[done];
            let device = device_from_row(row);
            let key = row.mac.clone();
            let ghost before = devices@;
            let _ = devices.insert(key, device);
            proof {
                assert forall|k: Seq<char>| #[trigger] devices@.contains_key(k) implies exists|
                    i: int,
                |
                    0 <= i < done + 1 && (#[trigger] rows@[i]).mac@ == k by {
                    if k == row.mac@ {
                        assert(rows@[done as int].mac@ == k);
                    } else {
                        assert(before.contains_key(k));
                        let i = choose|i: int| 0 <= i < done && (#[trigger] rows@[i]).mac@ == k;
                        assert(0 <= i < done + 1 && rows@[i].mac@ == k);
                    }
                }
                assert forall|k: Seq<char>|
                    (exists|i: int|
                        0 <= i < done + 1 && (#[trigger] rows@[i]).mac@ == k) implies #[trigger] devices@.contains_key(
                    k,
                ) by {
                    let i = choose|i: int| 0 <= i < done + 1 && (#[trigger] rows@[i]).mac@ == k;
                    if i < done {
                        assert(before.contains_key(k));
                    }
                }
                assert forall|i: int|
                    0 <= i < done + 1 && (forall|j: int|
                        i < j < done + 1 ==> (#[trigger] rows@[j]).mac@
                            != rows@[i].mac@) implies decodes(
                    &devices@[(#[trigger] rows@[i]).mac@],
                    &rows@[i],
                ) by {
                    if i < done {
                        assert(rows@[done as int].mac@ != rows@[i].mac@);
                        assert forall|j: int| i < j < done implies (#[trigger] rows@[j]).mac@
                            != rows@[i].mac@ by {}
                    }
                }
            }
            done = done + 1;
        }
        devices
    }

    /// The row of `alert`, for the caller to store.
    pub fn save_alert(&self, alert: &Alert) -> (row: AlertRow)
        ensures
            encodes_alert(&row, alert),
    {
        let timestamp = format_rfc3339(alert.timestamp);
        alert_row(alert, timestamp)
    }
}

/// The services of `t`, in slot order.
pub fn list_services(t: &Table<i64>) -> (s: Vec<ServiceUsage>)
    requires
        t.wf(),
    ensures
        lists_services(s@, t),
{
    let n = t.len();
    let mut s: Vec<ServiceUsage> = Vec::new();
    let mut i: usize = 0;
    while i < n
        invariant
            t.wf(),
            n == t.keys().len(),
            0 <= i <= n,
            s@.len() == i,
            forall|j: int|
                0 <= j < i ==> (#[trigger] s@[j]).name@ == t.keys()[j] && s@[j].usage
                    == t.values()[j],
        decreases n - i,
    {
        let name = t.key_at(i).clone();
        let usage = *t.value_at(i);
        s.push(ServiceUsage { name, usage });
        i = i + 1;
    }
    proof {
        t.lemma_slots();
    }
    s
}

/// The row of `device`, given the JSON text of its hardware information and
/// the text of the time of its last report.
pub fn device_row(device: &NetworkDevice, hardware_info: String, last_seen: Option<String>) -> (row:
    DeviceRow)
    requires
        device.wf(),
    ensures
        row.mac@ == device.mac@,
        row.ip@ == device.ip@,
        row.hostname@ == device.hostname@,
        row.os_type@ == device.os_type@,
        row.status@ == device.status.label(),
        row.monitoring_enabled == device.monitoring_enabled,
        row.last_seen == last_seen,
        row.hardware_info == hardware_info,
        lists_services(row.services@, &device.services),
        row.username@ == device.username@,
        row.password@ == device.password@,
        row.bash_history@ == device.bash_history@,
        row.connection_errors == device.connection_errors,
{
    DeviceRow {
        mac: device.mac.clone(),
        ip: device.ip.clone(),
        hostname: device.hostname.clone(),
        os_type: device.os_type.clone(),
        status: String::from_str(device.status.as_str()),
        monitoring_enabled: device.monitoring_enabled,
        last_seen,
        hardware_info,
        services: list_services(&device.services),
        username: device.username.clone(),
        password: device.password.clone(),
        bash_history: device.bash_history.clone(),
        connection_errors: device.connection_errors,
    }
}

/// The device that `row` describes, given its hardware information and the
/// time of its last report: without samples and failed logins.
pub fn device_of(row: &DeviceRow, hardware_info: serde_json::Value, last_update: Option<i64>) -> (d:
    NetworkDevice)
    ensures
        d.wf(),
        d.mac@ == row.mac@,
        d.ip@ == row.ip@,
        d.hostname@ == row.hostname@,
        d.os_type@ == row.os_type@,
        d.status == DeviceStatus::parse(row.status@),
        d.monitoring_enabled == row.monitoring_enabled,
        d.last_update == last_update,
        d.hardware_info == hardware_info,
        d.services@ == with_services(Map::empty(), row.services@),
        d.username@ == row.username@,
        d.password@ == row.password@,
        d.bash_history@ == row.bash_history@,
        d.connection_errors == row.connection_errors,
        d.metrics_history@ == Map::<Seq<char>, VecDeque<crate::device::MetricSample>>::empty(),
        d.failed_logins@ == Seq::<i64>::empty(),
{
    let mut services: Table<i64> = Table::new();
    let n = row.services.len();
    let mut i: usize = 0;
    assert(row.services@.take(0) =~= Seq::<ServiceUsage>::empty());
    while i < n
        invariant
            n == row.services@.len(),
            0 <= i <= n,
            services.wf(),
            services@ == with_services(Map::empty(), row.services@.take(i as int)),
        decreases n - i,
    {
        let service = &row.services[i];
        let _ = services.insert(service.name.clone(), service.usage);
        proof {
            assert(row.services@.take(i + 1).drop_last() =~= row.services@.take(i as int));
            assert(row.services@.take(i + 1).last() == row.services@[i as int]);
        }
        i = i + 1;
    }
    assert(row.services@.take(n as int) =~= row.services@);
    NetworkDevice {
        ip: row.ip.clone(),
        mac: row.mac.clone(),
        hostname: row.hostname.clone(),
        os_type: row.os_type.clone(),
        status: DeviceStatus::from_label(row.status.as_str()),
        monitoring_enabled: row.monitoring_enabled,
        username: row.username.clone(),
        password: row.password.clone(),
        bash_history: row.bash_history.clone(),
        metrics_history: Table::new(),
        last_update,
        services,
        hardware_info,
        failed_logins: Vec::new(),
        connection_errors: row.connection_errors,
    }
}

/// The device that `row` describes. A time that is no RFC 3339 text counts as
/// no time, and hardware information that is no JSON as null.
pub fn device_from_row(row: &DeviceRow) -> (d: NetworkDevice)
    ensures
        decodes(&d, row),
{
    let last_update = match &row.last_seen {
        Some(t) => parse_rfc3339(t.as_str()),
        None => None,
    };
    let hardware_info = match parse_json(row.hardware_info.as_str()) {
        Ok(v) => v,
        Err(_) => null_value(),
    };
    device_of(row, hardware_info, last_update)
}

/// The row of `alert`, given the text of its time.
pub fn alert_row(alert: &Alert, timestamp: Option<String>) -> (row: AlertRow)
    ensures
        row.id@ == alert.id@,
        row.device_ip@ == alert.device_ip@,
        row.metric@ == alert.metric@,
        row.level@ == alert.level.label(),
        row.value == alert.value,
        row.threshold == alert.threshold,
        row.timestamp == timestamp,
        row.acknowledged == alert.acknowledged,
        row.resolved == alert.resolved,
        row.message@ == alert.message@,
{
    AlertRow {
        id: alert.id.clone(),
        device_ip: alert.device_ip.clone(),
        metric: alert.metric.clone(),
        level: String::from_str(alert.level.as_str()),
        value: alert.value,
        threshold: alert.threshold,
        timestamp,
        acknowledged: alert.acknowledged,
        resolved: alert.resolved,
        message: alert.message.clone(),
    }
}

} // verus!
