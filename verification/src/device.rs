//! A monitored device: who it is, how it is doing, and what it reported.

use crate::json::null_value;
use crate::table::Table;
use serde_json::Value;
use std::collections::VecDeque;
use vstd::prelude::*;

verus! {

/// Whether a device could be reached when it was last tried.
#[derive(Debug, Clone, Copy, PartialEq, Eq, Structural)]
pub enum DeviceStatus {
    Online,
    ConnectionFailed,
    Unknown,
}

impl DeviceStatus {
    /// The status as it is written in a device's record.
    pub open spec fn label(self) -> Seq<char> {
        match self {
            DeviceStatus::Online => "Online"@,
            DeviceStatus::ConnectionFailed => "Connection Failed"@,
            DeviceStatus::Unknown => "Unknown"@,
        }
    }

    /// The status that `text` names; `Unknown` for any text that names none.
    pub open spec fn parse(text: Seq<char>) -> DeviceStatus {
        if text == "Online"@ {
            DeviceStatus::Online
        } else if text == "Connection Failed"@ {
            DeviceStatus::ConnectionFailed
        } else {
            DeviceStatus::Unknown
        }
    }

    /// Reading back what was written gives the status that was written.
    pub proof fn lemma_label_round_trip(self)
        ensures
            Self::parse(self.label()) == self,
    {
        reveal_strlit("Online");
        reveal_strlit("Connection Failed");
        reveal_strlit("Unknown");
        assert("Online"@.len() != "Connection Failed"@.len());
        assert("Online"@.len() != "Unknown"@.len());
        assert("Connection Failed"@.len() != "Unknown"@.len());
    }

    /// The status as it is written in a device's record.
    pub fn as_str(&self) -> (s: &'static str)
        ensures
            s@ == self.label(),
    {
        match self {
            DeviceStatus::Online => "Online",
            DeviceStatus::ConnectionFailed => "Connection Failed",
            DeviceStatus::Unknown => "Unknown",
        }
    }

    /// The status that `text` names; `Unknown` for any text that names none.
    pub fn from_label(text: &str) -> (s: DeviceStatus)
        ensures
            s == Self::parse(text@),
    {
        let given = String::from_str(text);
        if given == String::from_str("Online") {
            DeviceStatus::Online
        } else if given == String::from_str("Connection Failed") {
            DeviceStatus::ConnectionFailed
        } else {
            DeviceStatus::Unknown
        }
    }
}

/// The number of samples that a device keeps per metric unless told otherwise.
pub const DEFAULT_HISTORY_SIZE: usize = 100;

/// One reading of a metric, in thousandths, and when it was taken, in
/// milliseconds.
#[derive(Debug, Clone, Copy, PartialEq, Eq, Structural)]
pub struct MetricSample {
    pub value: i64,
    pub timestamp: i64,
}

/// The history `h` after `sample` arrived with room for `capacity` samples:
/// `sample` stands last, and the oldest has left if the history was full.
pub open spec fn appended(h: Seq<MetricSample>, sample: MetricSample, capacity: nat) -> Seq<
    MetricSample,
> {
    if h.len() + 1 > capacity {
        h.push(sample).drop_first()
    } else {
        h.push(sample)
    }
}

/// The processor usage of one service, in thousandths.
#[derive(Debug)]
pub struct ServiceUsage {
    pub name: String,
    pub usage: i64,
}

/// The services `m` after the usages `s` were noted in turn.
pub open spec fn with_services(m: Map<Seq<char>, i64>, s: Seq<ServiceUsage>) -> Map<Seq<char>, i64>
    decreases s.len(),
{
    if s.len() == 0 {
        m
    } else {
        with_services(m, s.drop_last()).insert(s.last().name@, s.last().usage)
    }
}

/// What the selection needs to know of a device: the key under which its
/// owner keeps it, and whether it may be polled.
#[derive(Debug)]
pub struct Candidate {
    pub key: String,
    pub monitoring_enabled: bool,
    pub status: DeviceStatus,
}

impl Candidate {
    /// The device may be polled: monitoring is enabled and the device is
    /// online.
    pub open spec fn eligible(&self) -> bool {
        self.monitoring_enabled && self.status == DeviceStatus::Online
    }
}

/// A device on the network.
pub struct NetworkDevice {
    pub ip: String,
    /// The hardware address: the device's identity.
    pub mac: String,
    pub hostname: String,
    pub os_type: String,
    pub status: DeviceStatus,
    pub monitoring_enabled: bool,
    pub username: String,
    pub password: String,
    pub bash_history: String,
    /// The latest samples of each metric, oldest first.
    pub metrics_history: Table<VecDeque<MetricSample>>,
    /// When the device last reported, in milliseconds.
    pub last_update: Option<i64>,
    /// The processor usage of each service, in thousandths.
    pub services: Table<i64>,
    pub hardware_info: Value,
    /// When each failed login happened, in milliseconds.
    pub failed_logins: Vec<i64>,
    /// The failed connection attempts since the last one that worked.
    pub connection_errors: u32,
}

impl NetworkDevice {
    /// The device's tables are in order.
    pub open spec fn wf(&self) -> bool {
        self.metrics_history.wf() && self.services.wf()
    }

    /// The samples kept for `metric`, oldest first; none if none are kept.
    pub open spec fn history(&self, metric: Seq<char>) -> Seq<MetricSample> {
        if self.metrics_history@.contains_key(metric) {
            self.metrics_history@[metric]@
        } else {
            Seq::empty()
        }
    }

    /// The device may be polled: monitoring is enabled and the device is
    /// online.
    pub open spec fn eligible(&self) -> bool {
        self.monitoring_enabled && self.status == DeviceStatus::Online
    }

    /// `other` is this device but for status, error count, time of the last
    /// report, samples and services.
    pub open spec fn same_settings(&self, other: &NetworkDevice) -> bool {
        &&& self.ip == other.ip
        &&& self.mac == other.mac
        &&& self.hostname == other.hostname
        &&& self.os_type == other.os_type
        &&& self.monitoring_enabled == other.monitoring_enabled
        &&& self.username == other.username
        &&& self.password == other.password
        &&& self.bash_history == other.bash_history
        &&& self.hardware_info == other.hardware_info
        &&& self.failed_logins == other.failed_logins
    }

    /// The device after a connection attempt: one that worked clears the
    /// error count and puts the device online; one that failed counts as one
    /// more error, up to the largest count there is, and marks the device.
    pub open spec fn after_connect(self, connected: bool) -> NetworkDevice {
        NetworkDevice {
            status: if connected {
                DeviceStatus::Online
            } else {
                DeviceStatus::ConnectionFailed
            },
            connection_errors: if connected {
                0
            } else if self.connection_errors < u32::MAX {
                (self.connection_errors + 1) as u32
            } else {
                u32::MAX
            },
            ..self
        }
    }

    /// A device with the given addresses and name: of unknown status, not
    /// monitored, and with nothing else known of it.
    pub fn new(ip: &str, mac: &str, hostname: &str) -> (d: Self)
        ensures
            d.wf(),
            d.ip@ == ip@,
            d.mac@ == mac@,
            d.hostname@ == hostname@,
            d.os_type@ == Seq::<char>::empty(),
            d.status == DeviceStatus::Unknown,
            !d.monitoring_enabled,
            d.username@ == Seq::<char>::empty(),
            d.password@ == Seq::<char>::empty(),
            d.bash_history@ == Seq::<char>::empty(),
            d.metrics_history@ == Map::<Seq<char>, VecDeque<MetricSample>>::empty(),
            d.last_update == None::<i64>,
            d.services@ == Map::<Seq<char>, i64>::empty(),
            d.failed_logins@ == Seq::<i64>::empty(),
            d.connection_errors == 0,
    {
        NetworkDevice {
            ip: String::from_str(ip),
            mac: String::from_str(mac),
            hostname: String::from_str(hostname),
            os_type: String::new(),
            status: DeviceStatus::Unknown,
            monitoring_enabled: false,
            username: String::new(),
            password: String::new(),
            bash_history: String::new(),
            metrics_history: Table::new(),
            last_update: None,
            services: Table::new(),
            hardware_info: null_value(),
            failed_logins: Vec::new(),
            connection_errors: 0,
        }
    }

    /// What the selection needs to know of the device, with the device's
    /// hardware address as its key.
    pub fn candidate(&self) -> (c: Candidate)
        ensures
            c.key@ == self.mac@,
            c.monitoring_enabled == self.monitoring_enabled,
            c.status == self.status,
            c.eligible() == self.eligible(),
    {
        Candidate {
            key: self.mac.clone(),
            monitoring_enabled: self.monitoring_enabled,
            status: self.status,
        }
    }

    /// Whether the device may be polled.
    pub fn is_eligible(&self) -> (e: bool)
        ensures
            e == self.eligible(),
    {
        self.monitoring_enabled && self.status == DeviceStatus::Online
    }

    /// Takes the outcome of a connection attempt, as `after_connect` says.
    pub fn note_connect(&mut self, connected: bool)
        ensures
            *final(self) == old(self).after_connect(connected),
    {
        if connected {
            self.connection_errors = 0;
            self.status = DeviceStatus::Online;
        } else {
            if self.connection_errors < u32::MAX {
                self.connection_errors = self.connection_errors + 1;
            }
            self.status = DeviceStatus::ConnectionFailed;
        }
    }

    /// Takes a sample of `metric` into its history, which keeps at most
    /// `capacity` samples: the oldest leaves a full history. No other history
    /// changes.
    pub fn record_sample(&mut self, metric: &str, value: i64, timestamp: i64, capacity: usize)
        requires
            old(self).wf(),
        ensures
            final(self).wf(),
            old(self).same_settings(final(self)),
            final(self).status == old(self).status,
            final(self).connection_errors == old(self).connection_errors,
            final(self).last_update == old(self).last_update,
            final(self).services == old(self).services,
            final(self).history(metric@) == appended(
                old(self).history(metric@),
                MetricSample { value, timestamp },
                capacity as nat,
            ),
            forall|m: Seq<char>|
                m != metric@ ==> #[trigger] final(self).history(m) == old(self).history(m),
    {
        let sample = MetricSample { value, timestamp };
        let ghost before = old(self).history(metric@);
        proof {
            self.metrics_history.lemma_slots();
        }
        match self.metrics_history.position(metric) {
            Some(i) => {
                let mut samples = self.metrics_history.replace_at(i, VecDeque::new());
                samples.push_back(sample);
                if samples.len() > capacity {
                    let _ = samples.pop_front();
                }
                assert(samples@ =~= appended(before, sample, capacity as nat));
                let _ = self.metrics_history.replace_at(i, samples);
                assert(self.metrics_history@ =~= old(self).metrics_history@.insert(
                    metric@,
                    samples,
                ));
            },
            None => {
                let mut samples: VecDeque<MetricSample> = VecDeque::new();
                samples.push_back(sample);
                if samples.len() > capacity {
                    let _ = samples.pop_front();
                }
                assert(samples@ =~= appended(before, sample, capacity as nat));
                let _ = self.metrics_history.insert(String::from_str(metric), samples);
            },
        }
    }

    /// Notes that `service` uses `usage` thousandths of the processor.
    pub fn set_service(&mut self, service: &str, usage: i64)
        requires
            old(self).wf(),
        ensures
            final(self).wf(),
            old(self).same_settings(final(self)),
            final(self).status == old(self).status,
            final(self).connection_errors == old(self).connection_errors,
            final(self).last_update == old(self).last_update,
            final(self).metrics_history == old(self).metrics_history,
            final(self).services@ == old(self).services@.insert(service@, usage),
    {
        let _ = self.services.insert(String::from_str(service), usage);
    }
}

impl Default for NetworkDevice {
    /// A device of which nothing is known: every text is empty, the status is
    /// unknown, monitoring is off, and there are neither samples nor services.
    fn default() -> (d: Self)
        ensures
            d.wf(),
            d.ip@ == Seq::<char>::empty(),
            d.mac@ == Seq::<char>::empty(),
            d.hostname@ == Seq::<char>::empty(),
            d.os_type@ == Seq::<char>::empty(),
            d.status == DeviceStatus::Unknown,
            !d.monitoring_enabled,
            d.username@ == Seq::<char>::empty(),
            d.password@ == Seq::<char>::empty(),
            d.bash_history@ == Seq::<char>::empty(),
            d.metrics_history@ == Map::<Seq<char>, VecDeque<MetricSample>>::empty(),
            d.last_update == None::<i64>,
            d.services@ == Map::<Seq<char>, i64>::empty(),
            d.failed_logins@ == Seq::<i64>::empty(),
            d.connection_errors == 0,
    {
        proof {
            reveal_strlit("");
        }
        let d = NetworkDevice::new("", "", "");
        assert(d.ip@ =~= Seq::<char>::empty());
        assert(d.mac@ =~= Seq::<char>::empty());
        assert(d.hostname@ =~= Seq::<char>::empty());
        d
    }
}

} // verus!
