//! The poll scheduler: whether the poll loop runs, which devices a cycle
//! polls, what each answer of a device leads to, and how long the loop rests.
//!
//! The scheduler decides and keeps no clock and no connection: its caller
//! runs the loop, talks to the devices, and hands in what they answered.

use crate::alert::AlertEvent;
use crate::config::AppConfig;
use crate::device::{
    appended, with_services, Candidate, DeviceStatus, MetricSample, NetworkDevice, ServiceUsage,
};
use crate::manager::{checked, AlertManager};
use vstd::prelude::*;

verus! {

/// The seconds after which the poll of one device is given up.
pub const TASK_TIMEOUT_SECS: u64 = 30;

/// Where the poll of one device stands.
#[derive(Debug, Clone, Copy, PartialEq, Eq, Structural)]
pub enum PollState {
    /// Not begun.
    Ready,
    /// Waiting for the connection attempt.
    Connecting,
    /// Waiting for the metrics.
    Fetching,
    /// Over for this cycle.
    Finished,
}

/// Why the poll of a device ended early.
#[derive(Debug, Clone, Copy, PartialEq, Eq, Structural)]
pub enum PollError {
    ConnectionFailed,
    FetchFailed,
    InvalidCpu,
    InvalidMemory,
    InvalidDisk,
    TimedOut,
    /// An answer came that the poll was not waiting for.
    OutOfTurn,
}

/// What the readings of one report did to the alerts of the three metrics.
#[derive(Debug, Clone, Copy, PartialEq, Eq, Structural)]
pub struct MetricEvents {
    pub cpu: AlertEvent,
    pub memory: AlertEvent,
    pub disk: AlertEvent,
}

/// What the caller is to do next for the device.
#[derive(Debug, Clone, Copy, PartialEq, Eq, Structural)]
pub enum PollAction {
    /// Nothing: the device is not to be polled.
    Skip,
    /// Try to connect, and report `Connected` or `ConnectFailed`.
    Connect,
    /// Fetch the metrics, and report `Metrics` or `FetchFailed`.
    Fetch,
    /// Store the device and its alerts; the poll is over.
    Persist(MetricEvents),
    /// Log the failure and count it; the poll is over.
    Abort(PollError),
}

/// What a device reported, in thousandths; a metric that the report lacks, or
/// that is no number, is `None`.
#[derive(Debug)]
pub struct MetricsReport {
    pub cpu: Option<i64>,
    pub memory: Option<i64>,
    pub disk: Option<i64>,
    pub top_services: Vec<ServiceUsage>,
}

/// What happened since the last step of a poll.
#[derive(Debug)]
pub enum PollEvent {
    /// The cycle turns to the device.
    Begin,
    Connected,
    ConnectFailed,
    Metrics(MetricsReport),
    FetchFailed,
    TimedOut,
}

/// `key` is the key of a candidate that may be polled.
pub open spec fn offered(candidates: Seq<Candidate>, key: Seq<char>) -> bool {
    exists|j: int|
        0 <= j < candidates.len() && (#[trigger] candidates[j]).key@ == key
            && candidates[j].eligible()
}

/// The keys, in the order of `candidates`, of the first `limit` devices that
/// may be polled.
pub open spec fn selection(candidates: Seq<Candidate>, limit: nat) -> Seq<Seq<char>>
    decreases candidates.len(),
{
    if candidates.len() == 0 {
        Seq::empty()
    } else {
        let before = selection(candidates.drop_last(), limit);
        if candidates.last().eligible() && before.len() < limit {
            before.push(candidates.last().key@)
        } else {
            before
        }
    }
}

/// The names of the metrics whose alert changed, in the order cpu, memory,
/// disk.
pub open spec fn changed_names(events: MetricEvents) -> Seq<Seq<char>> {
    (if events.cpu != AlertEvent::Nothing {
        seq!["cpu"@]
    } else {
        Seq::empty()
    }) + (if events.memory != AlertEvent::Nothing {
        seq!["memory"@]
    } else {
        Seq::empty()
    }) + (if events.disk != AlertEvent::Nothing {
        seq!["disk"@]
    } else {
        Seq::empty()
    })
}

/// The milliseconds to rest after a cycle that polled `selected` devices and
/// took `elapsed_ms`: the whole interval after a cycle that found no device to
/// poll, and otherwise what is left of the interval.
pub open spec fn rest(interval_secs: u64, selected: nat, elapsed_ms: u64) -> int {
    if selected == 0 {
        interval_secs * 1000
    } else {
        pause(interval_secs, elapsed_ms)
    }
}

/// `ms`, or the largest number of milliseconds there is if it is more.
pub open spec fn capped(ms: int) -> int {
    if ms > u64::MAX {
        u64::MAX as int
    } else {
        ms
    }
}

/// The names of the metrics whose alert changed, in the order cpu, memory,
/// disk.
pub fn changed_metrics(events: &MetricEvents) -> (names: Vec<String>)
    ensures
        texts(names@) == changed_names(*events),
{
    let mut names: Vec<String> = Vec::new();
    if events.cpu != AlertEvent::Nothing {
        names.push(String::from_str("cpu"));
    }
    if events.memory != AlertEvent::Nothing {
        names.push(String::from_str("memory"));
    }
    if events.disk != AlertEvent::Nothing {
        names.push(String::from_str("disk"));
    }
    assert(texts(names@) =~= changed_names(*events));
    names
}

/// Each text of `s` as a sequence of characters.
pub open spec fn texts(s: Seq<String>) -> Seq<Seq<char>> {
    Seq::new(s.len(), |i: int| s[i]@)
}

/// The milliseconds to rest after a cycle that took `elapsed_ms`, with
/// `interval_secs` seconds from the start of one cycle to the start of the
/// next: what is left of the interval, and nothing after a cycle that overran.
pub open spec fn pause(interval_secs: u64, elapsed_ms: u64) -> int {
    if elapsed_ms < interval_secs * 1000 {
        interval_secs * 1000 - elapsed_ms
    } else {
        0
    }
}

/// `after` is `before` with the three readings taken at `now`: each of cpu,
/// memory and disk has its sample appended to a history of at most `capacity`
/// samples, the services are noted, and `now` is the time of the last report.
pub open spec fn reported(
    before: &NetworkDevice,
    after: &NetworkDevice,
    cpu: i64,
    memory: i64,
    disk: i64,
    services: Seq<ServiceUsage>,
    now: i64,
    capacity: nat,
) -> bool {
    &&& before.same_settings(after)
    &&& after.status == before.status
    &&& after.connection_errors == before.connection_errors
    &&& after.last_update == Some(now)
    &&& after.services@ == with_services(before.services@, services)
    &&& after.history("cpu"@) == appended(
        before.history("cpu"@),
        MetricSample { value: cpu, timestamp: now },
        capacity,
    )
    &&& after.history("memory"@) == appended(
        before.history("memory"@),
        MetricSample { value: memory, timestamp: now },
        capacity,
    )
    &&& after.history("disk"@) == appended(
        before.history("disk"@),
        MetricSample { value: disk, timestamp: now },
        capacity,
    )
    &&& forall|m: Seq<char>|
        m != "cpu"@ && m != "memory"@ && m != "disk"@ ==> #[trigger] after.history(m)
            == before.history(m)
}

/// `post` is what `pre` becomes by the readings of cpu, memory and disk, in
/// that order, for the device at `ip` at `now`, and `events` is what happened.
pub open spec fn evaluated(
    pre: &AlertManager,
    post: &AlertManager,
    ip: Seq<char>,
    cpu: i64,
    memory: i64,
    disk: i64,
    now: i64,
    events: MetricEvents,
) -> bool {
    exists|m1: AlertManager, m2: AlertManager|
        {
            &&& m1.wf()
            &&& m2.wf()
            &&& #[trigger] checked(pre, &m1, ip, "cpu"@, cpu, now, events.cpu)
            &&& #[trigger] checked(&m1, &m2, ip, "memory"@, memory, now, events.memory)
            &&& checked(&m2, post, ip, "disk"@, disk, now, events.disk)
        }
}

/// Decides when and what to poll.
pub struct MonitoringThread {
    running: bool,
    interval: u64,
    max_concurrent_monitors: usize,
    history_size: usize,
}

impl MonitoringThread {
    /// Whether the poll loop is to run.
    pub closed spec fn running(&self) -> bool {
        self.running
    }

    /// The seconds from the start of one cycle to the start of the next.
    pub closed spec fn interval_secs(&self) -> u64 {
        self.interval
    }

    /// The number of devices that a cycle polls at most.
    pub closed spec fn max_concurrent(&self) -> nat {
        self.max_concurrent_monitors as nat
    }

    /// The number of samples that a device keeps per metric.
    pub closed spec fn history_capacity(&self) -> nat {
        self.history_size as nat
    }

    /// The number of poll loops that are to run: one while running, none
    /// while stopped.
    pub open spec fn active_loops(&self) -> nat {
        if self.running() {
            1
        } else {
            0
        }
    }

    /// The scheduler after `start`: running, and otherwise as it was.
    pub closed spec fn started(self) -> Self {
        MonitoringThread { running: true, ..self }
    }

    /// The scheduler after `stop`: stopped, and otherwise as it was.
    pub closed spec fn stopped(self) -> Self {
        MonitoringThread { running: false, ..self }
    }

    /// Starting and stopping change nothing but whether the loop runs.
    pub proof fn lemma_transitions(self)
        ensures
            self.started().running(),
            !self.stopped().running(),
            self.started().interval_secs() == self.interval_secs(),
            self.stopped().interval_secs() == self.interval_secs(),
            self.started().max_concurrent() == self.max_concurrent(),
            self.stopped().max_concurrent() == self.max_concurrent(),
            self.started().history_capacity() == self.history_capacity(),
            self.stopped().history_capacity() == self.history_capacity(),
            self.running() ==> self.started() == self,
            !self.running() ==> self.stopped() == self,
    {
    }

    /// Starting twice is starting once: after the first start exactly one
    /// loop is to run, and the second start changes nothing and asks for no
    /// loop.
    pub proof fn lemma_start_twice(self)
        ensures
            self.started().active_loops() == 1,
            self.started().started() == self.started(),
            self.started().started().active_loops() == 1,
    {
    }

    /// Stopping and then starting resumes polling: no loop is to run after
    /// the stop, one after the start, and that start asks for it.
    pub proof fn lemma_stop_then_start(self)
        ensures
            self.stopped().active_loops() == 0,
            self.stopped().started().active_loops() == 1,
            !self.stopped().running(),
    {
    }

    /// A stopped scheduler that polls every `interval_secs` seconds, at most
    /// `max_concurrent` devices at a time.
    pub fn new(interval_secs: u64, max_concurrent: usize) -> (t: Self)
        ensures
            !t.running(),
            t.interval_secs() == interval_secs,
            t.max_concurrent() == max_concurrent,
            t.history_capacity() == crate::device::DEFAULT_HISTORY_SIZE,
    {
        MonitoringThread {
            running: false,
            interval: interval_secs,
            max_concurrent_monitors: max_concurrent,
            history_size: crate::device::DEFAULT_HISTORY_SIZE,
        }
    }

    /// A stopped scheduler with the interval, the number of devices at a time
    /// and the number of samples per metric that `config` gives.
    pub fn from_config(config: &AppConfig) -> (t: Self)
        ensures
            !t.running(),
            t.interval_secs() == config.monitoring_interval,
            t.max_concurrent() == config.max_concurrent_monitors,
            t.history_capacity() == config.max_history_size,
    {
        MonitoringThread {
            running: false,
            interval: config.monitoring_interval,
            max_concurrent_monitors: config.max_concurrent_monitors,
            history_size: config.max_history_size,
        }
    }

    /// Whether the poll loop is to run.
    pub fn is_running(&self) -> (r: bool)
        ensures
            r == self.running(),
    {
        self.running
    }

    /// The seconds from the start of one cycle to the start of the next.
    pub fn interval(&self) -> (secs: u64)
        ensures
            secs == self.interval_secs(),
    {
        self.interval
    }

    /// The number of devices that a cycle polls at most.
    pub fn max_concurrent_monitors(&self) -> (n: usize)
        ensures
            n == self.max_concurrent(),
    {
        self.max_concurrent_monitors
    }

    /// The seconds after which the poll of one device is given up.
    pub fn task_timeout(&self) -> (secs: u64)
        ensures
            secs == TASK_TIMEOUT_SECS,
    {
        TASK_TIMEOUT_SECS
    }

    /// Sets the scheduler running. The result says whether the caller is to
    /// launch the poll loop: it is not if the scheduler was running already.
    pub fn start(&mut self) -> (launch: bool)
        ensures
            *final(self) == old(self).started(),
            final(self).running(),
            launch == !old(self).running(),
            final(self).interval_secs() == old(self).interval_secs(),
            final(self).max_concurrent() == old(self).max_concurrent(),
            final(self).history_capacity() == old(self).history_capacity(),
    {
        let launch = !self.running;
        self.running = true;
        launch
    }

    /// Stops the scheduler. The result says whether the caller is to cancel
    /// the poll loop and wait for it: it is not if the scheduler was stopped
    /// already.
    pub fn stop(&mut self) -> (cancel: bool)
        ensures
            *final(self) == old(self).stopped(),
            !final(self).running(),
            cancel == old(self).running(),
            final(self).interval_secs() == old(self).interval_secs(),
            final(self).max_concurrent() == old(self).max_concurrent(),
            final(self).history_capacity() == old(self).history_capacity(),
    {
        let cancel = self.running;
        self.running = false;
        cancel
    }

    /// The milliseconds to rest after a cycle that took `elapsed_ms`; an
    /// interval of more milliseconds than there are numbers counts as the
    /// largest.
    pub fn sleep_after(&self, elapsed_ms: u64) -> (rest_ms: u64)
        ensures
            rest_ms == capped(pause(self.interval_secs(), elapsed_ms)),
    {
        let interval_ms: u128 = self.interval as u128 * 1000;
        let elapsed: u128 = elapsed_ms as u128;
        if elapsed < interval_ms {
            let rest = interval_ms - elapsed;
            if rest > u64::MAX as u128 {
                u64::MAX
            } else {
                rest as u64
            }
        } else {
            0
        }
    }

    /// The milliseconds to rest after a cycle that polled `selected` devices
    /// and took `elapsed_ms`; an interval of more milliseconds than there are
    /// numbers counts as the largest.
    pub fn cycle_rest(&self, selected: usize, elapsed_ms: u64) -> (rest_ms: u64)
        ensures
            rest_ms == capped(rest(self.interval_secs(), selected as nat, elapsed_ms)),
    {
        if selected == 0 {
            let interval_ms: u128 = self.interval as u128 * 1000;
            if interval_ms > u64::MAX as u128 {
                u64::MAX
            } else {
                interval_ms as u64
            }
        } else {
            self.sleep_after(elapsed_ms)
        }
    }

    /// The keys of the devices that this cycle polls: the first
    /// `max_concurrent` of those that may be polled, in the order of
    /// `candidates`. A device whose monitoring is disabled, or that is not
    /// online, is never among them.
    pub fn select_devices(&self, candidates: &Vec<Candidate>) -> (keys: Vec<String>)
        ensures
            texts(keys@) == selection(candidates@, self.max_concurrent()),
            keys@.len() <= self.max_concurrent(),
            keys@.len() <= candidates@.len(),
            forall|i: int| 0 <= i < keys@.len() ==> offered(candidates@, (#[trigger] keys@[i])@),
    {
        let n = candidates.len();
        let mut keys: Vec<String> = Vec::new();
        let mut i: usize = 0;
        assert(texts(keys@) =~= selection(candidates@.take(0), self.max_concurrent()));
        while i < n
            invariant
                n == candidates@.len(),
                0 <= i <= n,
                keys@.len() <= self.max_concurrent(),
                keys@.len() <= i,
                texts(keys@) == selection(candidates@.take(i as int), self.max_concurrent()),
                forall|k: int| 0 <= k < keys@.len() ==> offered(candidates@, (#[trigger] keys@[k])@),
            decreases n - i,
        {
            let candidate = &candidates[i];
            proof {
                assert(candidates@.take(i + 1).drop_last() =~= candidates@.take(i as int));
                assert(candidates@.take(i + 1).last() == *candidate);
            }
            let ghost before = keys@;
            if candidate.monitoring_enabled && candidate.status == DeviceStatus::Online
                && keys.len() < self.max_concurrent_monitors {
                keys.push(candidate.key.clone());
                assert(texts(keys@) =~= texts(before).push(candidate.key@));
            }
            proof {
                assert forall|k: int| 0 <= k < keys@.len() implies offered(
                    candidates@,
                    (#[trigger] keys@[k])@,
                ) by {
                    if k < before.len() {
                        assert(keys@[k] == before[k]);
                    } else {
                        assert(candidates@[i as int].key@ == keys@[k]@
                            && candidates@[i as int].eligible());
                    }
                }
            }
            i = i + 1;
        }
        assert(candidates@.take(n as int) =~= candidates@);
        keys
    }

    /// Takes the three readings of a report for `device` at `now`: appends
    /// each to its history and has `alerts` classify it, cpu first, then
    /// memory, then disk; notes the services; and sets the time of the
    /// device's last report.
    pub fn apply_metrics(
        &self,
        device: &mut NetworkDevice,
        alerts: &mut AlertManager,
        cpu: i64,
        memory: i64,
        disk: i64,
        services: &Vec<ServiceUsage>,
        now: i64,
    ) -> (events: MetricEvents)
        requires
            old(device).wf(),
            old(alerts).wf(),
        ensures
            final(device).wf(),
            final(alerts).wf(),
            reported(
                old(device),
                final(device),
                cpu,
                memory,
                disk,
                services@,
                now,
                self.history_capacity(),
            ),
            evaluated(old(alerts), final(alerts), old(device).ip@, cpu, memory, disk, now, events),
    {
        proof {
            reveal_strlit("cpu");
            reveal_strlit("memory");
            reveal_strlit("disk");
            assert("cpu"@.len() != "memory"@.len());
            assert("cpu"@.len() != "disk"@.len());
            assert("memory"@.len() != "disk"@.len());
        }
        device.record_sample("cpu", cpu, now, self.history_size);
        let cpu_event = alerts.check_metric_at(device.ip.as_str(), "cpu", cpu, now);
        let ghost m1 = *alerts;
        device.record_sample("memory", memory, now, self.history_size);
        let memory_event = alerts.check_metric_at(device.ip.as_str(), "memory", memory, now);
        let ghost m2 = *alerts;
        device.record_sample("disk", disk, now, self.history_size);
        let disk_event = alerts.check_metric_at(device.ip.as_str(), "disk", disk, now);
        let events = MetricEvents { cpu: cpu_event, memory: memory_event, disk: disk_event };
        proof {
            assert(checked(old(alerts), &m1, old(device).ip@, "cpu"@, cpu, now, events.cpu));
            assert(checked(&m1, &m2, old(device).ip@, "memory"@, memory, now, events.memory));
        }
        let ghost sampled = *device;
        proof {
            let start = old(device);
            let cap = self.history_capacity();
            assert(sampled.history("cpu"@) == appended(
                start.history("cpu"@),
                MetricSample { value: cpu, timestamp: now },
                cap,
            ));
            assert(sampled.history("memory"@) == appended(
                start.history("memory"@),
                MetricSample { value: memory, timestamp: now },
                cap,
            ));
            assert(sampled.history("disk"@) == appended(
                start.history("disk"@),
                MetricSample { value: disk, timestamp: now },
                cap,
            ));
            assert forall|m: Seq<char>|
                m != "cpu"@ && m != "memory"@ && m != "disk"@ implies #[trigger] sampled.history(m)
                == start.history(m) by {}
            assert(start.same_settings(&sampled));
        }
        let n = services.len();
        let mut i: usize = 0;
        assert(services@.take(0) =~= Seq::<ServiceUsage>::empty());
        while i < n
            invariant
                n == services@.len(),
                0 <= i <= n,
                device.wf(),
                sampled.same_settings(device),
                device.status == sampled.status,
                device.connection_errors == sampled.connection_errors,
                device.last_update == sampled.last_update,
                device.metrics_history == sampled.metrics_history,
                device.services@ == with_services(sampled.services@, services@.take(i as int)),
            decreases n - i,
        {
            let service = &services[i];
            device.set_service(service.name.as_str(), service.usage);
            proof {
                assert(services@.take(i + 1).drop_last() =~= services@.take(i as int));
                assert(services@.take(i + 1).last() == services@[i as int]);
            }
            i = i + 1;
        }
        assert(services@.take(n as int) =~= services@);
        device.last_update = Some(now);
        proof {
            assert(device.metrics_history == sampled.metrics_history);
            assert forall|m: Seq<char>| #[trigger] device.history(m) == sampled.history(m) by {}
            assert(old(device).same_settings(device));
            assert(device.services@ == with_services(old(device).services@, services@));
        }
        events
    }

    /// Takes what happened in the poll of `device`, and says where the poll
    /// stands then and what the caller is to do next, as `polled` says.
    pub fn poll_step(
        &self,
        state: PollState,
        event: PollEvent,
        device: &mut NetworkDevice,
        alerts: &mut AlertManager,
        now: i64,
    ) -> (next: (PollState, PollAction))
        requires
            old(device).wf(),
            old(alerts).wf(),
        ensures
            final(device).wf(),
            final(alerts).wf(),
            polled(
                self.history_capacity(),
                state,
                event,
                old(device),
                final(device),
                old(alerts),
                final(alerts),
                now,
                next,
            ),
    {
        match event {
            PollEvent::TimedOut => (PollState::Finished, PollAction::Abort(PollError::TimedOut)),
            PollEvent::Begin => {
                if state == PollState::Ready {
                    if device.is_eligible() {
                        (PollState::Connecting, PollAction::Connect)
                    } else {
                        (PollState::Finished, PollAction::Skip)
                    }
                } else {
                    (PollState::Finished, PollAction::Abort(PollError::OutOfTurn))
                }
            },
            PollEvent::Connected => {
                if state == PollState::Connecting {
                    device.note_connect(true);
                    (PollState::Fetching, PollAction::Fetch)
                } else {
                    (PollState::Finished, PollAction::Abort(PollError::OutOfTurn))
                }
            },
            PollEvent::ConnectFailed => {
                if state == PollState::Connecting {
                    device.note_connect(false);
                    (PollState::Finished, PollAction::Abort(PollError::ConnectionFailed))
                } else {
                    (PollState::Finished, PollAction::Abort(PollError::OutOfTurn))
                }
            },
            PollEvent::FetchFailed => {
                if state == PollState::Fetching {
                    (PollState::Finished, PollAction::Abort(PollError::FetchFailed))
                } else {
                    (PollState::Finished, PollAction::Abort(PollError::OutOfTurn))
                }
            },
            PollEvent::Metrics(report) => {
                if state == PollState::Fetching {
                    match (report.cpu, report.memory, report.disk) {
                        (None, _, _) => (
                            PollState::Finished,
                            PollAction::Abort(PollError::InvalidCpu),
                        ),
                        (Some(_), None, _) => (
                            PollState::Finished,
                            PollAction::Abort(PollError::InvalidMemory),
                        ),
                        (Some(_), Some(_), None) => (
                            PollState::Finished,
                            PollAction::Abort(PollError::InvalidDisk),
                        ),
                        (Some(cpu), Some(memory), Some(disk)) => {
                            let events = self.apply_metrics(
                                device,
                                alerts,
                                cpu,
                                memory,
                                disk,
                                &report.top_services,
                                now,
                            );
                            (PollState::Finished, PollAction::Persist(events))
                        },
                    }
                } else {
                    (PollState::Finished, PollAction::Abort(PollError::OutOfTurn))
                }
            },
        }
    }
}

/// What a step of the poll of a device comes to.
///
/// The cycle's turn to a device that may be polled asks for a connection, and
/// skips any other device. A connection that worked is noted on the device and
/// asks for the metrics; one that failed is noted and ends the poll. A report
/// that has all three readings is taken as `reported` and `evaluated` say and
/// asks for the device and its alerts to be stored; one that lacks a reading
/// ends the poll and names the first that it lacks. A failed fetch, a timeout,
/// and an answer that the poll was not waiting for end the poll. But for a
/// noted connection and a report taken, device and alerts stay as they were.
pub open spec fn polled(
    capacity: nat,
    state: PollState,
    event: PollEvent,
    before: &NetworkDevice,
    after: &NetworkDevice,
    pre: &AlertManager,
    post: &AlertManager,
    now: i64,
    next: (PollState, PollAction),
) -> bool {
    match (state, event) {
        (_, PollEvent::TimedOut) => {
            &&& *after == *before
            &&& *post == *pre
            &&& next == (PollState::Finished, PollAction::Abort(PollError::TimedOut))
        },
        (PollState::Ready, PollEvent::Begin) => {
            &&& *after == *before
            &&& *post == *pre
            &&& next == if before.eligible() {
                (PollState::Connecting, PollAction::Connect)
            } else {
                (PollState::Finished, PollAction::Skip)
            }
        },
        (PollState::Connecting, PollEvent::Connected) => {
            &&& *after == before.after_connect(true)
            &&& *post == *pre
            &&& next == (PollState::Fetching, PollAction::Fetch)
        },
        (PollState::Connecting, PollEvent::ConnectFailed) => {
            &&& *after == before.after_connect(false)
            &&& *post == *pre
            &&& next == (PollState::Finished, PollAction::Abort(PollError::ConnectionFailed))
        },
        (PollState::Fetching, PollEvent::FetchFailed) => {
            &&& *after == *before
            &&& *post == *pre
            &&& next == (PollState::Finished, PollAction::Abort(PollError::FetchFailed))
        },
        (PollState::Fetching, PollEvent::Metrics(report)) => match (
            report.cpu,
            report.memory,
            report.disk,
        ) {
            (Some(cpu), Some(memory), Some(disk)) => {
                &&& reported(before, after, cpu, memory, disk, report.top_services@, now, capacity)
                &&& next.0 == PollState::Finished
                &&& next.1 matches PollAction::Persist(events) && evaluated(
                    pre,
                    post,
                    before.ip@,
                    cpu,
                    memory,
                    disk,
                    now,
                    events,
                )
            },
            _ => {
                &&& *after == *before
                &&& *post == *pre
                &&& next == (
                    PollState::Finished,
                    PollAction::Abort(
                        if report.cpu.is_none() {
                            PollError::InvalidCpu
                        } else if report.memory.is_none() {
                            PollError::InvalidMemory
                        } else {
                            PollError::InvalidDisk
                        },
                    ),
                )
            },
        },
        _ => {
            &&& *after == *before
            &&& *post == *pre
            &&& next == (PollState::Finished, PollAction::Abort(PollError::OutOfTurn))
        },
    }
}

/// A device whose monitoring is disabled, or that is not online, is skipped
/// when the cycle turns to it: no connection is asked for, and nothing
/// changes.
pub proof fn lemma_ineligible_is_skipped(
    capacity: nat,
    before: &NetworkDevice,
    after: &NetworkDevice,
    pre: &AlertManager,
    post: &AlertManager,
    now: i64,
    next: (PollState, PollAction),
)
    requires
        !before.monitoring_enabled || before.status != DeviceStatus::Online,
        polled(capacity, PollState::Ready, PollEvent::Begin, before, after, pre, post, now, next),
    ensures
        next == (PollState::Finished, PollAction::Skip),
        *after == *before,
        *post == *pre,
{
}

/// The metrics are asked for only after a connection that worked, and a
/// connection only at the cycle's turn to a device that may be polled.
pub proof fn lemma_actions_in_turn(
    capacity: nat,
    state: PollState,
    event: PollEvent,
    before: &NetworkDevice,
    after: &NetworkDevice,
    pre: &AlertManager,
    post: &AlertManager,
    now: i64,
    next: (PollState, PollAction),
)
    requires
        polled(capacity, state, event, before, after, pre, post, now, next),
    ensures
        next.1 == PollAction::Connect ==> state == PollState::Ready && event is Begin
            && before.eligible(),
        next.1 == PollAction::Fetch ==> state == PollState::Connecting && event is Connected,
{
}

} // verus!
