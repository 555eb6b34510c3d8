//! Rolling baselines of metric readings, and the outlier test against them.

use crate::keys::{composite_key, make_key};
use crate::stats::{
    all_bounded, bounded, is_outlier, score, z_score_centi, MIN_SAMPLES, READING_LIMIT,
    WINDOW_LIMIT,
};
use crate::table::Table;
use std::collections::VecDeque;
use vstd::prelude::*;

verus! {

/// The threshold of a new detector, in hundredths: two and a half standard
/// deviations.
pub const DEFAULT_Z_THRESHOLD: u64 = 250;

/// `s` after `v` arrived in a window of capacity `cap`: `v` stands last, and
/// the oldest reading has left if the window was full.
pub open spec fn rolled(s: Seq<i64>, v: i64, cap: nat) -> Seq<i64> {
    if s.len() + 1 > cap {
        s.push(v).drop_first()
    } else {
        s.push(v)
    }
}

/// The capacity of the windows of a detector that was asked for `requested`:
/// that number, or `WINDOW_LIMIT` if it is less.
pub open spec fn window_capacity(requested: usize) -> nat {
    if requested <= WINDOW_LIMIT {
        requested as nat
    } else {
        WINDOW_LIMIT as nat
    }
}

/// `v`, or the bound nearest to it where it lies beyond `READING_LIMIT`.
pub fn bound_reading(v: i64) -> (b: i64)
    ensures
        b == bounded(v),
        -READING_LIMIT <= b <= READING_LIMIT,
{
    if v > READING_LIMIT {
        READING_LIMIT
    } else if v < -READING_LIMIT {
        -READING_LIMIT
    } else {
        v
    }
}

/// Keeps, for each metric of each device, a window of the latest readings,
/// and tells whether a reading is an outlier of its window.
pub struct AnomalyDetector {
    baselines: Table<VecDeque<i64>>,
    history_window: usize,
    z_score_threshold: u64,
}

impl AnomalyDetector {
    /// Every window is within the capacity and holds bounded readings.
    pub closed spec fn wf(&self) -> bool {
        &&& self.baselines.wf()
        &&& self.history_window <= WINDOW_LIMIT
        &&& forall|k: Seq<char>| #[trigger]
            self.baselines@.contains_key(k) ==> {
                &&& self.baselines@[k]@.len() <= self.history_window
                &&& all_bounded(self.baselines@[k]@)
            }
    }

    /// The capacity of each window.
    pub closed spec fn capacity(&self) -> nat {
        self.history_window as nat
    }

    /// The z-score, in hundredths, above which a reading is an outlier.
    pub closed spec fn threshold(&self) -> u64 {
        self.z_score_threshold
    }

    /// The window kept under `key`, oldest reading first; empty if none is kept.
    pub closed spec fn window(&self, key: Seq<char>) -> Seq<i64> {
        if self.baselines@.contains_key(key) {
            self.baselines@[key]@
        } else {
            Seq::empty()
        }
    }

    /// Each window is within the capacity, which is within `WINDOW_LIMIT`,
    /// and holds bounded readings.
    pub proof fn lemma_windows(&self, key: Seq<char>)
        requires
            self.wf(),
        ensures
            self.window(key).len() <= self.capacity() <= WINDOW_LIMIT,
            all_bounded(self.window(key)),
    {
    }

    /// A detector without windows, with the default threshold. The capacity
    /// is `history_window`, or `WINDOW_LIMIT` if that is less.
    pub fn new(history_window: usize) -> (d: Self)
        ensures
            d.wf(),
            d.capacity() == window_capacity(history_window),
            d.threshold() == DEFAULT_Z_THRESHOLD,
            forall|k: Seq<char>| #[trigger] d.window(k) == Seq::<i64>::empty(),
    {
        Self::with_threshold(history_window, DEFAULT_Z_THRESHOLD)
    }

    /// A detector without windows, with the threshold `z_score_threshold`
    /// hundredths. The capacity is `history_window`, or `WINDOW_LIMIT` if that
    /// is less.
    pub fn with_threshold(history_window: usize, z_score_threshold: u64) -> (d: Self)
        ensures
            d.wf(),
            d.capacity() == window_capacity(history_window),
            d.threshold() == z_score_threshold,
            forall|k: Seq<char>| #[trigger] d.window(k) == Seq::<i64>::empty(),
    {
        let capacity = if history_window <= WINDOW_LIMIT {
            history_window
        } else {
            WINDOW_LIMIT
        };
        AnomalyDetector {
            baselines: Table::new(),
            history_window: capacity,
            z_score_threshold,
        }
    }

    /// The capacity of each window.
    pub fn history_window(&self) -> (n: usize)
        ensures
            n == self.capacity(),
    {
        self.history_window
    }

    /// The z-score, in hundredths, above which a reading is an outlier.
    pub fn z_score_threshold(&self) -> (t: u64)
        ensures
            t == self.threshold(),
    {
        self.z_score_threshold
    }

    /// The number of readings kept for `metric` on `device_ip`.
    pub fn sample_count(&self, device_ip: &str, metric: &str) -> (n: usize)
        requires
            self.wf(),
        ensures
            n == self.window(composite_key(device_ip@, metric@)).len(),
    {
        let key = make_key(device_ip, metric);
        match self.baselines.get(key.as_str()) {
            Some(w) => w.len(),
            None => 0,
        }
    }

    /// A copy of the window kept for `metric` on `device_ip`, oldest reading
    /// first.
    pub fn baseline(&self, device_ip: &str, metric: &str) -> (w: Vec<i64>)
        requires
            self.wf(),
        ensures
            w@ == self.window(composite_key(device_ip@, metric@)),
    {
        let key = make_key(device_ip, metric);
        let mut w: Vec<i64> = Vec::new();
        match self.baselines.get(key.as_str()) {
            Some(window) => {
                let n = window.len();
                let mut i: usize = 0;
                while i < n
                    invariant
                        n == window@.len(),
                        0 <= i <= n,
                        w@ == window@.take(i as int),
                    decreases n - i,
                {
                    w.push(window[i]);
                    assert(w@ =~= window@.take(i + 1));
                    i = i + 1;
                }
                assert(window@.take(n as int) =~= window@);
            },
            None => {},
        }
        w
    }

    /// Takes `value` into the window of `metric` on `device_ip`, bounded by
    /// `READING_LIMIT`; the oldest reading leaves a full window. No other
    /// window changes.
    pub fn update_baseline(&mut self, device_ip: &str, metric: &str, value: i64)
        requires
            old(self).wf(),
        ensures
            final(self).wf(),
            final(self).capacity() == old(self).capacity(),
            final(self).threshold() == old(self).threshold(),
            final(self).window(composite_key(device_ip@, metric@)) == rolled(
                old(self).window(composite_key(device_ip@, metric@)),
                bounded(value),
                old(self).capacity(),
            ),
            forall|k: Seq<char>|
                k != composite_key(device_ip@, metric@) ==> #[trigger] final(self).window(k) == old(self).window(k),
    {
        let key = make_key(device_ip, metric);
        let reading = bound_reading(value);
        let ghost before = old(self).window(key@);
        proof {
            self.baselines.lemma_slots();
        }
        match self.baselines.position(key.as_str()) {
            Some(i) => {
                let mut window = self.baselines.replace_at(i, VecDeque::new());
                assert(window@ == before);
                window.push_back(reading);
                if window.len() > self.history_window {
                    let _ = window.pop_front();
                }
                assert(window@ =~= rolled(before, reading, self.history_window as nat));
                let _ = self.baselines.replace_at(i, window);
                assert(self.baselines@ =~= old(self).baselines@.insert(key@, window));
            },
            None => {
                let mut window: VecDeque<i64> = VecDeque::new();
                window.push_back(reading);
                if window.len() > self.history_window {
                    let _ = window.pop_front();
                }
                assert(window@ =~= rolled(before, reading, self.history_window as nat));
                let _ = self.baselines.insert(key, window);
            },
        }
    }

    /// Tests `value`, bounded by `READING_LIMIT`, against the window of
    /// `metric` on `device_ip`: whether its z-score exceeds the threshold, and
    /// its z-score in hundredths, rounded down. A window of fewer than `MIN_SAMPLES` readings,
    /// or one whose standard deviation is at most a thousandth of a unit,
    /// gives `(false, 0)`.
    pub fn detect_anomaly(&self, device_ip: &str, metric: &str, value: i64) -> (r: (bool, u64))
        requires
            self.wf(),
        ensures
            r.0 == is_outlier(
                self.window(composite_key(device_ip@, metric@)),
                bounded(value),
                self.threshold(),
            ),
            r.1 == z_score_centi(self.window(composite_key(device_ip@, metric@)), bounded(value)),
            self.window(composite_key(device_ip@, metric@)).len() < MIN_SAMPLES ==> r == (
                false,
                0u64,
            ),
    {
        let key = make_key(device_ip, metric);
        let reading = bound_reading(value);
        match self.baselines.get(key.as_str()) {
            Some(window) => score(window, reading, self.z_score_threshold),
            None => (false, 0),
        }
    }
}

} // verus!
