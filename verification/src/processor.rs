//! The stats aggregator: the single owner of all rolling state.
//!
//! Two entry points drive it, never concurrently: `process_key` folds one
//! keypress event into the state, and `process_second` advances the
//! logical clock one tick and assembles the snapshot for the display
//! layer.  Wall-clock instants reach the aggregator only as millisecond
//! values handed in by the caller; the logical clock is its own.

use vstd::prelude::*;
use vstd::string::StringExecFns;
use std::collections::VecDeque;
use crate::keydata::{KeyKind, Keydata};
use crate::numfmt::dec_rep;
use crate::rank::{bumped, keys_unique, ranked, sorted_desc};

verus! {

/// Slots in the throughput history: one hour of one-second ticks.
pub const CIRC_BUF_SIZE: usize = 3600;

/// Down-sampled graph points per snapshot.
pub const X_AXIS_SIZE: usize = 20;

/// History slots averaged into one graph point.
pub const SLICE_SIZE: usize = 180;

/// Ticks an event stays in the activity window.
pub const WINDOW_TICKS: u64 = 60;

/// One immutable snapshot for the display layer, produced each tick.
#[derive(Debug)]
pub struct UiData {
    /// `(index, value)` pairs, index 0 the most recent slice, each value
    /// the average throughput over one slice of the history.
    pub graph_data: Vec<(u64, u64)>,
    /// Human-readable current throughput and cumulative count.
    pub info_string: String,
    /// The key-frequency table sorted by count descending.
    pub key_freq: Vec<(String, u32)>,
}

/// The sum of a sequence of throughput samples.
pub open spec fn sum_seq(s: Seq<u32>) -> int
    decreases s.len(),
{
    if s.len() == 0 {
        0
    } else {
        s[0] + sum_seq(s.drop_first())
    }
}

proof fn lemma_sum_push(s: Seq<u32>, x: u32)
    ensures
        sum_seq(s.push(x)) == sum_seq(s) + x,
    decreases s.len(),
{
    if s.len() == 0 {
        assert(s.push(x).drop_first() =~= Seq::<u32>::empty());
        assert(sum_seq(Seq::<u32>::empty()) == 0);
    } else {
        assert(s.push(x).drop_first() =~= s.drop_first().push(x));
        lemma_sum_push(s.drop_first(), x);
    }
}

/// The average throughput over the `i`-th most recent slice of the
/// history (`i` counted from the newest end).
pub open spec fn bucket_avg(hist: Seq<u32>, i: int) -> int {
    sum_seq(
        hist.subrange(
            CIRC_BUF_SIZE - (i + 1) * SLICE_SIZE,
            CIRC_BUF_SIZE - i * SLICE_SIZE,
        ),
    ) / (SLICE_SIZE as int)
}

/// The down-sampled graph: one `(index, average)` pair per slice, most
/// recent slice first.
pub open spec fn graph_ok(hist: Seq<u32>, g: Seq<(u64, u64)>) -> bool {
    &&& g.len() == X_AXIS_SIZE
    &&& forall|i: int|
        0 <= i < g.len() ==> (#[trigger] g[i]).0 == i && g[i].1 == bucket_avg(hist, i)
}

/// The last `CIRC_BUF_SIZE` entries of the sample log, padded with
/// leading zeros while the log is still short.
pub open spec fn zero_padded(log: Seq<u32>) -> Seq<u32> {
    let full = Seq::new(CIRC_BUF_SIZE as nat, |i: int| 0u32) + log;
    full.subrange(log.len() as int, log.len() + CIRC_BUF_SIZE)
}

proof fn lemma_zero_padded_push(log: Seq<u32>, x: u32)
    ensures
        zero_padded(log.push(x)) == zero_padded(log).drop_first().push(x),
{
    assert(zero_padded(log.push(x)) =~= zero_padded(log).drop_first().push(x));
}

/// The per-tick throughput figure: window size over five, the standard
/// five-keystrokes-per-word convention, stuck at the type's ceiling.
pub open spec fn wpm_value(len: nat) -> u32 {
    if len / 5 > u32::MAX {
        u32::MAX
    } else {
        (len / 5) as u32
    }
}

/// The cumulative total after one more event of kind `kind`; `Single`
/// presses count, key-repeats do not, and the count sticks at the type's
/// ceiling rather than wrap.
pub open spec fn bumped_total(total: u64, kind: KeyKind) -> u64 {
    if kind is Single && total < u64::MAX {
        (total + 1) as u64
    } else {
        total
    }
}

/// The activity window with everything at or before `timer - 60` evicted.
pub open spec fn window_filtered(w: Seq<Keydata>, timer: u64) -> Seq<Keydata> {
    w.filter(|k: Keydata| k.timestamp > timer - WINDOW_TICKS)
}

/// Whether a milestone alert is owed: a configured, positive threshold
/// divides a positive total that has not been alerted on yet.
pub open spec fn milestone_due(notify_keys: Option<u32>, total: u64, last_notify: u64) -> bool {
    match notify_keys {
        Some(n) => n > 0 && total > 0 && total % (n as u64) == 0 && total != last_notify,
        None => false,
    }
}

/// The summary line of a snapshot.
pub open spec fn info_rep(wpm: u32, total: u64) -> Seq<char> {
    "Current WPM: "@ + dec_rep(wpm as nat) + " Total Keys: "@ + dec_rep(total as nat)
}

/// Render the summary line.
pub fn summary_line(wpm: u32, total: u64) -> (s: String)
    ensures
        s@ == info_rep(wpm, total),
{
    let mut s: String = String::from_str("Current WPM: ");
    let w: String = crate::numfmt::u64_to_string(wpm as u64);
    s.append(w.as_str());
    s.append(" Total Keys: ");
    let t: String = crate::numfmt::u64_to_string(total);
    s.append(t.as_str());
    proof {
        assert(s@ =~= info_rep(wpm, total));
    }
    s
}

/// The stats aggregator's state.  One thread owns it; `process_key` and
/// `process_second` are never interleaved.
pub struct Processor {
    /// The logical clock, one increment per tick, starting at 0.
    pub timer: u64,
    /// Cumulative `Single` presses since the last session reset.
    pub keys_total: u64,
    /// Events of the last `WINDOW_TICKS` ticks, in arrival order.
    pub current_keys: Vec<Keydata>,
    /// The throughput history: always exactly `CIRC_BUF_SIZE` samples.
    pub wpm_circ_buf: VecDeque<u32>,
    /// The most recent throughput sample.
    pub wpm: u32,
    /// Occurrence counts per key symbol, in first-seen order.
    pub characters: Vec<(String, u32)>,
    /// The milestone threshold; `None` disables alerts and session resets.
    pub notify_keys: Option<u32>,
    /// The total at which the last milestone alert fired.
    pub last_notify: u64,
    /// Wall clock (ms) at the end of the previous tick.
    pub sleep_ts_ms: u64,
    /// Wall clock (ms) at the last received event.
    pub last_key_ts_ms: u64,
    /// Every throughput sample ever produced, oldest first.
    pub wpm_log: Ghost<Seq<u32>>,
}

impl Processor {
    /// Well-formedness: the history is the zero-padded suffix of the
    /// sample log, window timestamps are current and inside the rolling
    /// window, and the frequency table has unique keys and positive
    /// counts.
    pub open spec fn wf(self) -> bool {
        &&& self.wpm_circ_buf@.len() == CIRC_BUF_SIZE
        &&& self.wpm_circ_buf@ == zero_padded(self.wpm_log@)
        &&& keys_unique(self.characters@)
        &&& forall|k: int|
            0 <= k < self.characters@.len() ==> (#[trigger] self.characters@[k]).1 >= 1
        &&& forall|k: int|
            0 <= k < self.current_keys@.len() ==> (#[trigger] self.current_keys@[k]).timestamp
                <= self.timer
        &&& self.timer > WINDOW_TICKS ==> forall|k: int|
            0 <= k < self.current_keys@.len() ==> (#[trigger] self.current_keys@[k]).timestamp
                > self.timer - WINDOW_TICKS
    }

    /// Whether the gap to the previous tick or to the last keypress says
    /// the user was away: the machine slept through more than 1500 ms
    /// since the previous tick, or no key arrived for over five minutes.
    pub open spec fn idle_reset_due(self, now_ms: u64) -> bool {
        ||| now_ms - self.sleep_ts_ms > 1500
        ||| (now_ms - self.last_key_ts_ms) / 1000 > 300
    }

    /// A session reset happens only with the milestone feature
    /// configured, as the reference behaviour has it.
    pub open spec fn reset_due(self, now_ms: u64) -> bool {
        self.notify_keys is Some && self.idle_reset_due(now_ms)
    }

    /// A fresh aggregator: tick 0, empty window, zero-filled history,
    /// empty frequency table, both wall-clock marks at `now_ms`.
    pub fn new(notify_keys: Option<u32>, now_ms: u64) -> (p: Processor)
        ensures
            p.wf(),
            p.timer == 0,
            p.keys_total == 0,
            p.current_keys@.len() == 0,
            p.wpm == 0,
            p.characters@.len() == 0,
            p.notify_keys == notify_keys,
            p.last_notify == 0,
            p.sleep_ts_ms == now_ms,
            p.last_key_ts_ms == now_ms,
            p.wpm_log@ == Seq::<u32>::empty(),
    {
        let mut vd: VecDeque<u32> = VecDeque::new();
        let mut i: usize = 0;
        while i < CIRC_BUF_SIZE
            invariant
                i <= CIRC_BUF_SIZE,
                vd@.len() == i,
                forall|k: int| 0 <= k < i ==> vd@[k] == 0u32,
            decreases CIRC_BUF_SIZE - i,
        {
            vd.push_back(0);
            i = i + 1;
        }
        proof {
            assert(vd@ =~= zero_padded(Seq::<u32>::empty()));
        }
        Processor {
            timer: 0,
            keys_total: 0,
            current_keys: Vec::new(),
            wpm_circ_buf: vd,
            wpm: 0,
            characters: Vec::new(),
            notify_keys,
            last_notify: 0,
            sleep_ts_ms: now_ms,
            last_key_ts_ms: now_ms,
            wpm_log: Ghost(Seq::empty()),
        }
    }

    /// Fold one keypress event into the state: stamp it with the current
    /// tick, count it, record its symbol, append it to the window.  The
    /// cumulative total never decreases here.
    pub fn process_key(&mut self, kd: Keydata, now_ms: u64)
        requires
            old(self).wf(),
        ensures
            final(self).wf(),
            final(self).last_key_ts_ms == now_ms,
            final(self).keys_total == bumped_total(old(self).keys_total, kd.kind),
            final(self).keys_total >= old(self).keys_total,
            final(self).characters@ == bumped(old(self).characters@, kd.symbol),
            final(self).current_keys@ == old(self).current_keys@.push(
                (Keydata { timestamp: old(self).timer, ..kd }),
            ),
            final(self).timer == old(self).timer,
            final(self).wpm == old(self).wpm,
            final(self).wpm_circ_buf@ == old(self).wpm_circ_buf@,
            final(self).wpm_log == old(self).wpm_log,
            final(self).notify_keys == old(self).notify_keys,
            final(self).last_notify == old(self).last_notify,
            final(self).sleep_ts_ms == old(self).sleep_ts_ms,
    {
        self.last_key_ts_ms = now_ms;
        let mut kd = kd;
        kd.set_timestamp(self.timer);
        if *kd.get_kind() == KeyKind::Single {
            if self.keys_total < u64::MAX {
                self.keys_total = self.keys_total + 1;
            }
        }
        crate::rank::bump(&mut self.characters, kd.get_symbol());
        self.current_keys.push(kd);
    }

    /// Zero the cumulative total when the idle gap says the user was
    /// away; nothing else changes.
    fn detect_new_session(&mut self, now_ms: u64)
        ensures
            final(self).keys_total == (if old(self).idle_reset_due(now_ms) {
                0u64
            } else {
                old(self).keys_total
            }),
            *final(self) == (Processor { keys_total: final(self).keys_total, ..*old(self) }),
    {
        let slept: bool = now_ms >= self.sleep_ts_ms && now_ms - self.sleep_ts_ms > 1500;
        let idle: bool = now_ms >= self.last_key_ts_ms && (now_ms - self.last_key_ts_ms) / 1000
            > 300;
        if slept || idle {
            self.keys_total = 0;
        }
    }

    /// Evict from the window everything at or before `timer - 60`.
    fn filter_keys(&mut self)
        requires
            old(self).timer > WINDOW_TICKS,
            forall|j: int|
                0 <= j < old(self).current_keys@.len()
                    ==> (#[trigger] old(self).current_keys@[j]).timestamp <= old(self).timer,
        ensures
            final(self).current_keys@ == window_filtered(
                old(self).current_keys@,
                old(self).timer,
            ),
            forall|k: int|
                0 <= k < final(self).current_keys@.len()
                    ==> (#[trigger] final(self).current_keys@[k]).timestamp
                    > old(self).timer - WINDOW_TICKS,
            forall|k: int|
                0 <= k < final(self).current_keys@.len()
                    ==> (#[trigger] final(self).current_keys@[k]).timestamp <= old(self).timer,
            *final(self) == (Processor { current_keys: final(self).current_keys, ..*old(self) }),
    {
        let cutoff: u64 = self.timer - WINDOW_TICKS;
        let n: usize = self.current_keys.len();
        let mut kept: Vec<Keydata> = Vec::new();
        let ghost orig = self.current_keys@;
        let ghost t = self.timer;
        proof {
            assert(orig.take(0) =~= Seq::<Keydata>::empty());
            assert(window_filtered(orig.take(0), t) =~= Seq::<Keydata>::empty());
        }
        let mut i: usize = 0;
        while i < n
            invariant
                i <= n,
                n == self.current_keys.len(),
                orig == self.current_keys@,
                t == self.timer,
                t > WINDOW_TICKS,
                cutoff == t - WINDOW_TICKS,
                kept@ == window_filtered(orig.take(i as int), t),
                forall|j: int|
                    0 <= j < orig.len() ==> (#[trigger] orig[j]).timestamp <= t,
                forall|k: int|
                    0 <= k < kept@.len() ==> (#[trigger] kept@[k]).timestamp > t - WINDOW_TICKS,
                forall|k: int|
                    0 <= k < kept@.len() ==> (#[trigger] kept@[k]).timestamp <= t,
            decreases n - i,
        {
            proof {
                broadcast use vstd::seq::Seq::lemma_filter_push;

                assert(orig.take(i + 1) =~= orig.take(i as int).push(orig[i as int]));
            }
            if self.current_keys[i].timestamp > cutoff {
                kept.push(self.current_keys[i].clone());
            }
            i = i + 1;
        }
        proof {
            assert(orig.take(n as int) =~= orig);
        }
        self.current_keys = kept;
    }

    /// Take the tick's throughput sample: compute the figure from the
    /// window, evict the history's oldest slot, append the sample.
    fn calculate_wpm(&mut self)
        requires
            old(self).wpm_circ_buf@.len() == CIRC_BUF_SIZE,
        ensures
            final(self).wpm == wpm_value(old(self).current_keys@.len()),
            final(self).wpm_circ_buf@ == old(self).wpm_circ_buf@.drop_first().push(
                final(self).wpm,
            ),
            final(self).wpm_log@ == old(self).wpm_log@.push(final(self).wpm),
            *final(self) == (Processor {
                wpm: final(self).wpm,
                wpm_circ_buf: final(self).wpm_circ_buf,
                wpm_log: final(self).wpm_log,
                ..*old(self)
            }),
    {
        let len: usize = self.current_keys.len();
        let w: usize = len / 5;
        let wpm: u32 = if w > (u32::MAX as usize) {
            u32::MAX
        } else {
            w as u32
        };
        self.wpm = wpm;
        let _ = self.wpm_circ_buf.pop_front();
        self.wpm_circ_buf.push_back(wpm);
        proof {
            assert(self.wpm_circ_buf@ =~= old(self).wpm_circ_buf@.drop_first().push(wpm));
        }
        self.wpm_log = Ghost(self.wpm_log@.push(wpm));
    }

    /// The down-sampled graph of the current history.
    fn produce_graph_data(&self) -> (g: Vec<(u64, u64)>)
        requires
            self.wpm_circ_buf@.len() == CIRC_BUF_SIZE,
        ensures
            graph_ok(self.wpm_circ_buf@, g@),
    {
        let mut g: Vec<(u64, u64)> = Vec::new();
        let mut i: usize = 0;
        while i < X_AXIS_SIZE
            invariant
                self.wpm_circ_buf@.len() == CIRC_BUF_SIZE,
                i <= X_AXIS_SIZE,
                g@.len() == i,
                forall|k: int|
                    0 <= k < i ==> (#[trigger] g@[k]).0 == k && g@[k].1 == bucket_avg(
                        self.wpm_circ_buf@,
                        k,
                    ),
            decreases X_AXIS_SIZE - i,
        {
            let lo: usize = CIRC_BUF_SIZE - (i + 1) * SLICE_SIZE;
            let mut sum: u64 = 0;
            let mut j: usize = 0;
            proof {
                assert(self.wpm_circ_buf@.subrange(lo as int, lo as int)
                    =~= Seq::<u32>::empty());
            }
            while j < SLICE_SIZE
                invariant
                    self.wpm_circ_buf@.len() == CIRC_BUF_SIZE,
                    i < X_AXIS_SIZE,
                    lo == CIRC_BUF_SIZE - (i + 1) * SLICE_SIZE,
                    j <= SLICE_SIZE,
                    sum == sum_seq(self.wpm_circ_buf@.subrange(lo as int, lo + j)),
                    sum <= (j as int) * (u32::MAX as int),
                decreases SLICE_SIZE - j,
            {
                let v: u32 = self.wpm_circ_buf[lo + j];
                proof {
                    lemma_sum_push(
                        self.wpm_circ_buf@.subrange(lo as int, lo + j),
                        self.wpm_circ_buf@[lo + j],
                    );
                    assert(self.wpm_circ_buf@.subrange(lo as int, lo + j + 1)
                        =~= self.wpm_circ_buf@.subrange(lo as int, lo + j).push(
                        self.wpm_circ_buf@[lo + j],
                    ));
                }
                sum = sum + (v as u64);
                j = j + 1;
            }
            let avg: u64 = sum / (SLICE_SIZE as u64);
            g.push((i as u64, avg));
            i = i + 1;
        }
        g
    }

    /// Decide the milestone alert: `Some(total)` exactly when one is
    /// owed, remembering the total so the same one never fires twice.
    fn check_milestone(&mut self) -> (alert: Option<u64>)
        ensures
            alert == (if milestone_due(
                old(self).notify_keys,
                old(self).keys_total,
                old(self).last_notify,
            ) {
                Some(old(self).keys_total)
            } else {
                None::<u64>
            }),
            final(self).last_notify == (if alert is Some {
                old(self).keys_total
            } else {
                old(self).last_notify
            }),
            *final(self) == (Processor { last_notify: final(self).last_notify, ..*old(self) }),
    {
        match self.notify_keys {
            Some(n) => {
                if n > 0 && self.keys_total > 0 && self.keys_total % (n as u64) == 0
                    && self.keys_total != self.last_notify {
                    self.last_notify = self.keys_total;
                    Some(self.keys_total)
                } else {
                    None
                }
            },
            None => None,
        }
    }

    /// Advance the clock one tick: detect a session gap, evict the stale
    /// window entries, sample the throughput, and assemble the snapshot
    /// and the milestone alert, in that order.
    pub fn process_second(&mut self, now_ms: u64) -> (out: (UiData, Option<u64>))
        requires
            old(self).wf(),
            old(self).timer < u64::MAX,
        ensures
            final(self).wf(),
            ({
                let total0 = if old(self).reset_due(now_ms) {
                    0u64
                } else {
                    old(self).keys_total
                };
                let t1 = (old(self).timer + 1) as u64;
                let win1 = if t1 > WINDOW_TICKS {
                    window_filtered(old(self).current_keys@, t1)
                } else {
                    old(self).current_keys@
                };
                let w = wpm_value(win1.len());
                let fired = milestone_due(old(self).notify_keys, total0, old(self).last_notify);
                &&& final(self).timer == t1
                &&& final(self).current_keys@ == win1
                &&& final(self).wpm == w
                &&& final(self).wpm_log@ == old(self).wpm_log@.push(w)
                &&& final(self).wpm_circ_buf@ == old(self).wpm_circ_buf@.drop_first().push(w)
                &&& final(self).keys_total == total0
                &&& final(self).characters@ == old(self).characters@
                &&& final(self).notify_keys == old(self).notify_keys
                &&& final(self).sleep_ts_ms == now_ms
                &&& final(self).last_key_ts_ms == old(self).last_key_ts_ms
                &&& out.1 == (if fired {
                    Some(total0)
                } else {
                    None::<u64>
                })
                &&& final(self).last_notify == (if fired {
                    total0
                } else {
                    old(self).last_notify
                })
                &&& graph_ok(final(self).wpm_circ_buf@, out.0.graph_data@)
                &&& out.0.info_string@ == info_rep(w, total0)
                &&& out.0.key_freq@ == ranked(old(self).characters@)
                &&& sorted_desc(out.0.key_freq@)
            }),
    {
        if self.notify_keys.is_some() {
            self.detect_new_session(now_ms);
        }
        self.timer = self.timer + 1;
        if self.timer > WINDOW_TICKS {
            self.filter_keys();
        }
        self.calculate_wpm();
        proof {
            lemma_zero_padded_push(old(self).wpm_log@, self.wpm);
        }
        let graph_data = self.produce_graph_data();
        let key_freq = crate::rank::rank_table(&self.characters);
        let info_string = summary_line(self.wpm, self.keys_total);
        let alert = self.check_milestone();
        self.sleep_ts_ms = now_ms;
        (UiData { graph_data, info_string, key_freq }, alert)
    }

    /// The current tick.
    pub fn get_timer(&self) -> (t: u64)
        ensures
            t == self.timer,
    {
        self.timer
    }

    /// The cumulative total of `Single` presses this session.
    pub fn get_keys_total(&self) -> (t: u64)
        ensures
            t == self.keys_total,
    {
        self.keys_total
    }

    /// How many events the activity window holds.
    pub fn window_len(&self) -> (n: usize)
        ensures
            n == self.current_keys@.len(),
    {
        self.current_keys.len()
    }
}

/// Law: once the clock has passed the window span, every retained event
/// is younger than 60 ticks.
pub proof fn lemma_window_invariant(p: Processor, i: int)
    requires
        p.wf(),
        p.timer > WINDOW_TICKS,
        0 <= i < p.current_keys@.len(),
    ensures
        p.current_keys@[i].timestamp > p.timer - WINDOW_TICKS,
{
}

/// Law: the throughput history always holds exactly 3600 entries — the
/// samples produced so far, newest last, zero-padded while fewer than
/// 3600 exist.
pub proof fn lemma_history_shape(p: Processor)
    requires
        p.wf(),
    ensures
        p.wpm_circ_buf@.len() == CIRC_BUF_SIZE,
        p.wpm_circ_buf@ == zero_padded(p.wpm_log@),
{
}

/// Law: a milestone fires at most once per total — once an alert has
/// fired at some total, a later tick at that same total owes none.
pub proof fn lemma_milestone_fires_once(notify_keys: Option<u32>, total: u64, last_notify: u64)
    requires
        milestone_due(notify_keys, total, last_notify),
    ensures
        !milestone_due(notify_keys, total, total),
{
}

} // verus!
