//! The temperature that drives the fans: readings of the CPU (and GPU) sensors
//! are averaged over a sliding window of recent samples, and the fans are only
//! driven again when that average moves.
use arraydeque::{ArrayDeque, Wrapping};
use vstd::prelude::*;

use crate::error::Error;
use crate::ring_buffer::{item_at, pushed_all_back, pushed_back};
use crate::text::{parse_u32, parsed_unsigned, trim_end, trimmed_end};

verus! {

/// The averaging window: an `arraydeque::ArrayDeque` of capacity 50 with the
/// wrapping behaviour (pushing into a full deque drops the item at the other
/// end). Its contents are opaque; `window_items` names the samples it holds,
/// and the `window_*` functions below are the only ways in.
#[verifier::external_body]
pub struct TempWindow {
    deque: ArrayDeque<u8, 50, Wrapping>,
}

/// How many samples the averaging window holds.
pub const WINDOW_LEN: usize = 50;

/// How many samples a reading taken after a long sleep counts for.
pub const LONG_SLEEP_WEIGHT: usize = 10;

/// The samples that a window deque holds, front (oldest) first.
pub uninterp spec fn window_items(window: TempWindow) -> Seq<u8>;

/// `ArrayDeque::new`: a deque that holds nothing.
#[verifier::external_body]
fn window_new() -> (res: TempWindow)
    ensures
        window_items(res) == Seq::<u8>::empty(),
{
    TempWindow { deque: ArrayDeque::new() }
}

/// `ArrayDeque::push_back` with the wrapping behaviour: on a deque that holds
/// its capacity (50) the front item is popped and handed back, then the value
/// is added at the back; otherwise the value is added and nothing is returned.
#[verifier::external_body]
fn window_push_back(window: &mut TempWindow, value: u8) -> (evicted: Option<u8>)
    requires
        window_items(*old(window)).len() <= 50,
    ensures
        (window_items(*final(window)), evicted) == pushed_back(window_items(*old(window)), 50, value),
{
    window.deque.push_back(value)
}

/// `ArrayDeque::len`: the number of items held.
#[verifier::external_body]
fn window_len(window: &TempWindow) -> (res: usize)
    ensures
        res == window_items(*window).len(),
{
    window.deque.len()
}

/// `ArrayDeque::get`: the item at `index` counted from the front, if any.
#[verifier::external_body]
fn window_get(window: &TempWindow, index: usize) -> (res: Option<u8>)
    ensures
        res == item_at(window_items(*window), index as int),
{
    window.deque.get(index).copied()
}

/// The sum of the samples.
pub open spec fn sum_temps(s: Seq<u8>) -> nat
    decreases s.len(),
{
    if s.len() == 0 {
        0
    } else {
        sum_temps(s.drop_last()) + s.last() as nat
    }
}

/// The integer mean of the samples (rounded down); 0 for no samples.
pub open spec fn mean_temp(s: Seq<u8>) -> nat {
    if s.len() == 0 {
        0
    } else {
        sum_temps(s) / s.len()
    }
}

/// `count` copies of `temp`.
pub open spec fn repeated(temp: u8, count: nat) -> Seq<u8> {
    Seq::new(count, |i: int| temp)
}

/// The window after a reading: the reading is added once, or
/// `LONG_SLEEP_WEIGHT` times when it follows a long sleep, and the window
/// keeps the latest `WINDOW_LEN` samples.
pub open spec fn window_after(window: Seq<u8>, temp: u8, after_long_sleep: bool) -> Seq<u8> {
    pushed_all_back(
        window,
        WINDOW_LEN as nat,
        repeated(temp, if after_long_sleep { LONG_SLEEP_WEIGHT as nat } else { 1 }),
    )
}

/// What the daemon does after a reading.
#[derive(Debug, Clone, Copy, PartialEq, Eq, Structural)]
pub enum TempAction {
    /// The mean did not change: leave the fans alone and sleep for a second.
    Wait,
    /// The mean moved to this temperature: drive every fan for it, then sleep briefly.
    Apply(u8),
}

/// The averaging state of the daemon's main loop.
pub struct TempMonitor {
    last_temp: u8,
    temps: TempWindow,
    was_long_sleep: bool,
}

impl TempMonitor {
    /// The samples in the window, oldest first.
    pub closed spec fn window(&self) -> Seq<u8> {
        window_items(self.temps)
    }

    /// The mean that the fans were last driven for (0 before any).
    pub closed spec fn last_mean(&self) -> u8 {
        self.last_temp
    }

    /// Whether the last step slept long.
    pub closed spec fn slept_long(&self) -> bool {
        self.was_long_sleep
    }

    pub open spec fn wf(&self) -> bool {
        self.window().len() <= WINDOW_LEN
    }

    #[verifier::type_invariant]
    spec fn window_fits(self) -> bool {
        window_items(self.temps).len() <= WINDOW_LEN
    }

    /// A monitor with an empty window, no mean yet (0) and no long sleep.
    pub fn new() -> (res: Self)
        ensures
            res.wf(),
            res.window() == Seq::<u8>::empty(),
            res.last_mean() == 0,
            !res.slept_long(),
    {
        TempMonitor { last_temp: 0, temps: window_new(), was_long_sleep: false }
    }

    pub fn last_temp(&self) -> (res: u8)
        ensures
            res == self.last_mean(),
    {
        self.last_temp
    }

    pub fn was_long_sleep(&self) -> (res: bool)
        ensures
            res == self.slept_long(),
    {
        self.was_long_sleep
    }

    /// The number of samples in the window.
    pub fn window_len(&self) -> (res: usize)
        ensures
            res == self.window().len(),
            self.wf(),
    {
        proof {
            use_type_invariant(self);
        }
        window_len(&self.temps)
    }

    /// Takes one reading into the window and decides what to do: when the
    /// mean of the window equals the mean the fans were last driven for, wait
    /// (a long sleep); else drive the fans for the new mean (a short sleep).
    pub fn record(&mut self, temp: u8) -> (action: TempAction)
        ensures
            final(self).wf(),
            final(self).window() == window_after(old(self).window(), temp, old(self).slept_long()),
            final(self).window().len() > 0,
            mean_temp(final(self).window()) <= 255,
            action == (if mean_temp(final(self).window()) == old(self).last_mean() {
                TempAction::Wait
            } else {
                TempAction::Apply(mean_temp(final(self).window()) as u8)
            }),
            final(self).last_mean() == mean_temp(final(self).window()),
            final(self).slept_long() == (action == TempAction::Wait),
    {
        proof {
            use_type_invariant(&*self);
        }
        let ghost start = self.window();
        let mut temps = window_new();
        std::mem::swap(&mut temps, &mut self.temps);
        proof {
            assert(repeated(temp, 1).drop_last() =~= Seq::<u8>::empty());
            assert(repeated(temp, 1).last() == temp);
        }
        window_push_back(&mut temps, temp);
        proof {
            assert(pushed_all_back(start, WINDOW_LEN as nat, Seq::<u8>::empty()) == start);
            assert(window_items(temps) == pushed_all_back(start, WINDOW_LEN as nat, repeated(temp, 1)));
        }
        if self.was_long_sleep {
            let mut k: usize = 1;
            while k < LONG_SLEEP_WEIGHT
                invariant
                    1 <= k <= LONG_SLEEP_WEIGHT,
                    window_items(temps) == pushed_all_back(start, WINDOW_LEN as nat, repeated(temp, k as nat)),
                    window_items(temps).len() <= WINDOW_LEN,
                decreases LONG_SLEEP_WEIGHT - k,
            {
                proof {
                    assert(repeated(temp, (k + 1) as nat).drop_last() =~= repeated(temp, k as nat));
                    assert(repeated(temp, (k + 1) as nat).last() == temp);
                }
                window_push_back(&mut temps, temp);
                proof {
                    assert(window_items(temps) == pushed_all_back(start, WINDOW_LEN as nat, repeated(temp, (k + 1) as nat)));
                }
                k = k + 1;
            }
        }
        let len = window_len(&temps);
        let ghost items = window_items(temps);
        let mut sum: u32 = 0;
        let mut i: usize = 0;
        while i < len
            invariant
                len == items.len(),
                len <= WINDOW_LEN,
                items == window_items(temps),
                i <= len,
                sum == sum_temps(items.take(i as int)),
                sum <= 255 * i,
            decreases len - i,
        {
            let t = match window_get(&temps, i) {
                Some(t) => t,
                None => 0,
            };
            proof {
                assert(items.take(i + 1).drop_last() =~= items.take(i as int));
            }
            sum = sum + t as u32;
            i = i + 1;
        }
        proof {
            assert(items.take(len as int) =~= items);
            lemma_mean_fits(sum as nat, len as nat);
        }
        let mean = sum / (len as u32);
        let mean = mean as u8;
        self.temps = temps;
        if mean == self.last_temp {
            self.was_long_sleep = true;
            TempAction::Wait
        } else {
            self.last_temp = mean;
            self.was_long_sleep = false;
            TempAction::Apply(mean)
        }
    }
}

proof fn lemma_mean_fits(sum: nat, len: nat)
    requires
        len > 0,
        sum <= 255 * len,
    ensures
        sum / len <= 255,
{
    assert(sum / len <= 255) by (nonlinear_arith)
        requires
            len > 0,
            sum <= 255 * len,
    ;
}

proof fn lemma_sum_between(items: Seq<u8>, lo: nat, hi: nat)
    requires
        forall|i: int| 0 <= i < items.len() ==> lo <= #[trigger] items[i] <= hi,
    ensures
        lo * items.len() <= sum_temps(items) <= hi * items.len(),
    decreases items.len(),
{
    if items.len() > 0 {
        let prefix = items.drop_last();
        assert forall|i: int| 0 <= i < prefix.len() implies lo <= #[trigger] prefix[i] <= hi by {
            assert(prefix[i] == items[i]);
        }
        lemma_sum_between(prefix, lo, hi);
        assert(lo <= items.last() <= hi) by {
            assert(items.last() == items[items.len() - 1]);
        }
        assert(lo * items.len() == lo * prefix.len() + lo) by (nonlinear_arith)
            requires
                items.len() == prefix.len() + 1,
        ;
        assert(hi * items.len() == hi * prefix.len() + hi) by (nonlinear_arith)
            requires
                items.len() == prefix.len() + 1,
        ;
    }
}

/// The mean of a window of readings lies between the lowest and the highest
/// reading: averaging never invents a temperature outside what was measured.
pub proof fn lemma_mean_between(items: Seq<u8>, lo: nat, hi: nat)
    requires
        items.len() > 0,
        forall|i: int| 0 <= i < items.len() ==> lo <= #[trigger] items[i] <= hi,
    ensures
        lo <= mean_temp(items) <= hi,
{
    lemma_sum_between(items, lo, hi);
    let n = items.len();
    let s = sum_temps(items);
    assert(lo <= s / n <= hi) by (nonlinear_arith)
        requires
            n > 0,
            lo * n <= s <= hi * n,
    ;
}

/// A reading that does not follow a long sleep enters the window once: it is
/// added at the end, and the oldest reading leaves only when the window is
/// already full.
pub proof fn lemma_short_sleep_reading_enters_once(window: Seq<u8>, temp: u8)
    requires
        window.len() <= WINDOW_LEN,
    ensures
        window.len() < WINDOW_LEN ==> window_after(window, temp, false) == window.push(temp),
        window.len() == WINDOW_LEN ==> window_after(window, temp, false) == window.drop_first().push(temp),
        window_after(window, temp, false).len() == if window.len() < WINDOW_LEN {
            window.len() + 1
        } else {
            WINDOW_LEN as nat
        },
{
    assert(repeated(temp, 1).drop_last() =~= Seq::<u8>::empty());
    assert(repeated(temp, 1).last() == temp);
    assert(pushed_all_back(window, WINDOW_LEN as nat, Seq::<u8>::empty()) == window);
}

/// A reading that follows a long sleep enters the window ten times: the
/// window then holds the latest 50 of its old readings followed by ten
/// copies of the new one.
pub proof fn lemma_long_sleep_reading_enters_ten_times(window: Seq<u8>, temp: u8)
    requires
        window.len() <= WINDOW_LEN,
    ensures
        ({
            let all = window + Seq::new(10, |i: int| temp);
            &&& all.len() <= WINDOW_LEN ==> window_after(window, temp, true) == all
            &&& all.len() > WINDOW_LEN ==> window_after(window, temp, true) == all.subrange(
                all.len() - WINDOW_LEN,
                all.len() as int,
            )
        }),
{
    crate::ring_buffer::lemma_keeps_latest(window, WINDOW_LEN as nat, repeated(temp, LONG_SLEEP_WEIGHT as nat));
    assert(repeated(temp, LONG_SLEEP_WEIGHT as nat) =~= Seq::new(10, |i: int| temp));
}

/// The mean the fans are driven for is the sum of the window's readings
/// divided by their number, rounded down.
pub proof fn lemma_mean_is_floor_average(items: Seq<u8>)
    requires
        items.len() > 0,
    ensures
        mean_temp(items) * items.len() <= sum_temps(items) < (mean_temp(items) + 1) * items.len(),
{
    let n = items.len();
    let s = sum_temps(items);
    assert((s / n) * n <= s < (s / n + 1) * n) by (nonlinear_arith)
        requires
            n > 0,
    ;
}

/// A reading that follows a long sleep fills the newest `LONG_SLEEP_WEIGHT`
/// places of the window, so that the long-sleep sample is not
/// under-represented.
pub proof fn lemma_long_sleep_weight(window: Seq<u8>, temp: u8)
    requires
        window.len() <= WINDOW_LEN,
    ensures
        ({
            let after = window_after(window, temp, true);
            &&& after.len() >= LONG_SLEEP_WEIGHT
            &&& forall|i: int| after.len() - LONG_SLEEP_WEIGHT <= i < after.len() ==> #[trigger] after[i] == temp
        }),
{
    let rep = repeated(temp, LONG_SLEEP_WEIGHT as nat);
    crate::ring_buffer::lemma_keeps_latest(window, WINDOW_LEN as nat, rep);
    let all = window + rep;
    let after = window_after(window, temp, true);
    assert(after == crate::ring_buffer::latest(all, WINDOW_LEN as nat));
    assert forall|i: int| after.len() - LONG_SLEEP_WEIGHT <= i < after.len() implies #[trigger] after[i] == temp by {
        if all.len() <= WINDOW_LEN {
            assert(after[i] == all[i]);
        } else {
            assert(after[i] == all[all.len() - WINDOW_LEN + i]);
        }
    }
}

/// The temperature the fans follow: the hotter of the CPU and the GPU, or the
/// CPU alone when there is no GPU sensor.
pub fn combined_temp(cpu: u8, gpu: Option<u8>) -> (res: u8)
    ensures
        res == (match gpu {
            Some(g) => if g > cpu { g } else { cpu },
            None => cpu,
        }),
{
    match gpu {
        Some(g) => if g > cpu { g } else { cpu },
        None => cpu,
    }
}

/// Reads a sensor's text (millidegrees Celsius, as the kernel writes them):
/// trailing whitespace is dropped, the rest must be a `u32`, and the result
/// is in whole degrees, which must fit in a `u8`.
pub fn parse_temperature(text: &str) -> (res: Result<u8, Error>)
    ensures
        match parsed_unsigned(trimmed_end(text@), u32::MAX as nat) {
            None => res matches Err(Error::TempParse(_)),
            Some(t) => if t / 1000 <= 255 {
                res == Ok::<u8, Error>((t / 1000) as u8)
            } else {
                res matches Err(Error::TempCast(_))
            },
        },
{
    let t = match parse_u32(trim_end(text)) {
        Ok(t) => t,
        Err(e) => return Err(Error::TempParse(e)),
    };
    match u8::try_from(t / 1000) {
        Ok(v) => Ok(v),
        Err(e) => Err(Error::TempCast(e)),
    }
}

} // verus!
