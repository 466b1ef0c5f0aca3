//! ACPI PM timer: a counter that runs at 3,579,545 Hz and is 24 or 32 bits
//! wide.
//!
//! The counter itself is read through an I/O port by the caller. This module
//! holds the arithmetic around it: how many ticks a duration takes, at which
//! count a wait ends, and whether a reading shows that the wait is over.

use vstd::arithmetic::div_mod::{
    lemma_add_mod_noop,
    lemma_mod_add_multiples_vanish,
    lemma_sub_mod_noop,
};
use vstd::prelude::*;

verus! {

/// Ticks of the PM timer per second.
pub const FREQUENCY_HZ: usize = 3579545;

/// The timer's I/O port and counter width. Port zero stands for a timer that
/// was not found yet: it reads as zero and every wait on it is over at once.
#[derive(Clone, Copy, Debug, PartialEq, Eq, Structural)]
pub struct AcpiPmTimer {
    pub port: usize,
    pub is_32_bit_counter: bool,
}

/// A wait in progress: the count at which it began, the ticks it lasts and
/// the count at which it ends, on the timer it was started on.
#[derive(Clone, Copy, Debug, PartialEq, Eq, Structural)]
pub struct BusyWait {
    pub timer: AcpiPmTimer,
    pub start: usize,
    pub ticks: usize,
    pub end: usize,
}

impl AcpiPmTimer {
    /// Number of values the counter takes before it wraps to zero.
    pub open spec fn modulus(&self) -> int {
        if self.is_32_bit_counter {
            0x1_0000_0000
        } else {
            0x100_0000
        }
    }

    /// Largest value the counter takes.
    pub open spec fn max_counter_value(&self) -> int {
        self.modulus() - 1
    }

    /// Ticks that pass in `ms` milliseconds, rounded down.
    pub open spec fn ms_ticks(ms: int) -> int {
        FREQUENCY_HZ * ms / 1000
    }

    /// Ticks that pass in `us` microseconds, rounded down.
    pub open spec fn us_ticks(us: int) -> int {
        FREQUENCY_HZ * us / 1_000_000
    }

    /// The count that the port's value `raw` stands for.
    pub open spec fn count_of(&self, raw: u32) -> int {
        if self.port == 0 {
            0
        } else if self.is_32_bit_counter {
            raw as int
        } else {
            (raw % 0x100_0000) as int
        }
    }

    /// The count the counter shows `difference` ticks after it showed `start`.
    pub open spec fn ending_count(&self, start: int, difference: int) -> int {
        (start + difference) % self.modulus()
    }

    /// Ticks the counter advanced from `start` to `now`, if it wrapped at
    /// most once in between.
    pub open spec fn elapsed(&self, start: int, now: int) -> int {
        (now - start) % self.modulus()
    }

    /// A wait of `ms` milliseconds fits the counter.
    pub open spec fn can_wait_ms(&self, ms: int) -> bool {
        Self::ms_ticks(ms) <= self.max_counter_value()
    }

    /// A wait of `us` microseconds fits the counter and lasts at least one
    /// tick.
    pub open spec fn can_wait_us(&self, us: int) -> bool {
        0 < Self::us_ticks(us) <= self.max_counter_value()
    }

    pub fn new(port: usize, is_32_bit_counter: bool) -> (timer: Self)
        ensures
            timer.port == port,
            timer.is_32_bit_counter == is_32_bit_counter,
    {
        Self { port, is_32_bit_counter }
    }

    /// The timer before it was found: port zero, 24 bits.
    pub fn const_new() -> (timer: Self)
        ensures
            timer.port == 0,
            !timer.is_32_bit_counter,
    {
        Self::new(0, false)
    }

    /// The count that the value `raw`, as read from the timer's port, stands
    /// for: zero without a port, else the low 24 or all 32 bits.
    pub fn get_count(&self, raw: u32) -> (count: usize)
        ensures
            count == self.count_of(raw),
    {
        if self.port == 0 {
            0
        } else if self.is_32_bit_counter {
            raw as usize
        } else {
            (raw % 0x100_0000) as usize
        }
    }

    /// The count at which a wait of `difference` ticks that began at `start`
    /// is over: the counter wraps to zero behind its largest value.
    pub fn get_ending_count_value(&self, start: usize, difference: usize) -> (end: usize)
        ensures
            end == self.ending_count(start as int, difference as int),
    {
        proof {
            lemma_add_mod_noop(start as int, difference as int, self.modulus());
        }
        if self.is_32_bit_counter {
            let sum: u64 = (start as u64 % 0x1_0000_0000) + (difference as u64 % 0x1_0000_0000);
            (sum % 0x1_0000_0000) as usize
        } else {
            let sum: u64 = (start as u64 % 0x100_0000) + (difference as u64 % 0x100_0000);
            (sum % 0x100_0000) as usize
        }
    }

    pub fn get_max_counter_value(&self) -> (max: usize)
        ensures
            max == self.max_counter_value(),
    {
        if self.is_32_bit_counter {
            0xffff_ffff
        } else {
            0xff_ffff
        }
    }

    /// Ticks that pass in `ms` milliseconds.
    pub fn ms_to_ticks(ms: usize) -> (ticks: u128)
        ensures
            ticks == Self::ms_ticks(ms as int),
    {
        (FREQUENCY_HZ as u128) * (ms as u128) / 1000
    }

    /// Ticks that pass in `us` microseconds.
    pub fn us_to_ticks(us: usize) -> (ticks: u128)
        ensures
            ticks == Self::us_ticks(us as int),
    {
        (FREQUENCY_HZ as u128) * (us as u128) / 1_000_000
    }

    /// Whether a wait of `ms` milliseconds fits the counter. A wait that
    /// does not is a mistake of the caller: [`Self::busy_wait_ms`] must not
    /// be asked for it.
    pub fn accepts_ms(&self, ms: usize) -> (fits: bool)
        ensures
            fits == self.can_wait_ms(ms as int),
    {
        Self::ms_to_ticks(ms) <= self.get_max_counter_value() as u128
    }

    /// Whether a wait of `us` microseconds fits the counter and lasts at
    /// least one tick. A wait that does not is a mistake of the caller:
    /// [`Self::busy_wait_us`] must not be asked for it.
    pub fn accepts_us(&self, us: usize) -> (fits: bool)
        ensures
            fits == self.can_wait_us(us as int),
    {
        let ticks: u128 = Self::us_to_ticks(us);
        0 < ticks && ticks <= self.get_max_counter_value() as u128
    }

    /// Begins a wait of `ticks` ticks at the port's value `raw`.
    fn begin_wait(&self, raw: u32, ticks: usize) -> (wait: BusyWait)
        ensures
            wait == (BusyWait {
                timer: *self,
                start: self.count_of(raw) as usize,
                ticks,
                end: self.ending_count(self.count_of(raw), ticks as int) as usize,
            }),
    {
        let start = self.get_count(raw);
        BusyWait { timer: *self, start, ticks, end: self.get_ending_count_value(start, ticks) }
    }

    /// Begins a wait of `ms` milliseconds. `raw` is the value just read from
    /// the timer's port. The caller then polls the port and asks
    /// [`BusyWait::is_over`] until the wait is over.
    pub fn busy_wait_ms(&self, raw: u32, ms: usize) -> (wait: BusyWait)
        requires
            self.can_wait_ms(ms as int),
        ensures
            wait == (BusyWait {
                timer: *self,
                start: self.count_of(raw) as usize,
                ticks: Self::ms_ticks(ms as int) as usize,
                end: self.ending_count(self.count_of(raw), Self::ms_ticks(ms as int)) as usize,
            }),
    {
        let ticks: u128 = Self::ms_to_ticks(ms);
        self.begin_wait(raw, ticks as usize)
    }

    /// Begins a wait of `us` microseconds, as [`Self::busy_wait_ms`] does for
    /// milliseconds.
    pub fn busy_wait_us(&self, raw: u32, us: usize) -> (wait: BusyWait)
        requires
            self.can_wait_us(us as int),
        ensures
            wait == (BusyWait {
                timer: *self,
                start: self.count_of(raw) as usize,
                ticks: Self::us_ticks(us as int) as usize,
                end: self.ending_count(self.count_of(raw), Self::us_ticks(us as int)) as usize,
            }),
    {
        let ticks: u128 = Self::us_to_ticks(us);
        self.begin_wait(raw, ticks as usize)
    }
}

impl BusyWait {
    /// The wait is over at the port's value `raw`: the counter advanced by
    /// the wait's ticks or more since it began. A timer without a port never
    /// waits.
    pub open spec fn over_at(&self, raw: u32) -> bool {
        self.timer.port == 0 || self.timer.elapsed(self.start as int, self.timer.count_of(raw))
            >= self.ticks
    }

    /// Whether the wait is over, given the value `raw` just read from the
    /// timer's port.
    pub fn is_over(&self, raw: u32) -> (over: bool)
        ensures
            over == self.over_at(raw),
    {
        if self.timer.port == 0 {
            return true;
        }
        let now: usize = self.timer.get_count(raw);
        proof {
            let m = self.timer.modulus();
            lemma_sub_mod_noop(now as int, self.start as int, m);
            lemma_mod_add_multiples_vanish(((now as int) % m) - ((self.start as int) % m), m);
        }
        let elapsed: u64 = if self.timer.is_32_bit_counter {
            ((now as u64 % 0x1_0000_0000) + 0x1_0000_0000 - (self.start as u64 % 0x1_0000_0000))
                % 0x1_0000_0000
        } else {
            ((now as u64 % 0x100_0000) + 0x100_0000 - (self.start as u64 % 0x100_0000))
                % 0x100_0000
        };
        elapsed >= self.ticks as u64
    }
}

/// After `k` ticks the counter shows the ending count of `k`, and the ticks
/// elapsed at that count are `k`: the ending count is where a wait of `k`
/// ticks is first over, also across one wrap of the counter.
pub proof fn lemma_elapsed_at_ending_count(timer: AcpiPmTimer, start: int, k: int)
    requires
        0 <= start,
        0 <= k <= timer.max_counter_value(),
    ensures
        0 <= timer.ending_count(start, k) <= timer.max_counter_value(),
        timer.elapsed(start, timer.ending_count(start, k)) == k,
{
}

/// A wait that fits the counter is over exactly from its tick count on: at
/// the count reached after `k` ticks it is over if and only if `k` is at
/// least the wait's ticks.
pub proof fn lemma_wait_over_after_ticks(wait: BusyWait, raw: u32, k: int)
    requires
        wait.timer.port != 0,
        wait.ticks <= wait.timer.max_counter_value(),
        0 <= k <= wait.timer.max_counter_value(),
        wait.timer.count_of(raw) == wait.timer.ending_count(wait.start as int, k),
    ensures
        wait.over_at(raw) <==> k >= wait.ticks,
{
}

} // verus!
