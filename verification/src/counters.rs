//! The two counters as a plain value, and the wraparound arithmetic on them.

use vstd::prelude::*;
use vstd::arithmetic::div_mod::{
    lemma_add_mod_noop, lemma_fundamental_div_mod_converse_mod, lemma_mod_bound, lemma_small_mod,
    lemma_sub_mod_noop,
};

verus! {

/// The number of values a counter can take: one more than the largest `usize`.
pub open spec fn modulus() -> int {
    usize::MAX + 1
}

/// Where `written` stands after `amount` more events, counted modulo [`modulus`].
pub open spec fn advanced(written: int, amount: int) -> int {
    (written + amount) % modulus()
}

/// The events between `consumed` and `written`, counted modulo [`modulus`].
pub open spec fn gap(written: int, consumed: int) -> int {
    (written - consumed) % modulus()
}

/// Adds `amount` to `written`, wrapping around at the counter's width.
pub fn advance(written: usize, amount: usize) -> (next: usize)
    ensures
        next == advanced(written as int, amount as int),
        written + amount < modulus() ==> next == written + amount,
        written + amount >= modulus() ==> next == written + amount - modulus(),
{
    proof {
        let sum = written + amount;
        if sum > usize::MAX {
            lemma_fundamental_div_mod_converse_mod(sum, modulus(), 1, sum - modulus());
        } else {
            lemma_fundamental_div_mod_converse_mod(sum, modulus(), 0, sum);
        }
    }
    written.wrapping_add(amount)
}

/// The distance from `consumed` up to `written`, wrapping around at the
/// counter's width: the number of events written since `consumed` was taken,
/// as long as fewer than [`modulus`] of them were.
pub fn pending(written: usize, consumed: usize) -> (delta: usize)
    ensures
        delta == gap(written as int, consumed as int),
        written >= consumed ==> delta == written - consumed,
        written < consumed ==> delta == written - consumed + modulus(),
{
    proof {
        let difference = written - consumed;
        if difference < 0 {
            lemma_fundamental_div_mod_converse_mod(difference, modulus(), -1, difference + modulus());
        } else {
            lemma_fundamental_div_mod_converse_mod(difference, modulus(), 0, difference);
        }
    }
    written.wrapping_sub(consumed)
}

/// The state of a semaphore at one moment.
#[derive(Clone, Copy, Debug, PartialEq, Eq, Structural)]
pub struct Counters {
    /// Everything the writer has added, modulo [`modulus`].
    pub written: usize,
    /// The value of `written` that the reader saw last.
    pub consumed: usize,
}

/// One step of a run on a semaphore.
#[derive(Clone, Copy, Debug, PartialEq, Eq)]
pub enum Step {
    /// The writer adds an amount.
    Write(usize),
    /// The reader drains what is pending.
    Read,
}

impl Counters {
    /// The state that a semaphore starts in: both counters at zero.
    pub open spec fn fresh() -> Counters {
        Counters { written: 0, consumed: 0 }
    }

    /// The amount that the next read returns.
    pub open spec fn pending(self) -> int {
        gap(self.written as int, self.consumed as int)
    }

    /// The state after the writer has added `amount`.
    pub open spec fn after_write(self, amount: usize) -> Counters {
        Counters {
            written: advanced(self.written as int, amount as int) as usize,
            consumed: self.consumed,
        }
    }

    /// The state after the reader has drained it.
    pub open spec fn after_read(self) -> Counters {
        Counters { written: self.written, consumed: self.written }
    }

    /// The state after the writer has added each of `amounts` in turn.
    pub open spec fn after_writes(self, amounts: Seq<usize>) -> Counters
        decreases amounts.len(),
    {
        if amounts.len() == 0 {
            self
        } else {
            self.after_writes(amounts.drop_last()).after_write(amounts.last())
        }
    }

    /// The state after `steps`, taken in turn.
    pub open spec fn after_steps(self, steps: Seq<Step>) -> Counters
        decreases steps.len(),
    {
        if steps.len() == 0 {
            self
        } else {
            let before = self.after_steps(steps.drop_last());
            match steps.last() {
                Step::Write(amount) => before.after_write(amount),
                Step::Read => before.after_read(),
            }
        }
    }

    /// The sum of what the reads among `steps` return, without wrapping.
    pub open spec fn drained(self, steps: Seq<Step>) -> int
        decreases steps.len(),
    {
        if steps.len() == 0 {
            0
        } else {
            let before = self.after_steps(steps.drop_last());
            match steps.last() {
                Step::Write(_) => self.drained(steps.drop_last()),
                Step::Read => self.drained(steps.drop_last()) + before.pending(),
            }
        }
    }

    /// Both counters at zero: nothing written, nothing pending.
    pub fn new() -> (counters: Counters)
        ensures
            counters == Counters::fresh(),
            counters.pending() == 0,
    {
        proof {
            lemma_nothing_pending_once_read(0);
        }
        Counters { written: 0, consumed: 0 }
    }

    /// Adds `amount` to the written count, wrapping around.
    pub fn write(&mut self, amount: usize)
        ensures
            *final(self) == old(self).after_write(amount),
            final(self).written == advanced(old(self).written as int, amount as int),
            final(self).consumed == old(self).consumed,
            final(self).pending() == advanced(old(self).pending(), amount as int),
            old(self).pending() + amount < modulus() ==> final(self).pending() == old(self).pending()
                + amount,
    {
        proof {
            lemma_write_adds_to_pending(*self, amount);
            lemma_pending_in_range(*self);
            if self.pending() + amount < modulus() {
                lemma_small_mod((self.pending() + amount) as nat, modulus() as nat);
            }
        }
        self.written = advance(self.written, amount);
    }

    /// Returns what is pending and marks it as consumed.
    pub fn read(&mut self) -> (delta: usize)
        ensures
            delta == old(self).pending(),
            *final(self) == old(self).after_read(),
            final(self).written == old(self).written,
            final(self).consumed == old(self).written,
            final(self).pending() == 0,
    {
        proof {
            lemma_nothing_pending_once_read(self.written);
        }
        let delta = pending(self.written, self.consumed);
        self.consumed = self.written;
        delta
    }
}

/// Nothing is pending where the reader has seen all that was written.
pub proof fn lemma_nothing_pending_once_read(written: usize)
    ensures
        gap(written as int, written as int) == 0,
{
    lemma_small_mod(0, modulus() as nat);
}

/// What is pending lies within the counter's range.
pub proof fn lemma_pending_in_range(counters: Counters)
    ensures
        0 <= counters.pending() < modulus(),
{
    lemma_mod_bound(counters.written - counters.consumed, modulus());
}

/// A write adds its amount to what is pending, modulo the counter's range.
pub proof fn lemma_write_adds_to_pending(counters: Counters, amount: usize)
    ensures
        counters.after_write(amount).pending() == advanced(counters.pending(), amount as int),
{
    let m = modulus();
    let w = counters.written as int;
    let c = counters.consumed as int;
    let a = amount as int;
    lemma_mod_bound(w + a, m);
    // ((w + a) % m - c) % m == (w + a - c) % m
    lemma_sub_mod_noop(w + a, c, m);
    lemma_small_mod(c as nat, m as nat);
    // ((w - c) % m + a) % m == (w - c + a) % m
    lemma_add_mod_noop(w - c, a, m);
    lemma_small_mod(a as nat, m as nat);
}

/// A drained amount read as a signed number of the counter's width: the upper
/// half of the range stands for the negative numbers.
pub open spec fn signed(delta: int) -> int {
    if delta <= isize::MAX {
        delta
    } else {
        delta - modulus()
    }
}

/// The sum of `amounts`, without wrapping.
pub open spec fn total(amounts: Seq<usize>) -> int
    decreases amounts.len(),
{
    if amounts.len() == 0 {
        0
    } else {
        total(amounts.drop_last()) + amounts.last()
    }
}

/// The sum of the amounts that the writes among `steps` add, without wrapping.
pub open spec fn written_in(steps: Seq<Step>) -> int
    decreases steps.len(),
{
    if steps.len() == 0 {
        0
    } else {
        match steps.last() {
            Step::Write(amount) => written_in(steps.drop_last()) + amount,
            Step::Read => written_in(steps.drop_last()),
        }
    }
}

} // verus!
