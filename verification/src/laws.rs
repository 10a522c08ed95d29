//! What holds of every run of writes and reads.

use vstd::prelude::*;
use vstd::arithmetic::div_mod::{
    lemma_add_mod_noop, lemma_add_mod_noop_right, lemma_mod_bound, lemma_small_mod,
};
use crate::counters::{
    lemma_nothing_pending_once_read, lemma_write_adds_to_pending, modulus, signed, total,
    written_in, Counters, Step,
};

verus! {

/// A sum of amounts is never negative.
pub proof fn lemma_total_is_natural(amounts: Seq<usize>)
    ensures
        total(amounts) >= 0,
    decreases amounts.len(),
{
    if amounts.len() > 0 {
        lemma_total_is_natural(amounts.drop_last());
    }
}

/// Any run of writes adds the sum of its amounts to what is pending, modulo the
/// counter's range, whatever was pending before and however often the written
/// count wrapped on the way.
pub proof fn lemma_writes_add_to_pending(start: Counters, amounts: Seq<usize>)
    ensures
        start.after_writes(amounts).pending() == (start.pending() + total(amounts)) % modulus(),
        start.after_writes(amounts).consumed == start.consumed,
    decreases amounts.len(),
{
    let m = modulus();
    if amounts.len() == 0 {
        lemma_mod_bound(start.written - start.consumed, m);
        lemma_small_mod(start.pending() as nat, m as nat);
    } else {
        let before = start.after_writes(amounts.drop_last());
        let sum = start.pending() + total(amounts.drop_last());
        let last = amounts.last() as int;
        lemma_writes_add_to_pending(start, amounts.drop_last());
        lemma_write_adds_to_pending(before, amounts.last());
        // (sum % m + last) % m == (sum + last) % m
        lemma_add_mod_noop(sum, last, m);
        lemma_small_mod(last as nat, m as nat);
    }
}

/// After any run of writes that starts with nothing pending, a read returns the
/// sum of the amounts modulo the counter's range: the sum itself where it is
/// below that range.
pub proof fn lemma_read_returns_sum_of_writes(start: Counters, amounts: Seq<usize>)
    requires
        start.pending() == 0,
    ensures
        start.after_writes(amounts).pending() == total(amounts) % modulus(),
        total(amounts) < modulus() ==> start.after_writes(amounts).pending() == total(amounts),
{
    lemma_writes_add_to_pending(start, amounts);
    lemma_total_is_natural(amounts);
    if total(amounts) < modulus() {
        lemma_small_mod(total(amounts) as nat, modulus() as nat);
    }
}

/// The first read of a new semaphore, with no write before it, returns zero.
pub proof fn lemma_first_read_is_zero()
    ensures
        Counters::fresh().pending() == 0,
        Counters::fresh().after_read() == Counters::fresh(),
{
    lemma_nothing_pending_once_read(0);
}

/// A read that follows a read, with no write between them, returns zero and
/// changes nothing.
pub proof fn lemma_second_read_is_zero(counters: Counters)
    ensures
        counters.after_read().pending() == 0,
        counters.after_read().after_read() == counters.after_read(),
{
    lemma_nothing_pending_once_read(counters.written);
}

/// Read as a signed number, what a read returns is not negative, and is the
/// sum of the writes since the last read, as long as that sum fits in the
/// non-negative half of the counter's range.
pub proof fn lemma_signed_delta_is_not_negative(start: Counters, amounts: Seq<usize>)
    requires
        start.pending() == 0,
        total(amounts) <= isize::MAX,
    ensures
        signed(start.after_writes(amounts).pending()) == total(amounts),
        signed(start.after_writes(amounts).pending()) >= 0,
{
    lemma_read_returns_sum_of_writes(start, amounts);
    lemma_total_is_natural(amounts);
}

/// Over any run of writes and reads, in any order, nothing is lost and nothing
/// is counted twice: what the reads returned and what is still pending add up
/// to what was pending at the start and what the writes added, modulo the
/// counter's range.
pub proof fn lemma_reads_account_for_writes(start: Counters, steps: Seq<Step>)
    ensures
        (start.drained(steps) + start.after_steps(steps).pending()) % modulus() == (start.pending()
            + written_in(steps)) % modulus(),
    decreases steps.len(),
{
    let m = modulus();
    if steps.len() > 0 {
        let earlier = steps.drop_last();
        let before = start.after_steps(earlier);
        let accounted = start.drained(earlier) + before.pending();
        let owed = start.pending() + written_in(earlier);
        lemma_reads_account_for_writes(start, earlier);
        match steps.last() {
            Step::Write(amount) => {
                lemma_write_adds_to_pending(before, amount);
                lemma_add_mod_noop_right(start.drained(earlier), before.pending() + amount, m);
                lemma_add_mod_noop(accounted, amount as int, m);
                lemma_add_mod_noop(owed, amount as int, m);
            },
            Step::Read => {
                lemma_nothing_pending_once_read(before.written);
            },
        }
    }
}

} // verus!
