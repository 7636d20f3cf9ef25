//! The slot allocator: maps a form's window, capacity and a 1-based
//! sequence position to a deterministic arrival instant.
//!
//! The window keeps one slot-duration in reserve so the last assignable
//! slot does not run past the end; the computed instant is nudged one
//! second back and then floored to a slot boundary aligned to absolute
//! time, so it lands on the start of the intended slot.

use vstd::prelude::*;

use crate::form::{Form, FormModel, form_valid};
use vstd::arithmetic::div_mod::{
    lemma_div_is_ordered, lemma_div_multiples_vanish, lemma_fundamental_div_mod,
    lemma_mod_division_less_than_divisor, lemma_div_pos_is_pos, lemma_div_by_self,
};
use vstd::arithmetic::mul::{lemma_mul_inequality, lemma_mul_upper_bound,
    lemma_mul_left_inequality};

verus! {

/// Seconds of the window that positions are spread over: the window minus
/// one reserved slot-duration.
pub open spec fn usable_span(start: int, end: int, duration: int) -> int {
    end - start - duration
}

/// The instant one second before `position`'s boundary inside the window.
pub open spec fn raw_instant(
    start: int,
    end: int,
    duration: int,
    capacity: int,
    position: int,
) -> int {
    start + (position * usable_span(start, end, duration)) / capacity - 1
}

/// The assigned arrival instant: the raw instant floored down to the
/// nearest multiple of `duration` since the epoch.
pub open spec fn slot_instant(
    start: int,
    end: int,
    duration: int,
    capacity: int,
    position: int,
) -> int {
    let raw = raw_instant(start, end, duration, capacity, position);
    raw - (raw % duration)
}

/// The arrival instant of `position` inside `f`'s window.
pub open spec fn slot_of_form(f: FormModel, position: int) -> int {
    slot_instant(
        f.start_date as int,
        f.end_date as int,
        f.time_frame_duration as int,
        f.limit as int,
        position,
    )
}

/// Computes the arrival instant for the submission at `order` (1-based)
/// in `form`.  Pure and deterministic: re-deriving it from the stored form
/// fields reproduces the same instant.
pub fn calculate_arrival_date(form: &Form, order: u16) -> (r: u64)
    requires
        form_valid(form@),
        1 <= order <= form.limit,
    ensures
        r as int == slot_of_form(form@, order as int),
{
    let span: u64 = form.end_date - form.start_date - (form.time_frame_duration as u64);
    proof {
        lemma_mul_upper_bound(order as int, 0xFFFF, span as int, crate::MAX_EPOCH_SECONDS as int);
    }
    let scaled: u64 = (order as u64) * span;
    let offset: u64 = scaled / (form.limit as u64);
    proof {
        // a window starting at the epoch has a span covering the capacity,
        // so even the first position's offset is at least one second
        if form.start_date == 0 {
            lemma_mul_inequality(1, order as int, span as int);
            lemma_div_is_ordered(span as int, (order as int) * (span as int), form.limit as int);
            lemma_div_is_ordered(form.limit as int, span as int, form.limit as int);
            lemma_div_by_self(form.limit as int);
        }
    }
    let exact: u64 = form.start_date + offset - 1;
    let rem: u64 = exact % (form.time_frame_duration as u64);
    proof {
        vstd::arithmetic::div_mod::lemma_mod_decreases(exact as nat,
            form.time_frame_duration as nat);
    }
    exact - rem
}

/// For a fixed form the allocator is monotonically non-decreasing in the
/// position: a later position is never assigned an earlier instant.
pub proof fn lemma_slot_monotonic(f: FormModel, p1: int, p2: int)
    requires
        form_valid(f),
        1 <= p1 <= p2 <= f.limit,
    ensures
        slot_of_form(f, p1) <= slot_of_form(f, p2),
{
    let start = f.start_date as int;
    let end = f.end_date as int;
    let dur = f.time_frame_duration as int;
    let cap = f.limit as int;
    let span = usable_span(start, end, dur);
    lemma_mul_inequality(p1, p2, span);
    lemma_div_is_ordered(p1 * span, p2 * span, cap);
    let raw1 = raw_instant(start, end, dur, cap, p1);
    let raw2 = raw_instant(start, end, dur, cap, p2);
    assert(raw1 <= raw2);
    lemma_fundamental_div_mod(raw1, dur);
    lemma_fundamental_div_mod(raw2, dur);
    lemma_div_is_ordered(raw1, raw2, dur);
    lemma_mul_left_inequality(dur, raw1 / dur, raw2 / dur);
}

/// Every position in 1..=capacity is assigned an instant strictly before
/// the end of the window.
pub proof fn lemma_slot_before_end(f: FormModel, p: int)
    requires
        form_valid(f),
        1 <= p <= f.limit,
    ensures
        slot_of_form(f, p) < f.end_date,
{
    let start = f.start_date as int;
    let end = f.end_date as int;
    let dur = f.time_frame_duration as int;
    let cap = f.limit as int;
    let span = usable_span(start, end, dur);
    lemma_mul_inequality(p, cap, span);
    lemma_div_multiples_vanish(span, cap);
    lemma_div_is_ordered(p * span, cap * span, cap);
    let raw = raw_instant(start, end, dur, cap, p);
    assert(raw <= start + span - 1);
    lemma_mod_division_less_than_divisor(raw, dur);
    assert(slot_of_form(f, p) <= raw);
}

/// When the window start sits on a slot boundary and the usable span is at
/// least the capacity, every position is assigned an instant at or after
/// the start of the window.
pub proof fn lemma_slot_at_or_after_start(f: FormModel, p: int)
    requires
        form_valid(f),
        1 <= p <= f.limit,
        f.start_date as int % (f.time_frame_duration as int) == 0,
        usable_span(f.start_date as int, f.end_date as int, f.time_frame_duration as int)
            >= f.limit,
    ensures
        f.start_date <= slot_of_form(f, p),
{
    let start = f.start_date as int;
    let end = f.end_date as int;
    let dur = f.time_frame_duration as int;
    let cap = f.limit as int;
    let span = usable_span(start, end, dur);
    lemma_mul_inequality(1, p, span);
    lemma_div_is_ordered(1 * span, p * span, cap);
    lemma_div_by_self(cap);
    lemma_div_is_ordered(cap, span, cap);
    let raw = raw_instant(start, end, dur, cap, p);
    assert(raw >= start);
    lemma_fundamental_div_mod(raw, dur);
    lemma_fundamental_div_mod(start, dur);
    lemma_div_is_ordered(start, raw, dur);
    lemma_mul_left_inequality(dur, start / dur, raw / dur);
    lemma_mod_division_less_than_divisor(raw, dur);
}

} // verus!
