//! The slot allocator on concrete forms: exact boundaries, ordering and
//! window bounds.

use intake::form::{Form, FormStatus};
use intake::slots::calculate_arrival_date;

fn form(start: u64, end: u64, duration: u16, limit: u16) -> Form {
    Form {
        id: 1,
        name: "intake".to_string(),
        limit,
        status: FormStatus::Open,
        time_frame_duration: duration,
        start_date: start,
        end_date: end,
        created_at: start,
        exclude_form_ids: Vec::new(),
    }
}

// Capacity 3, slot 600 s, a 1800 s window: the usable span is 1200 s and
// the three positions land on the exact slot boundaries.
#[test]
fn three_slots_in_a_half_hour_window() {
    let t: u64 = 1_700_000_400; // a multiple of 600
    let f = form(t, t + 1800, 600, 3);
    // position 1: offset 400, nudged to t+399, floored to t
    assert_eq!(calculate_arrival_date(&f, 1), t);
    // position 2: offset 800, nudged to t+799, floored to t+600
    assert_eq!(calculate_arrival_date(&f, 2), t + 600);
    // position 3: offset 1200, nudged to t+1199, floored to t+600 < end
    assert_eq!(calculate_arrival_date(&f, 3), t + 600);
}

#[test]
fn slots_never_decrease_with_position() {
    let t: u64 = 1_700_006_400;
    let f = form(t, t + 36_000, 900, 24);
    let mut last = 0u64;
    for position in 1..=24u16 {
        let slot = calculate_arrival_date(&f, position);
        assert!(slot >= last, "position {} went backwards", position);
        last = slot;
    }
}

#[test]
fn slots_stay_inside_the_window_when_start_is_aligned() {
    let t: u64 = 1_700_006_400; // a multiple of 900
    let f = form(t, t + 36_000, 900, 24);
    for position in 1..=24u16 {
        let slot = calculate_arrival_date(&f, position);
        assert!(slot >= t);
        assert!(slot < t + 36_000);
    }
}

#[test]
fn reassigning_the_same_position_reproduces_the_instant() {
    let t: u64 = 1_699_999_200;
    let f = form(t, t + 7200, 300, 10);
    for position in 1..=10u16 {
        assert_eq!(
            calculate_arrival_date(&f, position),
            calculate_arrival_date(&f, position)
        );
    }
}

#[test]
fn single_slot_form_assigns_its_only_position() {
    let t: u64 = 1_700_000_400;
    let f = form(t, t + 1200, 600, 1);
    let slot = calculate_arrival_date(&f, 1);
    assert!(slot < t + 1200);
}

#[test]
fn late_epoch_window_still_computes() {
    // near the largest instant the core accepts
    let end: u64 = 0x4000_0000_0000;
    let start = end - 86_400;
    let f = form(start, end, 3600, 100);
    for position in [1u16, 50, 100] {
        let slot = calculate_arrival_date(&f, position);
        assert!(slot < end);
    }
}

// The same three positions measured from the epoch itself: the window
// starts at instant 0 and the boundaries fall on 0, 600 and 600.
#[test]
fn three_slots_starting_at_the_epoch() {
    let f = form(0, 1800, 600, 3);
    assert_eq!(calculate_arrival_date(&f, 1), 0);
    assert_eq!(calculate_arrival_date(&f, 2), 600);
    assert_eq!(calculate_arrival_date(&f, 3), 600);
    for position in 1..=3u16 {
        assert!(calculate_arrival_date(&f, position) < 1800);
    }
}
