//! The sliding-window counter that the rate-limit tables keep: a count for the
//! current window, the count of the window before it, and when the current
//! window started.

use vstd::prelude::*;

verus! {

/// More than one window has passed since `updated_at`.
pub open spec fn window_passed(updated_at: i64, now: i64, window: i64) -> bool {
    window < now - updated_at
}

/// More than two windows have passed since `updated_at`.
pub open spec fn two_windows_passed(updated_at: i64, now: i64, window: i64) -> bool {
    2 * window < now - updated_at
}

/// The count of the current window after one more hit at `now`.
pub open spec fn next_window_count(window_count: i64, updated_at: i64, now: i64, window: i64) -> int {
    if window_passed(updated_at, now, window) {
        1
    } else {
        window_count + 1
    }
}

/// The count of the previous window after one more hit at `now`: the old
/// current count when one window has passed, zero when two have.
pub open spec fn next_prev_count(prev_window_count: i64, window_count: i64, updated_at: i64, now: i64, window: i64) -> int {
    if two_windows_passed(updated_at, now, window) {
        0
    } else if window_passed(updated_at, now, window) {
        window_count as int
    } else {
        prev_window_count as int
    }
}

/// When the current window started, after one more hit at `now`.
pub open spec fn next_updated_at(updated_at: i64, now: i64, window: i64) -> int {
    if window_passed(updated_at, now, window) {
        now as int
    } else {
        updated_at as int
    }
}

/// One more hit fits the counter: the new count is representable.
pub open spec fn hit_fits(window_count: i64, updated_at: i64, now: i64, window: i64) -> bool {
    next_window_count(window_count, updated_at, now, window) <= i64::MAX
}

/// One more hit at `now`: the new previous count, current count and window
/// start, or `None` when the current count cannot grow any further.
pub fn hit(prev_window_count: i64, window_count: i64, updated_at: i64, now: i64, window: i64) -> (r: Option<(i64, i64, i64)>)
    ensures
        r is Some <==> hit_fits(window_count, updated_at, now, window),
        r matches Some((p, c, u)) ==> {
            &&& p == next_prev_count(prev_window_count, window_count, updated_at, now, window)
            &&& c == next_window_count(window_count, updated_at, now, window)
            &&& u == next_updated_at(updated_at, now, window)
        },
{
    let elapsed: i128 = now as i128 - updated_at as i128;
    let w: i128 = window as i128;
    let prev = if 2 * w < elapsed {
        0
    } else if w < elapsed {
        window_count
    } else {
        prev_window_count
    };
    if w < elapsed {
        Some((prev, 1, now))
    } else if window_count < i64::MAX {
        Some((prev, window_count + 1, updated_at))
    } else {
        None
    }
}

/// Within a window of non-negative length the count grows by one and nothing
/// else moves.
pub proof fn lemma_hit_within_window(prev_window_count: i64, window_count: i64, updated_at: i64, now: i64, window: i64)
    requires
        0 <= window,
        now - updated_at <= window,
    ensures
        next_window_count(window_count, updated_at, now, window) == window_count + 1,
        next_prev_count(prev_window_count, window_count, updated_at, now, window) == prev_window_count,
        next_updated_at(updated_at, now, window) == updated_at,
{
}

/// Once a window has passed, a new window starts at `now` with one hit, and
/// the old count becomes the previous one, or zero if a second window has
/// passed too.
pub proof fn lemma_hit_after_window(prev_window_count: i64, window_count: i64, updated_at: i64, now: i64, window: i64)
    requires
        window < now - updated_at,
    ensures
        next_window_count(window_count, updated_at, now, window) == 1,
        next_updated_at(updated_at, now, window) == now,
        next_prev_count(prev_window_count, window_count, updated_at, now, window) == if now - updated_at <= 2 * window {
            window_count as int
        } else {
            0
        },
        hit_fits(window_count, updated_at, now, window),
{
}

/// After a hit the current count is at least one, and the counts stay
/// non-negative when they were.
pub proof fn lemma_hit_counts_positive(prev_window_count: i64, window_count: i64, updated_at: i64, now: i64, window: i64)
    requires
        0 <= prev_window_count,
        0 <= window_count,
    ensures
        next_window_count(window_count, updated_at, now, window) >= 1,
        next_prev_count(prev_window_count, window_count, updated_at, now, window) >= 0,
{
}

} // verus!
