//! The row window one `noa.getGrid` request reads: clamped to the rows the
//! terminal still holds and to a per-request ceiling, with whether more
//! rows remain for the client to page through.

use vstd::prelude::*;

verus! {

/// Hard ceiling on the rows one request walks, whatever the client asked.
pub const MAX_GRID_ROWS_PER_REQUEST: u64 = 2048;

/// The rows `start..end` a request reads, and whether the requested range
/// goes on past `end`.
#[derive(Clone, Copy, Debug, PartialEq, Eq, Structural)]
pub struct GridWindow {
    pub start: u64,
    pub end: u64,
    pub has_more: bool,
}

/// `a + b`, saturating at `u64::MAX`.
pub open spec fn add_sat(a: u64, b: u64) -> u64 {
    if a + b > u64::MAX {
        u64::MAX
    } else {
        (a + b) as u64
    }
}

pub open spec fn min_u64(a: u64, b: u64) -> u64 {
    if a <= b {
        a
    } else {
        b
    }
}

pub open spec fn max_u64(a: u64, b: u64) -> u64 {
    if a >= b {
        a
    } else {
        b
    }
}

/// The window of a request for `row_count` rows from absolute row
/// `start_row`, when the terminal holds rows `oldest_row..next_row`: the
/// start moves up past evicted rows (never beyond `next_row`), the end
/// stops at the requested end, the held rows and the ceiling, and more
/// remains when the end falls short of the requested end.
pub open spec fn grid_window_of(start_row: u64, row_count: u64, oldest_row: u64, next_row: u64) -> GridWindow {
    let requested_end = min_u64(add_sat(start_row, row_count), next_row);
    let start = min_u64(max_u64(start_row, oldest_row), next_row);
    let end = max_u64(
        min_u64(
            min_u64(add_sat(start, min_u64(row_count, MAX_GRID_ROWS_PER_REQUEST)), requested_end),
            next_row,
        ),
        start,
    );
    GridWindow { start, end, has_more: end < requested_end }
}

/// The row window of one grid request.
pub fn grid_row_window(start_row: u64, row_count: u64, oldest_row: u64, next_row: u64) -> (w: GridWindow)
    ensures
        w == grid_window_of(start_row, row_count, oldest_row, next_row),
{
    let clamped = if row_count < MAX_GRID_ROWS_PER_REQUEST {
        row_count
    } else {
        MAX_GRID_ROWS_PER_REQUEST
    };
    let wanted = start_row.saturating_add(row_count);
    let requested_end = if wanted < next_row {
        wanted
    } else {
        next_row
    };
    let lifted = if start_row > oldest_row {
        start_row
    } else {
        oldest_row
    };
    let start = if lifted < next_row {
        lifted
    } else {
        next_row
    };
    let mut end = start.saturating_add(clamped);
    if end > requested_end {
        end = requested_end;
    }
    if end > next_row {
        end = next_row;
    }
    if end < start {
        end = start;
    }
    GridWindow { start, end, has_more: end < requested_end }
}

/// A request reads only rows the terminal still holds, at most the ceiling
/// of them, and reports more rows only when the ceiling cut it short.
pub proof fn lemma_grid_window_bounds(start_row: u64, row_count: u64, oldest_row: u64, next_row: u64)
    requires
        oldest_row <= next_row,
    ensures
        ({
            let w = grid_window_of(start_row, row_count, oldest_row, next_row);
            &&& oldest_row <= w.start <= w.end <= next_row
            &&& w.end - w.start <= MAX_GRID_ROWS_PER_REQUEST
            &&& w.has_more ==> w.end - w.start == MAX_GRID_ROWS_PER_REQUEST
        }),
{
}

} // verus!
