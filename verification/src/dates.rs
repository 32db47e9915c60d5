//! The half-open month window `[from, to)` that bounds a single monthly query.
use vstd::prelude::*;

verus! {

/// A half-open date range covering exactly one calendar month: from the
/// first day of `(year_from, month_from)` up to (excluding) the first day
/// of `(year_to, month_to)`.
pub struct DateWindow {
    pub year_from: usize,
    pub month_from: usize,
    pub day_from: usize,
    pub year_to: usize,
    pub month_to: usize,
    pub day_to: usize,
}

/// The window for month `month` of year `year`: December rolls over into
/// January of the following year; every other month ends at the start of
/// the next month of the same year. Both day bounds are always 1.
pub fn date_window(year: usize, month: usize) -> (w: DateWindow)
    requires
        1 <= month <= 12,
        year + 1 <= usize::MAX,
    ensures
        w.year_from == year,
        w.month_from == month,
        w.day_from == 1,
        w.day_to == 1,
        month == 12 ==> w.year_to == year + 1 && w.month_to == 1,
        month != 12 ==> w.year_to == year && w.month_to == month + 1,
{
    if month == 12 {
        DateWindow {
            year_from: year,
            month_from: month,
            day_from: 1,
            year_to: year + 1,
            month_to: 1,
            day_to: 1,
        }
    } else {
        DateWindow {
            year_from: year,
            month_from: month,
            day_from: 1,
            year_to: year,
            month_to: month + 1,
            day_to: 1,
        }
    }
}

} // verus!
