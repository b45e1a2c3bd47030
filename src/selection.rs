//! Selection ranges: ordering an anchor and a cursor, and the columns of a
//! row that a range covers.

use vstd::prelude::*;

verus! {

/// `a` comes no later than `b` in row-major order.
pub open spec fn pos_le(a: (usize, usize), b: (usize, usize)) -> bool {
    a.0 < b.0 || (a.0 == b.0 && a.1 <= b.1)
}

/// The two endpoints in row-major order.
pub open spec fn spec_normalize(a: (usize, usize), b: (usize, usize)) -> ((usize, usize), (usize, usize)) {
    if pos_le(a, b) {
        (a, b)
    } else {
        (b, a)
    }
}

/// Orders an anchor and a cursor into `(start, end)`.
pub fn normalize(anchor: (usize, usize), cursor: (usize, usize)) -> (r: ((usize, usize), (usize, usize)))
    ensures
        r == spec_normalize(anchor, cursor),
{
    if anchor.0 < cursor.0 || (anchor.0 == cursor.0 && anchor.1 <= cursor.1) {
        (anchor, cursor)
    } else {
        (cursor, anchor)
    }
}

/// The range that a command sees: the normalized selection, or the cursor
/// position twice when nothing is selected.
pub open spec fn spec_range(
    anchor: Option<(usize, usize)>,
    cursor: (usize, usize),
) -> ((usize, usize), (usize, usize)) {
    match anchor {
        Some(a) => spec_normalize(a, cursor),
        None => (cursor, cursor),
    }
}

pub fn selection_range(anchor: Option<(usize, usize)>, cursor: (usize, usize)) -> (r: ((usize, usize), (usize, usize)))
    ensures
        r == spec_range(anchor, cursor),
{
    match anchor {
        Some(a) => normalize(a, cursor),
        None => (cursor, cursor),
    }
}

/// The columns `[start, end)` of row `row` (of `len` bytes) that the range
/// `(start, end)` covers: whole rows in line mode; in character mode the
/// first row from the start column and the last row up to the end column,
/// both clipped to the row.
pub open spec fn spec_row_span(
    row: usize,
    len: usize,
    range: ((usize, usize), (usize, usize)),
    line_mode: bool,
) -> Option<(usize, usize)> {
    let ((sy, sx), (ey, ex)) = range;
    if row < sy || row > ey {
        None
    } else if line_mode {
        Some((0usize, len))
    } else {
        Some(
            (
                if row == sy {
                    if sx < len {
                        sx
                    } else {
                        len
                    }
                } else {
                    0usize
                },
                if row == ey {
                    if ex < len {
                        ex
                    } else {
                        len
                    }
                } else {
                    len
                },
            ),
        )
    }
}

pub fn row_span(
    row: usize,
    len: usize,
    range: ((usize, usize), (usize, usize)),
    line_mode: bool,
) -> (r: Option<(usize, usize)>)
    ensures
        r == spec_row_span(row, len, range, line_mode),
{
    let ((sy, sx), (ey, ex)) = range;
    if row < sy || row > ey {
        None
    } else if line_mode {
        Some((0, len))
    } else {
        let start = if row == sy {
            if sx < len {
                sx
            } else {
                len
            }
        } else {
            0
        };
        let end = if row == ey {
            if ex < len {
                ex
            } else {
                len
            }
        } else {
            len
        };
        Some((start, end))
    }
}

/// Normalizing does not depend on which endpoint was set first, and puts
/// the start no later than the end.
pub proof fn lemma_normalize_order_free(a: (usize, usize), b: (usize, usize))
    ensures
        spec_normalize(a, b) == spec_normalize(b, a),
        pos_le(spec_normalize(a, b).0, spec_normalize(a, b).1),
        spec_normalize(a, b) == (a, b) || spec_normalize(a, b) == (b, a),
{
}

} // verus!
