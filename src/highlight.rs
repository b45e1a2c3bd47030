//! What each byte of a row shows: part of a search match, part of the
//! selection; and the runs of bytes that show alike.

use vstd::prelude::*;
use crate::selection::{normalize, row_span, spec_normalize, spec_row_span};
use crate::viewer::{find_all, row_hits};

verus! {

/// How one byte of a row is shown.
#[derive(Clone, Copy, Debug, PartialEq, Eq, Structural)]
pub struct Mark {
    /// Inside an occurrence of the search query.
    pub found: bool,
    /// Inside the selection.
    pub selected: bool,
}

/// Byte `i` lies in one of the occurrences of a query of length `m` that
/// start at `hits`.
pub open spec fn covered(hits: Seq<int>, m: int, i: int) -> bool {
    exists|k: int| 0 <= k < hits.len() && #[trigger] hits[k] <= i < hits[k] + m
}

/// The query highlights byte `i` of row `t`.
pub open spec fn found_at(t: Seq<u8>, query: Option<Seq<u8>>, i: int) -> bool {
    match query {
        Some(q) => q.len() > 0 && covered(row_hits(t, q, 0), q.len() as int, i),
        None => false,
    }
}

/// The selection from `sel.0` to `sel.1` (in either order) highlights byte
/// `i` of row `row`, of `len` bytes.
pub open spec fn selected_at(
    row: usize,
    len: usize,
    sel: Option<((usize, usize), (usize, usize))>,
    line_mode: bool,
    i: int,
) -> bool {
    match sel {
        Some((a, b)) => match spec_row_span(row, len, spec_normalize(a, b), line_mode) {
            Some((s, e)) => s <= i < e,
            None => false,
        },
        None => false,
    }
}

/// Marks every byte of row `line_idx`, whose text is `line`: the bytes of
/// each occurrence of `query` and the bytes that the selection covers.
pub fn line_marks(
    line: &[u8],
    line_idx: usize,
    query: Option<&[u8]>,
    selection: Option<((usize, usize), (usize, usize))>,
    line_mode: bool,
) -> (r: Vec<Mark>)
    ensures
        r@.len() == line@.len(),
        forall|i: int|
            0 <= i < line@.len() ==> (#[trigger] r@[i]).found == found_at(
                line@,
                match query {
                    Some(q) => Some(q@),
                    None => None,
                },
                i,
            ),
        forall|i: int|
            0 <= i < line@.len() ==> (#[trigger] r@[i]).selected == selected_at(
                line_idx,
                line@.len() as usize,
                selection,
                line_mode,
                i,
            ),
{
    let n = line.len();
    let span = match selection {
        Some((a, b)) => row_span(line_idx, n, normalize(a, b), line_mode),
        None => None,
    };
    let mut marks: Vec<Mark> = Vec::new();
    let mut i: usize = 0;
    while i < n
        invariant
            n == line@.len(),
            i <= n,
            marks@.len() == i,
            span == match selection {
                Some((a, b)) => spec_row_span(line_idx, n, spec_normalize(a, b), line_mode),
                None => None,
            },
            forall|k: int| 0 <= k < i ==> !(#[trigger] marks@[k]).found,
            forall|k: int|
                0 <= k < i ==> (#[trigger] marks@[k]).selected == selected_at(
                    line_idx,
                    n,
                    selection,
                    line_mode,
                    k,
                ),
        decreases n - i,
    {
        let selected = match span {
            Some((s, e)) => s <= i && i < e,
            None => false,
        };
        marks.push(Mark { found: false, selected });
        i = i + 1;
    }
    if let Some(q) = query {
        if q.len() > 0 {
            let hits = find_all(line, q);
            let ghost hv = hits@.map_values(|p: usize| p as int);
            let m = q.len();
            let mut j: usize = 0;
            while j < hits.len()
                invariant
                    n == line@.len(),
                    m == q@.len(),
                    hv == hits@.map_values(|p: usize| p as int),
                    hv == row_hits(line@, q@, 0),
                    forall|k: int| 0 <= k < hits@.len() ==> hits@[k] + m <= n,
                    j <= hits@.len(),
                    marks@.len() == n,
                    forall|k: int|
                        0 <= k < n ==> (#[trigger] marks@[k]).found == covered(
                            hv.take(j as int),
                            m as int,
                            k,
                        ),
                    forall|k: int|
                        0 <= k < n ==> (#[trigger] marks@[k]).selected == selected_at(
                            line_idx,
                            n,
                            selection,
                            line_mode,
                            k,
                        ),
                decreases hits@.len() - j,
            {
                let p = hits[j];
                let mut x = p;
                let ghost before = marks@;
                while x < p + m
                    invariant
                        p + m <= n,
                        p <= x <= p + m,
                        marks@.len() == n,
                        forall|k: int|
                            0 <= k < n ==> (#[trigger] marks@[k]).found == (before[k].found || (p
                                <= k < x)),
                        forall|k: int| 0 <= k < n ==> (#[trigger] marks@[k]).selected == before[k].selected,
                    decreases p + m - x,
                {
                    let old_mark = marks[x];
                    marks.set(x, Mark { found: true, selected: old_mark.selected });
                    x = x + 1;
                }
                proof {
                    assert forall|k: int| 0 <= k < n implies (#[trigger] marks@[k]).found == covered(
                        hv.take(j + 1),
                        m as int,
                        k,
                    ) by {
                        let t0 = hv.take(j as int);
                        let t1 = hv.take(j + 1);
                        assert(t1[j as int] == p as int);
                        if covered(t0, m as int, k) {
                            let w = choose|w: int| 0 <= w < t0.len() && #[trigger] t0[w] <= k < t0[w] + m;
                            assert(t1[w] == t0[w]);
                        }
                        if covered(t1, m as int, k) {
                            let w = choose|w: int| 0 <= w < t1.len() && #[trigger] t1[w] <= k < t1[w] + m;
                            if w < j {
                                assert(t0[w] == t1[w]);
                            }
                        }
                    }
                }
                j = j + 1;
            }
            proof {
                assert(hv.take(j as int) =~= hv);
            }
        }
    }
    marks
}

/// `runs` cuts `m` into maximal runs of equal marks, in order: each run is
/// `[start, end)`, the first starts at zero, each starts where the last
/// ended, the last ends at the end, and neighbours differ.
pub open spec fn is_runs(m: Seq<Mark>, runs: Seq<(usize, usize)>) -> bool {
    &&& (runs.len() == 0 <==> m.len() == 0)
    &&& runs.len() > 0 ==> runs[0].0 == 0 && runs.last().1 == m.len()
    &&& forall|k: int| 0 <= k < runs.len() ==> (#[trigger] runs[k]).0 < runs[k].1
    &&& forall|k: int| 0 <= k < runs.len() - 1 ==> (#[trigger] runs[k]).1 == runs[k + 1].0
    &&& forall|k: int, i: int|
        0 <= k < runs.len() && runs[k].0 <= i < runs[k].1 ==> #[trigger] m[i] == m[(#[trigger] runs[k]).0 as int]
    &&& forall|k: int|
        0 <= k < runs.len() - 1 ==> m[(#[trigger] runs[k]).1 as int] != m[runs[k].0 as int]
}

/// Cuts a row's marks into maximal runs of equal marks.
pub fn mark_runs(marks: &Vec<Mark>) -> (r: Vec<(usize, usize)>)
    ensures
        is_runs(marks@, r@),
{
    let n = marks.len();
    let mut runs: Vec<(usize, usize)> = Vec::new();
    let mut i: usize = 0;
    while i < n
        invariant
            n == marks@.len(),
            i <= n,
            (runs@.len() == 0 <==> i == 0),
            runs@.len() > 0 ==> runs@[0].0 == 0 && runs@.last().1 == i,
            forall|k: int| 0 <= k < runs@.len() ==> (#[trigger] runs@[k]).0 < runs@[k].1,
            forall|k: int| 0 <= k < runs@.len() - 1 ==> (#[trigger] runs@[k]).1 == runs@[k + 1].0,
            forall|k: int, x: int|
                0 <= k < runs@.len() && runs@[k].0 <= x < runs@[k].1 ==> #[trigger] marks@[x]
                    == marks@[(#[trigger] runs@[k]).0 as int],
            forall|k: int|
                0 <= k < runs@.len() - 1 ==> marks@[(#[trigger] runs@[k]).1 as int]
                    != marks@[runs@[k].0 as int],
            i < n && runs@.len() > 0 ==> marks@[i as int] != marks@[runs@.last().0 as int],
        decreases n - i,
    {
        let mut j = i + 1;
        while j < n && marks[j] == marks[i]
            invariant
                n == marks@.len(),
                i < j <= n,
                forall|x: int| i <= x < j ==> marks@[x] == marks@[i as int],
            decreases n - j,
        {
            j = j + 1;
        }
        let ghost r0 = runs@;
        runs.push((i, j));
        proof {
            assert(runs@ == r0.push((i, j)));
            assert forall|k: int, x: int|
                0 <= k < runs@.len() && runs@[k].0 <= x < runs@[k].1 implies #[trigger] marks@[x]
                == marks@[(#[trigger] runs@[k]).0 as int] by {
                if k < r0.len() {
                    assert(runs@[k] == r0[k]);
                }
            }
            assert forall|k: int| 0 <= k < runs@.len() - 1 implies marks@[(
            #[trigger] runs@[k]).1 as int] != marks@[runs@[k].0 as int] by {
                assert(runs@[k] == r0[k]);
                if k == r0.len() - 1 {
                    assert(r0.last().1 == i);
                }
            }
            assert forall|k: int| 0 <= k < runs@.len() - 1 implies (#[trigger] runs@[k]).1
                == runs@[k + 1].0 by {
                assert(runs@[k] == r0[k]);
                if k < r0.len() - 1 {
                    assert(runs@[k + 1] == r0[k + 1]);
                }
            }
        }
        i = j;
    }
    runs
}

} // verus!
