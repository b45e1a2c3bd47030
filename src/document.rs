//! The document: immutable base lines, overlay blocks anchored after base
//! lines, and the composed view that interleaves them.

use vstd::prelude::*;

verus! {

/// The pieces of `s` between `'\n'` characters, the last (possibly empty)
/// piece included.
pub open spec fn split_newlines(s: Seq<char>) -> Seq<Seq<char>>
    decreases s.len(),
{
    if s.len() == 0 {
        seq![Seq::empty()]
    } else {
        let p = split_newlines(s.drop_last());
        if s.last() == '\n' {
            p.push(Seq::empty())
        } else {
            p.update(p.len() - 1, p.last().push(s.last()))
        }
    }
}

/// A line that ended in `"\r\n"` loses its carriage return.
pub open spec fn strip_cr(l: Seq<char>) -> Seq<char> {
    if l.len() > 0 && l.last() == '\r' {
        l.drop_last()
    } else {
        l
    }
}

/// The lines of a text as `str::lines` yields them: every piece that a
/// `'\n'` terminates, without a trailing `'\r'`, then the last piece if it is
/// not empty.
pub open spec fn lines_of(s: Seq<char>) -> Seq<Seq<char>> {
    let p = split_newlines(s);
    let terminated = p.take(p.len() - 1).map_values(|l: Seq<char>| strip_cr(l));
    if p.last().len() == 0 {
        terminated
    } else {
        terminated.push(p.last())
    }
}

/// The text of each string.
pub open spec fn string_views(v: Seq<String>) -> Seq<Seq<char>> {
    v.map_values(|l: String| l@)
}

/// An immutable sequence of base lines.
pub struct Document {
    pub lines: Vec<String>,
}

impl Document {
    pub open spec fn view_lines(&self) -> Seq<Seq<char>> {
        string_views(self.lines@)
    }

    /// Splits a loaded text into its lines.
    pub fn new(content: &str) -> (r: Document)
        ensures
            r.view_lines() == lines_of(content@),
    {
        Document { lines: split_lines(content) }
    }
}

/// Relies on `str::lines`: lines end at `'\n'`, a `'\r'` just before that
/// `'\n'` is dropped, and a last line without terminator is kept unless empty.
#[verifier::external_body]
fn split_lines(s: &str) -> (r: Vec<String>)
    ensures
        string_views(r@) == lines_of(s@),
{
    s.lines().map(|l| l.to_string()).collect()
}

/// A block of display-only lines shown after base line `after_line`
/// (after the last base line when the anchor is past the end).
pub struct OverlayItem {
    pub after_line: usize,
    pub content: Vec<String>,
}

/// One row of the composed view.
pub enum DisplayLine<'a> {
    Original(&'a str),
    Overlay(&'a str),
}

impl<'a> DisplayLine<'a> {
    pub open spec fn spec_text(&self) -> Seq<char> {
        match self {
            DisplayLine::Original(t) => t@,
            DisplayLine::Overlay(t) => t@,
        }
    }

    /// The text of the row, whichever its origin.
    pub fn text(&self) -> (r: &'a str)
        ensures
            r@ == self.spec_text(),
    {
        match self {
            DisplayLine::Original(text) => text,
            DisplayLine::Overlay(text) => text,
        }
    }
}

pub open spec fn row_texts(v: Seq<DisplayLine>) -> Seq<Seq<char>> {
    v.map_values(|d: DisplayLine| d.spec_text())
}

/// Overlays are kept in the order of their anchors.
pub open spec fn overlays_sorted(ovs: Seq<OverlayItem>) -> bool {
    forall|a: int, b: int| 0 <= a <= b < ovs.len() ==> ovs[a].after_line <= ovs[b].after_line
}

/// How many overlays at the front of the list are anchored before base line `k`,
/// that is after one of the lines `0 .. k`.
pub open spec fn count_below(ovs: Seq<OverlayItem>, k: int) -> int
    decreases ovs.len(),
{
    if ovs.len() == 0 {
        0
    } else if (ovs[0].after_line as int) < k {
        1 + count_below(ovs.drop_first(), k)
    } else {
        0
    }
}

/// The lines of the overlays `a .. b`, in order.
pub open spec fn overlay_rows(ovs: Seq<OverlayItem>, a: int, b: int) -> Seq<Seq<char>>
    decreases b - a,
{
    if b <= a {
        Seq::empty()
    } else {
        overlay_rows(ovs, a, b - 1) + string_views(ovs[b - 1].content@)
    }
}

/// Base lines `0 .. i`, each followed by the overlays anchored after it.
pub open spec fn composed_prefix(
    lines: Seq<Seq<char>>,
    ovs: Seq<OverlayItem>,
    i: int,
) -> Seq<Seq<char>>
    decreases i,
{
    if i <= 0 {
        Seq::empty()
    } else {
        composed_prefix(lines, ovs, i - 1).push(lines[i - 1]) + overlay_rows(
            ovs,
            count_below(ovs, i - 1),
            count_below(ovs, i),
        )
    }
}

/// The composed view: every base line followed by its overlays, then the
/// overlays anchored past the last base line.
pub open spec fn composed(lines: Seq<Seq<char>>, ovs: Seq<OverlayItem>) -> Seq<Seq<char>> {
    composed_prefix(lines, ovs, lines.len() as int) + overlay_rows(
        ovs,
        count_below(ovs, lines.len() as int),
        ovs.len() as int,
    )
}

/// Each row as a pair: whether it is a base line, and its text.
pub open spec fn tagged_rows(v: Seq<DisplayLine>) -> Seq<(bool, Seq<char>)> {
    v.map_values(|d: DisplayLine| (d is Original, d.spec_text()))
}

/// The lines of the overlays `a .. b`, in order, each tagged as an overlay row.
pub open spec fn tagged_overlay_rows(ovs: Seq<OverlayItem>, a: int, b: int) -> Seq<(bool, Seq<char>)>
    decreases b - a,
{
    if b <= a {
        Seq::empty()
    } else {
        tagged_overlay_rows(ovs, a, b - 1) + string_views(ovs[b - 1].content@).map_values(
            |t: Seq<char>| (false, t),
        )
    }
}

/// `composed_prefix` with each row tagged: base lines `true`, overlay lines `false`.
pub open spec fn tagged_prefix(
    lines: Seq<Seq<char>>,
    ovs: Seq<OverlayItem>,
    i: int,
) -> Seq<(bool, Seq<char>)>
    decreases i,
{
    if i <= 0 {
        Seq::empty()
    } else {
        tagged_prefix(lines, ovs, i - 1).push((true, lines[i - 1])) + tagged_overlay_rows(
            ovs,
            count_below(ovs, i - 1),
            count_below(ovs, i),
        )
    }
}

/// The composed view with each row tagged as a base line (`true`) or an
/// overlay line (`false`).
pub open spec fn tagged_composed(lines: Seq<Seq<char>>, ovs: Seq<OverlayItem>) -> Seq<(bool, Seq<char>)> {
    tagged_prefix(lines, ovs, lines.len() as int) + tagged_overlay_rows(
        ovs,
        count_below(ovs, lines.len() as int),
        ovs.len() as int,
    )
}

pub proof fn lemma_count_below_is(ovs: Seq<OverlayItem>, k: int, m: int)
    requires
        0 <= m <= ovs.len(),
        forall|j: int| 0 <= j < m ==> (ovs[j].after_line as int) < k,
        m < ovs.len() ==> (ovs[m].after_line as int) >= k,
    ensures
        count_below(ovs, k) == m,
    decreases m,
{
    if m > 0 {
        let t = ovs.drop_first();
        assert forall|j: int| 0 <= j < m - 1 implies (t[j].after_line as int) < k by {
            assert(t[j] == ovs[j + 1]);
        }
        if m - 1 < t.len() {
            assert(t[m - 1] == ovs[m]);
        }
        lemma_count_below_is(t, k, m - 1);
    }
}

impl Document {
    /// Interleaves the base lines with the overlays.
    pub fn compose<'a>(&'a self, overlays: &'a [OverlayItem]) -> (r: Vec<DisplayLine<'a>>)
        requires
            overlays_sorted(overlays@),
        ensures
            row_texts(r@) == composed(self.view_lines(), overlays@),
            tagged_rows(r@) == tagged_composed(self.view_lines(), overlays@),
    {
        let ghost ovs = overlays@;
        let ghost lines_v = self.view_lines();
        let mut result: Vec<DisplayLine<'a>> = Vec::new();
        let mut o_idx: usize = 0;
        let n = self.lines.len();
        let mut i: usize = 0;
        proof {
            lemma_count_below_is(ovs, 0, 0);
        }
        while i < n
            invariant
                n == self.lines@.len(),
                lines_v == self.view_lines(),
                ovs == overlays@,
                overlays_sorted(ovs),
                i <= n,
                o_idx <= ovs.len(),
                forall|j: int| 0 <= j < o_idx ==> (ovs[j].after_line as int) < i,
                forall|j: int| o_idx <= j < ovs.len() ==> (ovs[j].after_line as int) >= i,
                count_below(ovs, i as int) == o_idx,
                row_texts(result@) == composed_prefix(lines_v, ovs, i as int),
                tagged_rows(result@) == tagged_prefix(lines_v, ovs, i as int),
            decreases n - i,
        {
            let ghost o_start = o_idx;
            let ghost before = result@;
            result.push(DisplayLine::Original(self.lines[i].as_str()));
            proof {
                assert(row_texts(result@) =~= row_texts(before).push(lines_v[i as int]));
                assert(tagged_rows(result@) =~= tagged_rows(before).push((true, lines_v[i as int])));
            }
            while o_idx < overlays.len() && overlays[o_idx].after_line == i
                invariant
                    n == self.lines@.len(),
                    lines_v == self.view_lines(),
                    ovs == overlays@,
                    overlays_sorted(ovs),
                    i < n,
                    o_start <= o_idx <= ovs.len(),
                    forall|j: int| 0 <= j < o_idx ==> (ovs[j].after_line as int) <= i,
                    forall|j: int| o_idx <= j < ovs.len() ==> (ovs[j].after_line as int) >= i,
                    row_texts(result@) == row_texts(before).push(lines_v[i as int]) + overlay_rows(
                        ovs,
                        o_start as int,
                        o_idx as int,
                    ),
                    tagged_rows(result@) == tagged_rows(before).push((true, lines_v[i as int]))
                        + tagged_overlay_rows(ovs, o_start as int, o_idx as int),
                decreases ovs.len() - o_idx,
            {
                let content = &overlays[o_idx].content;
                let ghost mid = result@;
                let mut t: usize = 0;
                while t < content.len()
                    invariant
                        content@ == ovs[o_idx as int].content@,
                        t <= content@.len(),
                        row_texts(result@) == row_texts(mid) + string_views(content@).take(t as int),
                        tagged_rows(result@) == tagged_rows(mid) + string_views(content@).take(
                            t as int,
                        ).map_values(|x: Seq<char>| (false, x)),
                    decreases content@.len() - t,
                {
                    let ghost b2 = result@;
                    result.push(DisplayLine::Overlay(content[t].as_str()));
                    proof {
                        assert(row_texts(result@) =~= row_texts(b2).push(content@[t as int]@));
                        assert(tagged_rows(result@) =~= tagged_rows(b2).push((false, content@[t as int]@)));
                        assert(string_views(content@).take(t + 1).map_values(|x: Seq<char>| (false, x))
                            =~= string_views(content@).take(t as int).map_values(
                            |x: Seq<char>| (false, x),
                        ).push((false, content@[t as int]@)));
                        assert(string_views(content@).take(t + 1) =~= string_views(content@).take(
                            t as int,
                        ).push(content@[t as int]@));
                    }
                    t = t + 1;
                }
                proof {
                    assert(string_views(content@).take(t as int) =~= string_views(content@));
                    assert(tagged_rows(result@) =~= tagged_rows(mid) + string_views(content@).map_values(
                        |x: Seq<char>| (false, x),
                    ));
                    assert(row_texts(result@) =~= row_texts(before).push(lines_v[i as int])
                        + overlay_rows(ovs, o_start as int, o_idx + 1));
                    assert(tagged_rows(result@) =~= tagged_rows(before).push((true, lines_v[i as int]))
                        + tagged_overlay_rows(ovs, o_start as int, o_idx + 1));
                }
                o_idx = o_idx + 1;
            }
            proof {
                if o_idx < ovs.len() {
                    assert((ovs[o_idx as int].after_line as int) > i);
                    assert forall|j: int| o_idx <= j < ovs.len() implies (
                    ovs[j].after_line as int) >= i + 1 by {
                        assert(ovs[o_idx as int].after_line <= ovs[j].after_line);
                    }
                }
                lemma_count_below_is(ovs, i + 1, o_idx as int);
                assert(row_texts(result@) =~= composed_prefix(lines_v, ovs, i + 1));
                assert(tagged_rows(result@) =~= tagged_prefix(lines_v, ovs, i + 1));
            }
            i = i + 1;
        }
        let ghost o_start = o_idx;
        let ghost before = result@;
        while o_idx < overlays.len()
            invariant
                ovs == overlays@,
                o_start <= o_idx <= ovs.len(),
                row_texts(result@) == row_texts(before) + overlay_rows(
                    ovs,
                    o_start as int,
                    o_idx as int,
                ),
                tagged_rows(result@) == tagged_rows(before) + tagged_overlay_rows(
                    ovs,
                    o_start as int,
                    o_idx as int,
                ),
            decreases ovs.len() - o_idx,
        {
            let content = &overlays[o_idx].content;
            let ghost mid = result@;
            let mut t: usize = 0;
            while t < content.len()
                invariant
                    content@ == ovs[o_idx as int].content@,
                    t <= content@.len(),
                    row_texts(result@) == row_texts(mid) + string_views(content@).take(t as int),
                        tagged_rows(result@) == tagged_rows(mid) + string_views(content@).take(
                            t as int,
                        ).map_values(|x: Seq<char>| (false, x)),
                decreases content@.len() - t,
            {
                let ghost b2 = result@;
                result.push(DisplayLine::Overlay(content[t].as_str()));
                proof {
                    assert(row_texts(result@) =~= row_texts(b2).push(content@[t as int]@));
                        assert(tagged_rows(result@) =~= tagged_rows(b2).push((false, content@[t as int]@)));
                        assert(string_views(content@).take(t + 1).map_values(|x: Seq<char>| (false, x))
                            =~= string_views(content@).take(t as int).map_values(
                            |x: Seq<char>| (false, x),
                        ).push((false, content@[t as int]@)));
                    assert(string_views(content@).take(t + 1) =~= string_views(content@).take(
                        t as int,
                    ).push(content@[t as int]@));
                }
                t = t + 1;
            }
            proof {
                assert(string_views(content@).take(t as int) =~= string_views(content@));
                    assert(tagged_rows(result@) =~= tagged_rows(mid) + string_views(content@).map_values(
                        |x: Seq<char>| (false, x),
                    ));
                assert(row_texts(result@) =~= row_texts(before) + overlay_rows(
                    ovs,
                    o_start as int,
                    o_idx + 1,
                ));
                assert(tagged_rows(result@) =~= tagged_rows(before) + tagged_overlay_rows(
                    ovs,
                    o_start as int,
                    o_idx + 1,
                ));
            }
            o_idx = o_idx + 1;
        }
        proof {
            assert(row_texts(result@) =~= composed(lines_v, ovs));
            assert(tagged_rows(result@) =~= tagged_composed(lines_v, ovs));
        }
        result
    }
}

} // verus!
