//! An ordered sequence of styled lines with a declared column width, and the
//! compositor that lays two such panels out side by side. The declared width
//! is used only when the panel stands on the left of a composition, to pad
//! each left line out to a fixed column; lines are never truncated.

use crate::styled::ColouredString;
use vstd::prelude::*;

verus! {

/// A run of `n` spaces (empty when `n` is negative).
pub open spec fn spaces(n: int) -> Seq<char> {
    Seq::new(if n < 0 { 0 } else { n as nat }, |i: int| ' ')
}

/// A bound comfortably inside `usize` on every target, so that padding and
/// concatenation arithmetic cannot overflow.
pub open spec fn fits_pane(n: int) -> bool {
    n <= 0x3fff_ffff
}

pub struct SideBySide {
    lines: Vec<ColouredString>,
    width: usize,
}

impl SideBySide {
    /// The lines of the panel, in display order.
    pub closed spec fn spec_lines(self) -> Seq<ColouredString> {
        self.lines@
    }

    /// The declared column width.
    pub closed spec fn spec_width(self) -> nat {
        self.width as nat
    }

    /// Every line has intact width bookkeeping.
    pub open spec fn wf(self) -> bool {
        forall|i: int|
            0 <= i < self.spec_lines().len() ==> (#[trigger] self.spec_lines()[i]).wf()
    }

    pub fn new(w: usize) -> (r: SideBySide)
        ensures
            r.wf(),
            r.spec_lines() == Seq::<ColouredString>::empty(),
            r.spec_width() == w,
    {
        SideBySide { lines: Vec::new(), width: w }
    }

    pub fn add_line(&mut self, line: ColouredString)
        requires
            old(self).wf(),
            line.wf(),
        ensures
            final(self).wf(),
            final(self).spec_lines() == old(self).spec_lines().push(line),
            final(self).spec_width() == old(self).spec_width(),
    {
        self.lines.push(line);
        proof {
            assert forall|i: int|
                0 <= i < self.spec_lines().len() implies (#[trigger] self.spec_lines()[i]).wf() by {
                if i < old(self).spec_lines().len() {
                    assert(old(self).spec_lines()[i].wf());
                } else {
                    assert(self.spec_lines()[i] == line);
                }
            }
        }
    }

    pub fn line_count(&self) -> (r: usize)
        ensures
            r == self.spec_lines().len(),
    {
        self.lines.len()
    }

    pub fn get_line(&self, i: usize) -> (r: &ColouredString)
        requires
            i < self.spec_lines().len(),
        ensures
            *r == self.spec_lines()[i as int],
    {
        &self.lines[i]
    }

    pub fn column_width(&self) -> (r: usize)
        ensures
            r == self.spec_width(),
    {
        self.width
    }

    /// Lays two panels out side by side: one output row per input row until
    /// both are exhausted; the left line (or blank space once the left panel
    /// is exhausted) padded with spaces to the left panel's declared width,
    /// then the separator, then the right line (or nothing).
    pub fn compose(s1: &SideBySide, s2: &SideBySide, separator: &str) -> (r: Vec<
        ColouredString,
    >)
        requires
            s1.wf(),
            s2.wf(),
            fits_pane(s1.spec_width() as int),
            fits_pane(separator@.len() as int),
            forall|i: int|
                0 <= i < s1.spec_lines().len() ==> fits_pane(
                    (#[trigger] s1.spec_lines()[i])@.len() as int,
                ),
            forall|i: int|
                0 <= i < s2.spec_lines().len() ==> fits_pane(
                    (#[trigger] s2.spec_lines()[i])@.len() as int,
                ),
        ensures
            r@.len() == max_rows(*s1, *s2),
            forall|i: int|
                0 <= i < r@.len() ==> {
                    &&& (#[trigger] r@[i]).wf()
                    &&& r@[i]@ == row_view(*s1, *s2, separator@, i)
                    &&& r@[i].text() == row_text(*s1, *s2, separator@, i)
                },
    {
        let n1 = s1.lines.len();
        let n2 = s2.lines.len();
        let rows = if n1 > n2 {
            n1
        } else {
            n2
        };
        let mut out: Vec<ColouredString> = Vec::new();
        let mut i: usize = 0;
        while i < rows
            invariant
                i <= rows,
                n1 == s1.spec_lines().len(),
                n2 == s2.spec_lines().len(),
                rows == max_rows(*s1, *s2),
                s1.wf(),
                s2.wf(),
                fits_pane(s1.spec_width() as int),
                fits_pane(separator@.len() as int),
                forall|j: int|
                    0 <= j < s1.spec_lines().len() ==> fits_pane(
                        (#[trigger] s1.spec_lines()[j])@.len() as int,
                    ),
                forall|j: int|
                    0 <= j < s2.spec_lines().len() ==> fits_pane(
                        (#[trigger] s2.spec_lines()[j])@.len() as int,
                    ),
                out@.len() == i,
                forall|j: int|
                    0 <= j < i ==> {
                        &&& (#[trigger] out@[j]).wf()
                        &&& out@[j]@ == row_view(*s1, *s2, separator@, j)
                        &&& out@[j].text() == row_text(*s1, *s2, separator@, j)
                    },
            decreases rows - i,
        {
            let mut row: ColouredString;
            if i < n1 {
                row = s1.lines[i].clone();
                pad_to(&mut row, s1.width);
            } else {
                row = ColouredString::new();
                pad_to(&mut row, s1.width);
                proof {
                    assert(row@ =~= spaces(s1.spec_width() as int));
                    assert(row.text() =~= spaces(s1.spec_width() as int));
                }
            }
            row.push_str(separator);
            if i < n2 {
                row.push_coloured_string(s2.lines[i].clone());
            }
            proof {
                assert(row@ =~= row_view(*s1, *s2, separator@, i as int));
                assert(row.text() =~= row_text(*s1, *s2, separator@, i as int));
            }
            out.push(row);
            i = i + 1;
        }
        out
    }
}

/// The visible characters of each line, in order.
pub open spec fn line_views(lines: Seq<ColouredString>) -> Seq<Seq<char>> {
    lines.map_values(|c: ColouredString| c@)
}

/// The number of rows a composition of the two panels produces.
pub open spec fn max_rows(s1: SideBySide, s2: SideBySide) -> nat {
    if s1.spec_lines().len() > s2.spec_lines().len() {
        s1.spec_lines().len()
    } else {
        s2.spec_lines().len()
    }
}

/// The visible characters of row `i` of a composition: the left line padded
/// to the left panel's declared width (blank if exhausted), the separator,
/// then the right line (empty if exhausted).
pub open spec fn row_view(s1: SideBySide, s2: SideBySide, sep: Seq<char>, i: int) -> Seq<char> {
    let left = if i < s1.spec_lines().len() {
        s1.spec_lines()[i]@ + spaces(s1.spec_width() - s1.spec_lines()[i]@.len())
    } else {
        spaces(s1.spec_width() as int)
    };
    let right = if i < s2.spec_lines().len() {
        s2.spec_lines()[i]@
    } else {
        Seq::<char>::empty()
    };
    left + sep + right
}

/// The rendered characters of row `i`, markup included, laid out the same way.
pub open spec fn row_text(s1: SideBySide, s2: SideBySide, sep: Seq<char>, i: int) -> Seq<char> {
    let left = if i < s1.spec_lines().len() {
        s1.spec_lines()[i].text() + spaces(s1.spec_width() - s1.spec_lines()[i]@.len())
    } else {
        spaces(s1.spec_width() as int)
    };
    let right = if i < s2.spec_lines().len() {
        s2.spec_lines()[i].text()
    } else {
        Seq::<char>::empty()
    };
    left + sep + right
}

/// Appends spaces until the visible width reaches `target`; a line already at
/// or past `target` is left unchanged.
pub fn pad_to(cs: &mut ColouredString, target: usize)
    requires
        old(cs).wf(),
        fits_pane(old(cs)@.len() as int),
        fits_pane(target as int),
    ensures
        final(cs).wf(),
        final(cs)@ == old(cs)@ + spaces(target - old(cs)@.len()),
        final(cs).text() == old(cs).text() + spaces(target - old(cs)@.len()),
{
    let start = cs.len();
    let mut k = start;
    while k < target
        invariant
            cs.wf(),
            start == old(cs)@.len(),
            start <= k,
            k == cs@.len(),
            k <= target || k == start,
            fits_pane(target as int),
            fits_pane(start as int),
            cs@ == old(cs)@ + spaces(k - start),
            cs.text() == old(cs).text() + spaces(k - start),
        decreases target - k,
    {
        proof {
            reveal_strlit(" ");
            assert(spaces(k + 1 - start) =~= spaces(k - start) + " "@);
        }
        cs.push_str(" ");
        k = k + 1;
    }
    proof {
        if start >= target {
            assert(spaces(target - start) =~= Seq::<char>::empty());
            assert(cs@ =~= old(cs)@ + spaces(target - start));
            assert(cs.text() =~= old(cs).text() + spaces(target - start));
        }
    }
}

/// Law: a composition has exactly `max(left rows, right rows)` rows (stated in
/// the ensures of [`SideBySide::compose`]), and on every row whose left line
/// fits in the declared width the separator occupies the same fixed columns,
/// starting at the left panel's declared width — even on rows where one side
/// has no content.
pub proof fn lemma_separator_column_fixed(s1: SideBySide, s2: SideBySide, sep: Seq<char>, i: int)
    requires
        0 <= i < max_rows(s1, s2),
        i < s1.spec_lines().len() ==> s1.spec_lines()[i]@.len() <= s1.spec_width(),
    ensures
        row_view(s1, s2, sep, i).len() >= s1.spec_width() + sep.len(),
        row_view(s1, s2, sep, i).subrange(
            s1.spec_width() as int,
            s1.spec_width() + sep.len() as int,
        ) == sep,
{
    let w = s1.spec_width() as int;
    let row = row_view(s1, s2, sep, i);
    assert(row.subrange(w, w + sep.len()) =~= sep);
}

} // verus!
