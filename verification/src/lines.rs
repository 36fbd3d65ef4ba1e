//! Merging the decorated cells of a frame into line segments.

use vstd::prelude::*;
use crate::cell::{DecorationFlag, Point, RenderableCell, Rgb};
use crate::metrics::MAX_INDEX;

verus! {

/// A run of cells that share a decoration and its color, from `start` to `end`
/// in scan order, both included.
#[derive(Copy, Clone, Debug, PartialEq, Eq, Structural)]
pub struct RenderLine {
    pub start: Point,
    pub end: Point,
    pub color: Rgb,
}

impl RenderLine {
    /// Whether the segment lies on one row and does not end before it starts.
    pub open spec fn on_one_row(self) -> bool {
        &&& self.start.line == self.end.line
        &&& self.start.column <= self.end.column
    }

    /// Whether the rectangles of the segment can be placed: no row or column
    /// beyond `MAX_INDEX`.
    pub open spec fn in_range(self) -> bool {
        &&& self.start.line <= MAX_INDEX
        &&& self.start.column <= MAX_INDEX
        &&& self.end.line <= MAX_INDEX
        &&& self.end.column <= MAX_INDEX
    }
}

/// Whether a cell carrying `flag` continues the segment: same color, same row,
/// and the column right after the segment's end.
pub open spec fn continues(line: RenderLine, cell: RenderableCell, flag: DecorationFlag) -> bool {
    &&& cell.decoration_color(flag) == line.color
    &&& cell.point.column == line.end.column + 1
    &&& cell.point.line == line.end.line
}

/// The segments of one decoration after one more cell of the scan.
pub open spec fn observe(lines: Seq<RenderLine>, cell: RenderableCell, flag: DecorationFlag) -> Seq<
    RenderLine,
> {
    if !cell.flags.has(flag) {
        lines
    } else if lines.len() > 0 && continues(lines.last(), cell, flag) {
        lines.update(
            lines.len() - 1,
            RenderLine { start: lines.last().start, end: cell.logical_end(), color: lines.last().color },
        )
    } else {
        lines.push(
            RenderLine {
                start: cell.point,
                end: cell.logical_end(),
                color: cell.decoration_color(flag),
            },
        )
    }
}

/// Segments that can be placed can still be placed after a cell that lies
/// within `MAX_INDEX`.
pub proof fn lemma_observe_in_range(lines: Seq<RenderLine>, cell: RenderableCell, flag: DecorationFlag)
    requires
        forall|i: int| 0 <= i < lines.len() ==> (#[trigger] lines[i]).in_range(),
        cell.in_range(),
    ensures
        forall|i: int|
            0 <= i < observe(lines, cell, flag).len() ==> (#[trigger] observe(
                lines,
                cell,
                flag,
            )[i]).in_range(),
{
    if lines.len() > 0 {
        assert(lines[lines.len() - 1].in_range());
    }
}

/// The segments of one decoration after the cells of a scan, taken in order,
/// starting from `lines`.
pub open spec fn observe_all(
    lines: Seq<RenderLine>,
    cells: Seq<RenderableCell>,
    flag: DecorationFlag,
) -> Seq<RenderLine>
    decreases cells.len(),
{
    if cells.len() == 0 {
        lines
    } else {
        observe(observe_all(lines, cells.drop_last(), flag), cells.last(), flag)
    }
}

/// The segments of every decoration, gathered over the cells of one frame.
pub struct RenderLines {
    underline: Vec<RenderLine>,
    double_underline: Vec<RenderLine>,
    strikeout: Vec<RenderLine>,
    undercurl: Vec<RenderLine>,
    dotted_underline: Vec<RenderLine>,
    dashed_underline: Vec<RenderLine>,
    rounded_background: Vec<RenderLine>,
}

impl RenderLines {
    /// The segments of one decoration, in the order in which they were started.
    pub closed spec fn lines(self, flag: DecorationFlag) -> Seq<RenderLine> {
        match flag {
            DecorationFlag::Underline => self.underline@,
            DecorationFlag::DoubleUnderline => self.double_underline@,
            DecorationFlag::Strikeout => self.strikeout@,
            DecorationFlag::Undercurl => self.undercurl@,
            DecorationFlag::DottedUnderline => self.dotted_underline@,
            DecorationFlag::DashedUnderline => self.dashed_underline@,
            DecorationFlag::RoundedBackground => self.rounded_background@,
        }
    }

    /// Whether every segment can be placed.
    pub open spec fn in_range(self) -> bool {
        forall|flag: DecorationFlag, i: int|
            0 <= i < self.lines(flag).len() ==> (#[trigger] self.lines(flag)[i]).in_range()
    }

    /// No segment of any decoration.
    pub fn new() -> (lines: RenderLines)
        ensures
            forall|flag: DecorationFlag| lines.lines(flag) == Seq::<RenderLine>::empty(),
            lines.in_range(),
    {
        RenderLines {
            underline: Vec::new(),
            double_underline: Vec::new(),
            strikeout: Vec::new(),
            undercurl: Vec::new(),
            dotted_underline: Vec::new(),
            dashed_underline: Vec::new(),
            rounded_background: Vec::new(),
        }
    }

    /// Forgets every segment, for the scan of the next frame.
    pub fn reset(&mut self)
        ensures
            forall|flag: DecorationFlag| final(self).lines(flag) == Seq::<RenderLine>::empty(),
            final(self).in_range(),
    {
        self.underline.clear();
        self.double_underline.clear();
        self.strikeout.clear();
        self.undercurl.clear();
        self.dotted_underline.clear();
        self.dashed_underline.clear();
        self.rounded_background.clear();
    }

    /// The segments gathered so far for one decoration.
    pub fn finish(&self, flag: DecorationFlag) -> (lines: &Vec<RenderLine>)
        ensures
            lines@ == self.lines(flag),
    {
        match flag {
            DecorationFlag::Underline => &self.underline,
            DecorationFlag::DoubleUnderline => &self.double_underline,
            DecorationFlag::Strikeout => &self.strikeout,
            DecorationFlag::Undercurl => &self.undercurl,
            DecorationFlag::DottedUnderline => &self.dotted_underline,
            DecorationFlag::DashedUnderline => &self.dashed_underline,
            DecorationFlag::RoundedBackground => &self.rounded_background,
        }
    }

    /// Takes the next cell of the scan into the segments of each decoration
    /// that it carries.
    pub fn update(&mut self, cell: &RenderableCell)
        requires
            cell.extendable(),
        ensures
            forall|flag: DecorationFlag|
                final(self).lines(flag) == observe(old(self).lines(flag), *cell, flag),
            old(self).in_range() && cell.in_range() ==> final(self).in_range(),
    {
        Self::update_flag(&mut self.underline, cell, DecorationFlag::Underline);
        Self::update_flag(&mut self.double_underline, cell, DecorationFlag::DoubleUnderline);
        Self::update_flag(&mut self.strikeout, cell, DecorationFlag::Strikeout);
        Self::update_flag(&mut self.undercurl, cell, DecorationFlag::Undercurl);
        Self::update_flag(&mut self.dotted_underline, cell, DecorationFlag::DottedUnderline);
        Self::update_flag(&mut self.dashed_underline, cell, DecorationFlag::DashedUnderline);
        Self::update_flag(&mut self.rounded_background, cell, DecorationFlag::RoundedBackground);
        proof {
            if old(self).in_range() && cell.in_range() {
                assert forall|flag: DecorationFlag, i: int|
                    0 <= i < self.lines(flag).len() implies (#[trigger] self.lines(flag)[i]).in_range() by {
                    assert forall|k: int| 0 <= k < old(self).lines(flag).len() implies (
                    #[trigger] old(self).lines(flag)[k]).in_range() by {}
                    lemma_observe_in_range(old(self).lines(flag), *cell, flag);
                }
            }
        }
    }

    /// Takes the next cell of the scan into the segments of one decoration: the
    /// last segment grows where the cell continues it, else a new one starts.
    pub fn update_flag(lines: &mut Vec<RenderLine>, cell: &RenderableCell, flag: DecorationFlag)
        requires
            cell.extendable(),
        ensures
            final(lines)@ == observe(old(lines)@, *cell, flag),
    {
        if !cell.flags.contains(flag) {
            return ;
        }
        let color = match flag {
            DecorationFlag::Strikeout => cell.fg,
            _ => cell.underline,
        };
        let mut end = cell.point;
        if cell.flags.wide_char {
            end.column = end.column + 1;
        }
        let count: usize = lines.len();
        if count > 0 {
            let last = lines[count - 1];
            if color == last.color && cell.point.column > 0 && cell.point.column - 1
                == last.end.column && cell.point.line == last.end.line {
                lines[count - 1] = RenderLine { start: last.start, end, color: last.color };
                return ;
            }
        }
        lines.push(RenderLine { start: cell.point, end, color });
    }
}

impl Default for RenderLines {
    fn default() -> (lines: RenderLines)
        ensures
            forall|flag: DecorationFlag| lines.lines(flag) == Seq::<RenderLine>::empty(),
            lines.in_range(),
    {
        RenderLines::new()
    }
}

/// Whether `next` carries on the run of `prev` when both carry `flag`: the same
/// color, the same row, and the column right after the last one that `prev`
/// covers.
pub open spec fn joined(prev: RenderableCell, next: RenderableCell, flag: DecorationFlag) -> bool {
    &&& next.decoration_color(flag) == prev.decoration_color(flag)
    &&& next.point.line == prev.logical_end().line
    &&& next.point.column == prev.logical_end().column + 1
}

/// Whether every cell carries `flag` and can be extended.
pub open spec fn all_carry(cells: Seq<RenderableCell>, flag: DecorationFlag) -> bool {
    forall|i: int| 0 <= i < cells.len() ==> (#[trigger] cells[i]).flags.has(flag) && cells[i].extendable()
}

/// The number of places in `cells` where a cell does not carry on the run of
/// the cell before it.
pub open spec fn breaks(cells: Seq<RenderableCell>, flag: DecorationFlag) -> nat
    decreases cells.len(),
{
    if cells.len() <= 1 {
        0
    } else {
        let before = breaks(cells.drop_last(), flag);
        if joined(cells[cells.len() - 2], cells.last(), flag) {
            before
        } else {
            before + 1
        }
    }
}

/// A cell carrying `flag` leaves a last segment that ends where the cell ends
/// and has the cell's color: the leading half of a wide character at column
/// `c` ends it at `c + 1`.
pub proof fn lemma_cell_ends_last_segment(lines: Seq<RenderLine>, cell: RenderableCell, flag: DecorationFlag)
    requires
        cell.flags.has(flag),
        cell.extendable(),
    ensures
        observe(lines, cell, flag).len() > 0,
        observe(lines, cell, flag).last().end == cell.logical_end(),
        observe(lines, cell, flag).last().color == cell.decoration_color(flag),
        cell.flags.wide_char ==> observe(lines, cell, flag).last().end.column == cell.point.column
            + 1,
        !cell.flags.wide_char ==> observe(lines, cell, flag).last().end.column
            == cell.point.column,
{
}

/// Cells that carry `flag` and each carry on the run of the one before, scanned
/// after segments that the first of them does not continue, add exactly one
/// segment: from the first cell to the end of the last.
pub proof fn lemma_run_merges(lines: Seq<RenderLine>, cells: Seq<RenderableCell>, flag: DecorationFlag)
    requires
        cells.len() > 0,
        all_carry(cells, flag),
        forall|i: int| 0 < i < cells.len() ==> joined(cells[i - 1], #[trigger] cells[i], flag),
        lines.len() > 0 ==> !continues(lines.last(), cells[0], flag),
    ensures
        observe_all(lines, cells, flag) == lines.push(
            RenderLine {
                start: cells[0].point,
                end: cells.last().logical_end(),
                color: cells[0].decoration_color(flag),
            },
        ),
    decreases cells.len(),
{
    if cells.len() == 1 {
        assert(cells.drop_last().len() == 0);
        assert(observe_all(lines, cells.drop_last(), flag) == lines);
    } else {
        let front = cells.drop_last();
        assert(forall|i: int| 0 <= i < front.len() ==> front[i] == cells[i]);
        lemma_run_merges(lines, front, flag);
        let grown = observe_all(lines, front, flag);
        assert(joined(cells[cells.len() - 2], cells[cells.len() - 1], flag));
        assert(front.last() == cells[cells.len() - 2]);
        assert(continues(grown.last(), cells.last(), flag));
        assert(observe_all(lines, cells, flag) =~= lines.push(
            RenderLine {
                start: cells[0].point,
                end: cells.last().logical_end(),
                color: cells[0].decoration_color(flag),
            },
        ));
    }
}

/// Scanned from an empty state, cells that all carry `flag` give one segment
/// for the first cell and one more for each break: one segment exactly where
/// there is no break, several as soon as a color changes or a column is left
/// out.
pub proof fn lemma_segment_count(cells: Seq<RenderableCell>, flag: DecorationFlag)
    requires
        cells.len() > 0,
        all_carry(cells, flag),
    ensures
        observe_all(Seq::empty(), cells, flag).len() == 1 + breaks(cells, flag),
        observe_all(Seq::empty(), cells, flag).last().end == cells.last().logical_end(),
        observe_all(Seq::empty(), cells, flag).last().color == cells.last().decoration_color(flag),
    decreases cells.len(),
{
    let front = cells.drop_last();
    if cells.len() == 1 {
        assert(observe_all(Seq::empty(), front, flag) == Seq::<RenderLine>::empty());
    } else {
        assert(forall|i: int| 0 <= i < front.len() ==> front[i] == cells[i]);
        lemma_segment_count(front, flag);
        assert(front.last() == cells[cells.len() - 2]);
    }
}

/// A break anywhere in the scan leaves more than one segment.
pub proof fn lemma_break_splits(cells: Seq<RenderableCell>, flag: DecorationFlag, at: int)
    requires
        all_carry(cells, flag),
        0 < at < cells.len(),
        !joined(cells[at - 1], cells[at], flag),
    ensures
        observe_all(Seq::empty(), cells, flag).len() >= 2,
    decreases cells.len(),
{
    lemma_segment_count(cells, flag);
    let front = cells.drop_last();
    if at < cells.len() - 1 {
        assert(forall|i: int| 0 <= i < front.len() ==> front[i] == cells[i]);
        lemma_break_splits(front, flag, at);
        lemma_segment_count(front, flag);
    }
}

/// A cell that does not carry `flag` leaves the segments of `flag` as they are.
pub proof fn lemma_unflagged_cell_is_skipped(
    lines: Seq<RenderLine>,
    cell: RenderableCell,
    flag: DecorationFlag,
)
    requires
        !cell.flags.has(flag),
    ensures
        observe(lines, cell, flag) == lines,
{
}

/// Merging never joins cells of two rows, and never lets a segment end before
/// it starts.
pub proof fn lemma_observe_on_one_row(lines: Seq<RenderLine>, cell: RenderableCell, flag: DecorationFlag)
    requires
        forall|i: int| 0 <= i < lines.len() ==> (#[trigger] lines[i]).on_one_row(),
        cell.extendable(),
    ensures
        forall|i: int|
            0 <= i < observe(lines, cell, flag).len() ==> (#[trigger] observe(
                lines,
                cell,
                flag,
            )[i]).on_one_row(),
{
    if lines.len() > 0 {
        assert(lines[lines.len() - 1].on_one_row());
    }
}

/// Every segment of a scan that starts from an empty state lies on one row.
pub proof fn lemma_scan_on_one_row(cells: Seq<RenderableCell>, flag: DecorationFlag)
    requires
        forall|i: int| 0 <= i < cells.len() ==> (#[trigger] cells[i]).extendable(),
    ensures
        forall|i: int|
            0 <= i < observe_all(Seq::empty(), cells, flag).len() ==> (#[trigger] observe_all(
                Seq::empty(),
                cells,
                flag,
            )[i]).on_one_row(),
    decreases cells.len(),
{
    if cells.len() > 0 {
        let front = cells.drop_last();
        assert(forall|i: int| 0 <= i < front.len() ==> front[i] == cells[i]);
        lemma_scan_on_one_row(front, flag);
        lemma_observe_on_one_row(observe_all(Seq::empty(), front, flag), cells.last(), flag);
    }
}

} // verus!
