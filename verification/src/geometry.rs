//! From line segments to rectangles in pixel space.
//!
//! The origin is the top left corner of the viewport and `y` grows downwards.
//! A decoration is placed relative to the baseline of its row, which lies the
//! font's descent below the bottom of the row's cells.

use vstd::prelude::*;
use crate::cell::{DecorationFlag, Point, Rgb};
use crate::kind::RectKind;
use crate::lines::{RenderLine, RenderLines};
use crate::metrics::{
    lemma_round_ratio_is_nearest, lemma_round_ratio_monotone, round_ratio, rounded_ratio, Metrics,
    SizeInfo, MAX_INDEX, UNITS_PER_PIXEL,
};

verus! {

/// The alpha of a rectangle that hides what lies below it.
pub const OPAQUE: u8 = 255;

/// The largest distance from the origin at which a corner of a rectangle can
/// be turned into a vertex.
pub const MAX_COORDINATE: i64 = 0x3000_0000_0000_0000;

/// A colored rectangle. `x` and `y` place its top left corner.
#[derive(Copy, Clone, Debug, PartialEq, Eq, Structural)]
pub struct RenderRect {
    pub x: i64,
    pub y: i64,
    pub width: i64,
    pub height: i64,
    pub color: Rgb,
    pub alpha: u8,
    pub kind: RectKind,
}

impl RenderRect {
    /// A plain rectangle, which is drawn as an underline is.
    pub fn new(x: i64, y: i64, width: i64, height: i64, color: Rgb, alpha: u8) -> (rect: RenderRect)
        ensures
            rect == (RenderRect { x, y, width, height, color, alpha, kind: RectKind::Underline }),
    {
        RenderRect { kind: RectKind::Underline, x, y, width, height, color, alpha }
    }

    /// Whether the corners of the rectangle can be turned into vertices.
    pub open spec fn in_range(self) -> bool {
        &&& -MAX_COORDINATE <= self.x <= MAX_COORDINATE
        &&& -MAX_COORDINATE <= self.y <= MAX_COORDINATE
        &&& -MAX_COORDINATE <= self.x + self.width <= MAX_COORDINATE
        &&& -MAX_COORDINATE <= self.y + self.height <= MAX_COORDINATE
    }

    /// Whether the corners of the rectangle can be turned into vertices.
    pub fn is_in_range(&self) -> (fits: bool)
        ensures
            fits == self.in_range(),
    {
        let least: i128 = -(MAX_COORDINATE as i128);
        let most: i128 = MAX_COORDINATE as i128;
        let right: i128 = self.x as i128 + self.width as i128;
        let bottom: i128 = self.y as i128 + self.height as i128;
        least <= self.x as i128 && self.x as i128 <= most && least <= self.y as i128 && self.y as i128
            <= most && least <= right && right <= most && least <= bottom && bottom <= most
    }
}

/// The kind of the rectangles that a decoration is drawn with.
pub open spec fn rect_kind(flag: DecorationFlag) -> RectKind {
    match flag {
        DecorationFlag::Underline => RectKind::Underline,
        DecorationFlag::DoubleUnderline => RectKind::Underline,
        DecorationFlag::Strikeout => RectKind::Underline,
        DecorationFlag::Undercurl => RectKind::Undercurl,
        DecorationFlag::DottedUnderline => RectKind::UnderDotted,
        DecorationFlag::DashedUnderline => RectKind::UnderDashed,
        DecorationFlag::RoundedBackground => RectKind::RoundedBg,
    }
}

/// The absolute value.
pub open spec fn magnitude(length: int) -> int {
    if length < 0 {
        -length
    } else {
        length
    }
}

/// The thickness that a decoration asks for, before the floor of one pixel.
pub open spec fn line_thickness(flag: DecorationFlag, metrics: Metrics, size: SizeInfo) -> int {
    match flag {
        DecorationFlag::Underline => metrics.underline_thickness as int,
        DecorationFlag::DoubleUnderline => metrics.underline_thickness as int,
        DecorationFlag::Strikeout => metrics.strikeout_thickness as int,
        DecorationFlag::Undercurl => magnitude(metrics.descent as int),
        DecorationFlag::DottedUnderline => magnitude(metrics.descent as int),
        DecorationFlag::DashedUnderline => metrics.underline_thickness as int,
        DecorationFlag::RoundedBackground => size.cell_height as int,
    }
}

/// Four times the offset above the baseline of the middle of a decoration. The
/// two lines of a double underline lie at one quarter and at three quarters of
/// the descent, `lower` telling the second from the first; counting in
/// quarters keeps both exact.
pub open spec fn offset_quarters(flag: DecorationFlag, lower: bool, metrics: Metrics) -> int {
    match flag {
        DecorationFlag::Underline => 4 * metrics.underline_position,
        DecorationFlag::DoubleUnderline => if lower {
            3 * metrics.descent
        } else {
            metrics.descent as int
        },
        DecorationFlag::Strikeout => 4 * metrics.strikeout_position,
        DecorationFlag::Undercurl => 4 * metrics.descent,
        DecorationFlag::DottedUnderline => 4 * metrics.descent,
        DecorationFlag::DashedUnderline => 4 * metrics.underline_position,
        DecorationFlag::RoundedBackground => 4 * metrics.descent,
    }
}

/// No decoration is thinner than one pixel.
pub open spec fn floored_thickness(thickness: int) -> int {
    if thickness < UNITS_PER_PIXEL {
        UNITS_PER_PIXEL as int
    } else {
        thickness
    }
}

/// The bottom edge of the cells of a row, measured from the top of the grid.
pub open spec fn line_bottom(row: int, size: SizeInfo) -> int {
    (row + 1) * size.cell_height
}

/// The top of a decoration before it is held inside its row: the baseline less
/// the offset less half the thickness, rounded to a whole pixel.
pub open spec fn rounded_top(row: int, size: SizeInfo, descent: int, quarters: int, thickness: int) -> int {
    round_ratio(
        4 * (line_bottom(row, size) + descent) - quarters - 2 * thickness,
        4 * UNITS_PER_PIXEL,
    ) * UNITS_PER_PIXEL
}

/// The top of a decoration of the given thickness, measured from the top of
/// the grid: `rounded_top`, but never so low that the decoration would reach
/// below the bottom of its row.
pub open spec fn line_top(row: int, size: SizeInfo, descent: int, quarters: int, thickness: int) -> int {
    let lowest = line_bottom(row, size) - thickness;
    if rounded_top(row, size, descent, quarters, thickness) > lowest {
        lowest
    } else {
        rounded_top(row, size, descent, quarters, thickness)
    }
}

/// The rectangle of a decoration over the cells from column `first` to column
/// `last` of one row, shaded as an underline.
pub open spec fn line_rect(
    size: SizeInfo,
    descent: int,
    row: int,
    first: int,
    last: int,
    quarters: int,
    thickness: int,
    color: Rgb,
) -> RenderRect {
    RenderRect {
        x: (first * size.cell_width + size.padding_x) as i64,
        y: (line_top(row, size, descent, quarters, floored_thickness(thickness)) + size.padding_y) as i64,
        width: ((last + 1 - first) * size.cell_width) as i64,
        height: floored_thickness(thickness) as i64,
        color,
        alpha: OPAQUE,
        kind: RectKind::Underline,
    }
}

/// The rectangles of a decoration over the cells from column `first` to column
/// `last` of one row: two for a double underline, the upper one first, and one
/// for every other decoration.
pub open spec fn row_rects(
    flag: DecorationFlag,
    metrics: Metrics,
    size: SizeInfo,
    row: int,
    first: int,
    last: int,
    color: Rgb,
) -> Seq<RenderRect> {
    let descent = metrics.descent as int;
    let thickness = line_thickness(flag, metrics, size);
    let single = RenderRect {
        kind: rect_kind(flag),
        ..line_rect(size, descent, row, first, last, offset_quarters(flag, true, metrics), thickness, color)
    };
    if flag == DecorationFlag::DoubleUnderline {
        seq![
            line_rect(size, descent, row, first, last, offset_quarters(flag, false, metrics), thickness, color),
            single,
        ]
    } else {
        seq![single]
    }
}

/// Whether the lengths of a rectangle at this row and these columns fit the
/// integers that hold them.
pub open spec fn placeable(row: int, first: int, last: int) -> bool {
    &&& 0 <= row <= MAX_INDEX
    &&& 0 <= first <= MAX_INDEX
    &&& 0 <= last <= MAX_INDEX
}

proof fn lemma_product_bound(a: int, b: int)
    requires
        -0x4000_0000 <= a <= 0x4000_0000,
        -0x8000_0000 <= b <= 0x8000_0000,
    ensures
        -0x2000_0000_0000_0000 <= a * b <= 0x2000_0000_0000_0000,
{
    assert(-0x2000_0000_0000_0000 <= a * b <= 0x2000_0000_0000_0000) by (nonlinear_arith)
        requires
            -0x4000_0000 <= a <= 0x4000_0000,
            -0x8000_0000 <= b <= 0x8000_0000,
    ;
}

/// Create the rectangle of a line at an offset above the baseline, given in
/// quarters of a unit.
pub fn create_rect(
    size: &SizeInfo,
    descent: i32,
    start: Point,
    end: Point,
    quarters: i64,
    thickness: i64,
    color: Rgb,
) -> (rect: RenderRect)
    requires
        placeable(start.line as int, start.column as int, end.column as int),
        -0x2_0000_0000 <= quarters <= 0x2_0000_0000,
        thickness <= 0x8000_0000,
    ensures
        rect == line_rect(
            *size,
            descent as int,
            start.line as int,
            start.column as int,
            end.column as int,
            quarters as int,
            thickness as int,
            color,
        ),
        rect.in_range(),
{
    proof {
        lemma_product_bound(start.column as int, size.cell_width as int);
        lemma_product_bound(end.column + 1 - start.column, size.cell_width as int);
        lemma_product_bound(end.column + 1, size.cell_width as int);
        lemma_product_bound(start.line + 1, size.cell_height as int);
        assert(start.column * size.cell_width + (end.column + 1 - start.column) * size.cell_width
            == (end.column + 1) * size.cell_width) by (nonlinear_arith);
    }
    let start_x: i64 = start.column as i64 * size.cell_width as i64;
    let width: i64 = (end.column as i64 + 1 - start.column as i64) * size.cell_width as i64;

    // Make sure lines are always visible.
    let thickness: i64 = if thickness < UNITS_PER_PIXEL {
        UNITS_PER_PIXEL
    } else {
        thickness
    };

    let line_bottom: i64 = (start.line as i64 + 1) * size.cell_height as i64;
    let baseline: i64 = line_bottom + descent as i64;

    let numerator: i128 = 4 * (baseline as i128) - quarters as i128 - 2 * (thickness as i128);
    let nearest: i128 = rounded_ratio(numerator, 256);
    proof {
        lemma_round_ratio_is_nearest(numerator as int, 256);
    }
    let mut y: i128 = nearest * 64;
    let max_y: i128 = line_bottom as i128 - thickness as i128;
    if y > max_y {
        y = max_y;
    }
    RenderRect::new(
        start_x + size.padding_x as i64,
        (y + size.padding_y as i128) as i64,
        width,
        thickness,
        color,
        OPAQUE,
    )
}

/// Push all rects required to draw a decoration over the cells of one row,
/// from `start` to the column of `end`.
pub fn push_rects(
    rects: &mut Vec<RenderRect>,
    metrics: &Metrics,
    size: &SizeInfo,
    flag: DecorationFlag,
    start: Point,
    end: Point,
    color: Rgb,
)
    requires
        placeable(start.line as int, start.column as int, end.column as int),
    ensures
        final(rects)@ == old(rects)@ + row_rects(
            flag,
            *metrics,
            *size,
            start.line as int,
            start.column as int,
            end.column as int,
            color,
        ),
        forall|i: int|
            old(rects).len() <= i < final(rects).len() ==> (#[trigger] final(rects)[i]).in_range(),
{
    let descent: i64 = metrics.descent as i64;
    let depth: i64 = if descent < 0 {
        -descent
    } else {
        descent
    };
    let (quarters, thickness, kind): (i64, i64, RectKind) = match flag {
        DecorationFlag::DoubleUnderline => {
            // Position underlines so each one has 50% of descent available.
            rects.push(
                create_rect(
                    size,
                    metrics.descent,
                    start,
                    end,
                    descent,
                    metrics.underline_thickness as i64,
                    color,
                ),
            );
            (3 * descent, metrics.underline_thickness as i64, RectKind::Underline)
        },
        // Make undercurl occupy the entire descent area.
        DecorationFlag::Undercurl => (4 * descent, depth, RectKind::Undercurl),
        DecorationFlag::Underline => (
            4 * (metrics.underline_position as i64),
            metrics.underline_thickness as i64,
            RectKind::Underline,
        ),
        // Make dotted occupy the entire descent area.
        DecorationFlag::DottedUnderline => (4 * descent, depth, RectKind::UnderDotted),
        DecorationFlag::DashedUnderline => (
            4 * (metrics.underline_position as i64),
            metrics.underline_thickness as i64,
            RectKind::UnderDashed,
        ),
        DecorationFlag::Strikeout => (
            4 * (metrics.strikeout_position as i64),
            metrics.strikeout_thickness as i64,
            RectKind::Underline,
        ),
        DecorationFlag::RoundedBackground => (
            4 * descent,
            size.cell_height as i64,
            RectKind::RoundedBg,
        ),
    };
    let mut rect = create_rect(size, metrics.descent, start, end, quarters, thickness, color);
    rect.kind = kind;
    rects.push(rect);
    proof {
        assert(rects@ =~= old(rects)@ + row_rects(
            flag,
            *metrics,
            *size,
            start.line as int,
            start.column as int,
            end.column as int,
            color,
        ));
    }
}

impl RenderLine {
    /// The number of rows that the segment is drawn on.
    pub open spec fn row_count(self) -> nat {
        if self.start.line < self.end.line {
            (self.end.line - self.start.line + 1) as nat
        } else {
            1
        }
    }

    /// The first column of the segment on the `i`-th of its rows.
    pub open spec fn first_column(self, i: int) -> int {
        if i == 0 {
            self.start.column as int
        } else {
            0
        }
    }

    /// The last column of the segment on the `i`-th of its rows: every row but
    /// the last is filled up to the last column of the grid.
    pub open spec fn last_column(self, size: SizeInfo, i: int) -> int {
        if i == self.row_count() - 1 {
            self.end.column as int
        } else {
            size.last_column as int
        }
    }

    /// The rectangles of the segment on the `i`-th of its rows.
    pub open spec fn rects_of_row(
        self,
        flag: DecorationFlag,
        metrics: Metrics,
        size: SizeInfo,
        i: int,
    ) -> Seq<RenderRect> {
        row_rects(
            flag,
            metrics,
            size,
            self.start.line + i,
            self.first_column(i),
            self.last_column(size, i),
            self.color,
        )
    }

    /// The rectangles of the segment, row after row from the top.
    pub open spec fn line_rects(self, flag: DecorationFlag, metrics: Metrics, size: SizeInfo) -> Seq<
        RenderRect,
    > {
        Seq::new(self.row_count(), |i: int| self.rects_of_row(flag, metrics, size, i)).flatten()
    }

    /// The rectangles that draw the decoration `flag` over the segment.
    pub fn rects(&self, flag: DecorationFlag, metrics: &Metrics, size: &SizeInfo) -> (rects: Vec<
        RenderRect,
    >)
        requires
            self.in_range(),
            size.last_column <= MAX_INDEX,
        ensures
            rects@ == self.line_rects(flag, *metrics, *size),
            forall|i: int| 0 <= i < rects.len() ==> (#[trigger] rects[i]).in_range(),
    {
        let mut rects: Vec<RenderRect> = Vec::new();
        let ghost rows = |i: int| self.rects_of_row(flag, *metrics, *size, i);
        let ghost mut done: nat = 0;

        let mut start = self.start;
        proof {
            assert(Seq::new(0, rows).flatten() =~= Seq::<RenderRect>::empty());
        }
        while start.line < self.end.line
            invariant
                self.in_range(),
                size.last_column <= MAX_INDEX,
                rows == |i: int| self.rects_of_row(flag, *metrics, *size, i),
                start.line == self.start.line + done,
                start.column == self.first_column(done as int),
                done < self.row_count(),
                rects@ == Seq::new(done, rows).flatten(),
                forall|i: int| 0 <= i < rects.len() ==> (#[trigger] rects[i]).in_range(),
            decreases self.end.line - start.line,
        {
            let end = Point::new(start.line, size.last_column);
            push_rects(&mut rects, metrics, size, flag, start, end, self.color);
            proof {
                assert(Seq::new(done + 1, rows) =~= Seq::new(done, rows).push(rows(done as int)));
                Seq::new(done, rows).lemma_flatten_push(rows(done as int));
                done = done + 1;
            }
            start = Point::new(start.line + 1, 0);
        }
        push_rects(&mut rects, metrics, size, flag, start, self.end, self.color);
        proof {
            assert(Seq::new(done + 1, rows) =~= Seq::new(done, rows).push(rows(done as int)));
            Seq::new(done, rows).lemma_flatten_push(rows(done as int));
        }
        rects
    }
}

/// The rectangles that draw one decoration over its segments, segment after
/// segment.
pub open spec fn flag_rects(
    lines: Seq<RenderLine>,
    flag: DecorationFlag,
    metrics: Metrics,
    size: SizeInfo,
) -> Seq<RenderRect> {
    lines.map_values(|line: RenderLine| line.line_rects(flag, metrics, size)).flatten()
}

impl RenderLines {
    /// The rectangles of all segments: decoration after decoration, and for
    /// each decoration segment after segment.
    pub open spec fn all_rects(self, metrics: Metrics, size: SizeInfo) -> Seq<RenderRect> {
        flag_rects(self.lines(DecorationFlag::Underline), DecorationFlag::Underline, metrics, size)
            + flag_rects(
            self.lines(DecorationFlag::DoubleUnderline),
            DecorationFlag::DoubleUnderline,
            metrics,
            size,
        ) + flag_rects(self.lines(DecorationFlag::Strikeout), DecorationFlag::Strikeout, metrics, size)
            + flag_rects(self.lines(DecorationFlag::Undercurl), DecorationFlag::Undercurl, metrics, size)
            + flag_rects(
            self.lines(DecorationFlag::DottedUnderline),
            DecorationFlag::DottedUnderline,
            metrics,
            size,
        ) + flag_rects(
            self.lines(DecorationFlag::DashedUnderline),
            DecorationFlag::DashedUnderline,
            metrics,
            size,
        ) + flag_rects(
            self.lines(DecorationFlag::RoundedBackground),
            DecorationFlag::RoundedBackground,
            metrics,
            size,
        )
    }

    /// The rectangles that draw every decoration of the frame.
    pub fn rects(&self, metrics: &Metrics, size: &SizeInfo) -> (rects: Vec<RenderRect>)
        requires
            self.in_range(),
            size.last_column <= MAX_INDEX,
        ensures
            rects@ == self.all_rects(*metrics, *size),
            forall|i: int| 0 <= i < rects.len() ==> (#[trigger] rects[i]).in_range(),
    {
        let mut rects: Vec<RenderRect> = Vec::new();
        self.push_flag_rects(&mut rects, DecorationFlag::Underline, metrics, size);
        self.push_flag_rects(&mut rects, DecorationFlag::DoubleUnderline, metrics, size);
        self.push_flag_rects(&mut rects, DecorationFlag::Strikeout, metrics, size);
        self.push_flag_rects(&mut rects, DecorationFlag::Undercurl, metrics, size);
        self.push_flag_rects(&mut rects, DecorationFlag::DottedUnderline, metrics, size);
        self.push_flag_rects(&mut rects, DecorationFlag::DashedUnderline, metrics, size);
        self.push_flag_rects(&mut rects, DecorationFlag::RoundedBackground, metrics, size);
        proof {
            assert(rects@ =~= self.all_rects(*metrics, *size));
        }
        rects
    }

    /// Appends the rectangles of one decoration.
    fn push_flag_rects(
        &self,
        rects: &mut Vec<RenderRect>,
        flag: DecorationFlag,
        metrics: &Metrics,
        size: &SizeInfo,
    )
        requires
            self.in_range(),
            size.last_column <= MAX_INDEX,
            forall|i: int| 0 <= i < old(rects).len() ==> (#[trigger] old(rects)[i]).in_range(),
        ensures
            final(rects)@ == old(rects)@ + flag_rects(self.lines(flag), flag, *metrics, *size),
            forall|i: int| 0 <= i < final(rects).len() ==> (#[trigger] final(rects)[i]).in_range(),
    {
        let lines = self.finish(flag);
        let ghost each = |line: RenderLine| line.line_rects(flag, *metrics, *size);
        proof {
            assert(lines@.take(0).map_values(each) =~= Seq::<Seq<RenderRect>>::empty());
            assert(rects@ =~= old(rects)@ + lines@.take(0).map_values(each).flatten());
        }
        let mut i: usize = 0;
        while i < lines.len()
            invariant
                self.in_range(),
                size.last_column <= MAX_INDEX,
                lines@ == self.lines(flag),
                each == |line: RenderLine| line.line_rects(flag, *metrics, *size),
                i <= lines.len(),
                rects@ == old(rects)@ + lines@.take(i as int).map_values(each).flatten(),
                forall|i: int| 0 <= i < rects.len() ==> (#[trigger] rects[i]).in_range(),
            decreases lines.len() - i,
        {
            let mut more = lines[i].rects(flag, metrics, size);
            rects.append(&mut more);
            proof {
                let before = lines@.take(i as int).map_values(each);
                assert(lines@.take(i + 1).map_values(each) =~= before.push(each(lines@[i as int])));
                before.lemma_flatten_push(each(lines@[i as int]));
            }
            i = i + 1;
        }
        proof {
            assert(lines@.take(i as int) =~= lines@);
        }
    }
}

/// The lengths of a rectangle that can be placed are those of the placement
/// rule, none cut short by the integers that hold them.
pub proof fn lemma_line_rect_lengths(
    size: SizeInfo,
    descent: int,
    row: int,
    first: int,
    last: int,
    quarters: int,
    thickness: int,
    color: Rgb,
)
    requires
        placeable(row, first, last),
        -0x8000_0000 <= descent <= 0x8000_0000,
        -0x2_0000_0000 <= quarters <= 0x2_0000_0000,
        thickness <= 0x8000_0000,
    ensures
        ({
            let rect = line_rect(size, descent, row, first, last, quarters, thickness, color);
            &&& rect.x == first * size.cell_width + size.padding_x
            &&& rect.width == (last + 1 - first) * size.cell_width
            &&& rect.height == floored_thickness(thickness)
            &&& rect.y == line_top(row, size, descent, quarters, floored_thickness(thickness))
                + size.padding_y
        }),
{
    lemma_product_bound(first, size.cell_width as int);
    lemma_product_bound(last + 1 - first, size.cell_width as int);
    lemma_product_bound(row + 1, size.cell_height as int);
    let height = floored_thickness(thickness);
    lemma_round_ratio_is_nearest(
        4 * (line_bottom(row, size) + descent) - quarters - 2 * height,
        4 * UNITS_PER_PIXEL,
    );
}

/// The offset of the `i`-th rectangle of a row, in quarters.
pub open spec fn quarters_of(flag: DecorationFlag, metrics: Metrics, i: int) -> int {
    offset_quarters(flag, flag != DecorationFlag::DoubleUnderline || i == 1, metrics)
}

/// Every rectangle of a decoration is at least one pixel thick, and exactly
/// one pixel where the decoration asks for less.
pub proof fn lemma_thickness_floor(
    flag: DecorationFlag,
    metrics: Metrics,
    size: SizeInfo,
    row: int,
    first: int,
    last: int,
    color: Rgb,
)
    requires
        placeable(row, first, last),
    ensures
        forall|i: int|
            0 <= i < row_rects(flag, metrics, size, row, first, last, color).len() ==> {
                let rect = #[trigger] row_rects(flag, metrics, size, row, first, last, color)[i];
                &&& rect.height >= UNITS_PER_PIXEL
                &&& rect.height == floored_thickness(line_thickness(flag, metrics, size))
                &&& line_thickness(flag, metrics, size) < UNITS_PER_PIXEL ==> rect.height
                    == UNITS_PER_PIXEL
            },
{
    let thickness = line_thickness(flag, metrics, size);
    assert forall|i: int|
        0 <= i < row_rects(flag, metrics, size, row, first, last, color).len() implies {
        let rect = #[trigger] row_rects(flag, metrics, size, row, first, last, color)[i];
        &&& rect.height >= UNITS_PER_PIXEL
        &&& rect.height == floored_thickness(thickness)
    } by {
        lemma_line_rect_lengths(
            size,
            metrics.descent as int,
            row,
            first,
            last,
            quarters_of(flag, metrics, i),
            thickness,
            color,
        );
    }
}

/// No rectangle of a decoration reaches below the bottom of its row, whatever
/// the metrics: where the rounded placement would, the rectangle ends exactly
/// at the bottom of the row.
pub proof fn lemma_held_inside_row(
    flag: DecorationFlag,
    metrics: Metrics,
    size: SizeInfo,
    row: int,
    first: int,
    last: int,
    color: Rgb,
)
    requires
        placeable(row, first, last),
    ensures
        forall|i: int|
            0 <= i < row_rects(flag, metrics, size, row, first, last, color).len() ==> {
                let rect = #[trigger] row_rects(flag, metrics, size, row, first, last, color)[i];
                let lowest = line_bottom(row, size) - rect.height;
                let rounded = rounded_top(
                    row,
                    size,
                    metrics.descent as int,
                    quarters_of(flag, metrics, i),
                    rect.height as int,
                );
                &&& rect.y - size.padding_y <= lowest
                &&& rounded > lowest ==> rect.y - size.padding_y == lowest
                &&& rounded <= lowest ==> rect.y - size.padding_y == rounded
            },
{
    let thickness = line_thickness(flag, metrics, size);
    assert forall|i: int|
        0 <= i < row_rects(flag, metrics, size, row, first, last, color).len() implies {
        let rect = #[trigger] row_rects(flag, metrics, size, row, first, last, color)[i];
        let lowest = line_bottom(row, size) - rect.height;
        let rounded = rounded_top(
            row,
            size,
            metrics.descent as int,
            quarters_of(flag, metrics, i),
            rect.height as int,
        );
        &&& rect.y - size.padding_y <= lowest
        &&& rounded > lowest ==> rect.y - size.padding_y == lowest
        &&& rounded <= lowest ==> rect.y - size.padding_y == rounded
    } by {
        lemma_line_rect_lengths(
            size,
            metrics.descent as int,
            row,
            first,
            last,
            quarters_of(flag, metrics, i),
            thickness,
            color,
        );
    }
}

/// A double underline over a segment on one row gives exactly two
/// rectangles, both shaded as underlines and alike but for their height in
/// the row. Where the font has a descent, the first lies nearer to the
/// baseline than the second; where the descent is negative, as that of a font
/// is, the first is not below the second.
pub proof fn lemma_double_underline_fans_out(line: RenderLine, metrics: Metrics, size: SizeInfo)
    requires
        line.in_range(),
        line.start.line == line.end.line,
    ensures
        ({
            let rects = line.line_rects(DecorationFlag::DoubleUnderline, metrics, size);
            let upper = offset_quarters(DecorationFlag::DoubleUnderline, false, metrics);
            let lower = offset_quarters(DecorationFlag::DoubleUnderline, true, metrics);
            &&& rects.len() == 2
            &&& rects[0].kind == RectKind::Underline
            &&& rects[1].kind == RectKind::Underline
            &&& rects[1] == (RenderRect { y: rects[1].y, ..rects[0] })
            &&& metrics.descent != 0 ==> magnitude(upper) < magnitude(lower)
            &&& metrics.descent < 0 ==> rects[0].y <= rects[1].y
        }),
{
    let flag = DecorationFlag::DoubleUnderline;
    let descent = metrics.descent as int;
    let row = line.start.line as int;
    let first = line.start.column as int;
    let last = line.end.column as int;
    let thickness = line_thickness(flag, metrics, size);
    let height = floored_thickness(thickness);
    lemma_single_row_rects(line, flag, metrics, size);
    lemma_line_rect_lengths(size, descent, row, first, last, descent, thickness, line.color);
    lemma_line_rect_lengths(size, descent, row, first, last, 3 * descent, thickness, line.color);
    if descent < 0 {
        let base = 4 * (line_bottom(row, size) + descent) - 2 * height;
        lemma_round_ratio_monotone(base - descent, base - 3 * descent, 4 * UNITS_PER_PIXEL);
    }
}

/// A decoration other than the double underline gives one rectangle for a
/// row, of the kind that belongs to the decoration.
pub proof fn lemma_single_rect(
    flag: DecorationFlag,
    metrics: Metrics,
    size: SizeInfo,
    row: int,
    first: int,
    last: int,
    color: Rgb,
)
    requires
        flag != DecorationFlag::DoubleUnderline,
    ensures
        row_rects(flag, metrics, size, row, first, last, color).len() == 1,
        row_rects(flag, metrics, size, row, first, last, color)[0].kind == rect_kind(flag),
        row_rects(flag, metrics, size, row, first, last, color)[0].color == color,
{
}

/// What holds of every rectangle of every row holds of every rectangle of the
/// rows laid end to end.
proof fn lemma_flatten_all(rows: Seq<Seq<RenderRect>>, holds: spec_fn(RenderRect) -> bool)
    requires
        forall|i: int, j: int|
            0 <= i < rows.len() && 0 <= j < rows[i].len() ==> holds(#[trigger] rows[i][j]),
    ensures
        forall|k: int| 0 <= k < rows.flatten().len() ==> holds(#[trigger] rows.flatten()[k]),
    decreases rows.len(),
{
    if rows.len() > 0 {
        let front = rows.drop_last();
        assert forall|i: int, j: int| 0 <= i < front.len() && 0 <= j < front[i].len() implies holds(
            #[trigger] front[i][j],
        ) by {
            assert(front[i] == rows[i]);
        }
        lemma_flatten_all(front, holds);
        assert(rows =~= front.push(rows.last()));
        front.lemma_flatten_push(rows.last());
        assert forall|k: int| 0 <= k < rows.flatten().len() implies holds(
            #[trigger] rows.flatten()[k],
        ) by {
            if k >= front.flatten().len() {
                assert(rows.flatten()[k] == rows.last()[k - front.flatten().len()]);
                assert(holds(rows[rows.len() - 1][k - front.flatten().len()]));
            }
        }
    }
}

/// A segment on one row gives the rectangles of that row between its two
/// columns.
pub proof fn lemma_single_row_rects(
    line: RenderLine,
    flag: DecorationFlag,
    metrics: Metrics,
    size: SizeInfo,
)
    requires
        line.start.line >= line.end.line,
    ensures
        line.line_rects(flag, metrics, size) == row_rects(
            flag,
            metrics,
            size,
            line.start.line as int,
            line.start.column as int,
            line.end.column as int,
            line.color,
        ),
{
    let rows = Seq::new(1, |i: int| line.rects_of_row(flag, metrics, size, i));
    assert(rows =~= Seq::<Seq<RenderRect>>::empty().push(line.rects_of_row(flag, metrics, size, 0)));
    Seq::<Seq<RenderRect>>::empty().lemma_flatten_push(line.rects_of_row(flag, metrics, size, 0));
    assert(Seq::<Seq<RenderRect>>::empty().flatten() =~= Seq::<RenderRect>::empty());
    assert(rows.flatten() =~= line.rects_of_row(flag, metrics, size, 0));
}

/// Every rectangle of a segment, on whichever of its rows, has the kind and
/// the color of its decoration, and its thickness, floored at one pixel.
pub proof fn lemma_every_rect_is_visible(
    line: RenderLine,
    flag: DecorationFlag,
    metrics: Metrics,
    size: SizeInfo,
)
    requires
        line.in_range(),
        size.last_column <= MAX_INDEX,
    ensures
        forall|k: int|
            0 <= k < line.line_rects(flag, metrics, size).len() ==> {
                let rect = #[trigger] line.line_rects(flag, metrics, size)[k];
                &&& rect.height >= UNITS_PER_PIXEL
                &&& rect.height == floored_thickness(line_thickness(flag, metrics, size))
                &&& rect.kind == rect_kind(flag)
                &&& rect.color == line.color
                &&& rect.alpha == OPAQUE
            },
{
    let rows = Seq::new(line.row_count(), |i: int| line.rects_of_row(flag, metrics, size, i));
    let holds = |rect: RenderRect|
        {
            &&& rect.height >= UNITS_PER_PIXEL
            &&& rect.height == floored_thickness(line_thickness(flag, metrics, size))
            &&& rect.kind == rect_kind(flag)
            &&& rect.color == line.color
            &&& rect.alpha == OPAQUE
        };
    assert forall|i: int, j: int| 0 <= i < rows.len() && 0 <= j < rows[i].len() implies holds(
        #[trigger] rows[i][j],
    ) by {
        lemma_thickness_floor(
            flag,
            metrics,
            size,
            line.start.line + i,
            line.first_column(i),
            line.last_column(size, i),
            line.color,
        );
    }
    lemma_flatten_all(rows, holds);
}

} // verus!
