use decorations::cell::{DecorationFlag, Flags, Point, RenderableCell, Rgb};
use decorations::geometry::{create_rect, push_rects, RenderRect, MAX_COORDINATE, OPAQUE};
use decorations::kind::RectKind;
use decorations::lines::{RenderLine, RenderLines};
use decorations::metrics::{rounded_ratio, Metrics, SizeInfo, MAX_INDEX, UNITS_PER_PIXEL};

const RED: Rgb = Rgb { r: 255, g: 0, b: 0 };
const GREEN: Rgb = Rgb { r: 0, g: 255, b: 0 };

/// A length of whole pixels.
fn px(count: i32) -> i32 {
    count * 64
}

fn metrics() -> Metrics {
    Metrics {
        descent: px(-4),
        underline_position: px(-2),
        underline_thickness: px(1),
        strikeout_position: px(6),
        strikeout_thickness: px(2),
    }
}

fn size() -> SizeInfo {
    SizeInfo {
        width: px(800),
        height: px(600),
        cell_width: px(10),
        cell_height: px(20),
        padding_x: 0,
        padding_y: 0,
        last_column: 79,
    }
}

fn segment(start: (usize, usize), end: (usize, usize), color: Rgb) -> RenderLine {
    RenderLine { start: Point::new(start.0, start.1), end: Point::new(end.0, end.1), color }
}

fn rect(x: i32, y: i32, width: i32, height: i32, color: Rgb, kind: RectKind) -> RenderRect {
    RenderRect {
        x: x as i64,
        y: y as i64,
        width: width as i64,
        height: height as i64,
        color,
        alpha: 255,
        kind,
    }
}

#[test]
fn a_pixel_has_sixty_four_units() {
    assert_eq!(UNITS_PER_PIXEL, 64);
    assert_eq!(px(3) as i64, 3 * UNITS_PER_PIXEL);
}

#[test]
fn ratios_round_to_the_nearest_and_halves_away_from_zero() {
    assert_eq!(rounded_ratio(5, 2), 3);
    assert_eq!(rounded_ratio(-5, 2), -3);
    assert_eq!(rounded_ratio(7, 4), 2);
    assert_eq!(rounded_ratio(5, 4), 1);
    assert_eq!(rounded_ratio(2, 4), 1);
    assert_eq!(rounded_ratio(1, 4), 0);
    assert_eq!(rounded_ratio(0, 7), 0);
    assert_eq!(rounded_ratio(-1, 4), 0);
    assert_eq!(rounded_ratio(-2, 4), -1);
    assert_eq!(rounded_ratio(-3, 4), -1);
    assert_eq!(rounded_ratio(-7, 4), -2);
    assert_eq!(rounded_ratio(12, 3), 4);
    assert_eq!(rounded_ratio(-12, 3), -4);
}

#[test]
fn rounding_agrees_with_floats() {
    for numerator in -700..700 {
        let expected = (numerator as f64 / 256.0).round() as i128;
        assert_eq!(rounded_ratio(numerator, 256), expected);
    }
}

#[test]
fn underline_of_five_cells_on_the_first_row() {
    let line = segment((0, 0), (0, 4), RED);
    let rects = line.rects(DecorationFlag::Underline, &metrics(), &size());
    // The baseline lies at 20 - 4 = 16; 16 + 2 - 0.5 = 17.5 rounds to 18.
    assert_eq!(rects, vec![rect(0, px(18), px(50), px(1), RED, RectKind::Underline)]);
    assert_eq!(rects[0].alpha, OPAQUE);
}

#[test]
fn underline_matches_the_formula_in_floats() {
    let line = segment((0, 0), (0, 4), RED);
    let rects = line.rects(DecorationFlag::Underline, &metrics(), &size());
    let (cell_width, cell_height, descent, position, asked) = (10.0f32, 20.0f32, -4.0f32, -2.0f32, 1.0f32);
    let thickness = asked.max(1.0);
    let line_bottom = (0.0 + 1.0) * cell_height;
    let baseline = line_bottom + descent;
    let mut y = (baseline - position - thickness / 2.0).round();
    if y > line_bottom - thickness {
        y = line_bottom - thickness;
    }
    assert_eq!(rects.len(), 1);
    assert_eq!(rects[0].x as f32 / 64.0, 0.0);
    assert_eq!(rects[0].width as f32 / 64.0, 5.0 * cell_width);
    assert_eq!(rects[0].height as f32 / 64.0, thickness);
    assert_eq!(rects[0].y as f32 / 64.0, y);
}

#[test]
fn strikeout_lies_above_the_baseline() {
    let line = segment((0, 2), (0, 3), GREEN);
    let rects = line.rects(DecorationFlag::Strikeout, &metrics(), &size());
    // 16 - 6 - 1 = 9.
    assert_eq!(rects, vec![rect(px(20), px(9), px(20), px(2), GREEN, RectKind::Underline)]);
}

#[test]
fn undercurl_fills_the_descent() {
    let line = segment((0, 1), (0, 1), RED);
    let rects = line.rects(DecorationFlag::Undercurl, &metrics(), &size());
    // 16 + 4 - 2 = 18 would reach below the row: held at 20 - 4 = 16.
    assert_eq!(rects, vec![rect(px(10), px(16), px(10), px(4), RED, RectKind::Undercurl)]);
}

#[test]
fn dotted_underline_fills_the_descent() {
    let line = segment((0, 1), (0, 1), RED);
    let rects = line.rects(DecorationFlag::DottedUnderline, &metrics(), &size());
    assert_eq!(rects, vec![rect(px(10), px(16), px(10), px(4), RED, RectKind::UnderDotted)]);
}

#[test]
fn dashed_underline_lies_where_the_underline_lies() {
    let line = segment((0, 0), (0, 4), RED);
    let rects = line.rects(DecorationFlag::DashedUnderline, &metrics(), &size());
    assert_eq!(rects, vec![rect(0, px(18), px(50), px(1), RED, RectKind::UnderDashed)]);
}

#[test]
fn rounded_background_is_as_high_as_the_cell() {
    let line = segment((2, 0), (2, 1), RED);
    let rects = line.rects(DecorationFlag::RoundedBackground, &metrics(), &size());
    // Held at the top of the third row.
    assert_eq!(rects, vec![rect(0, px(40), px(20), px(20), RED, RectKind::RoundedBg)]);
}

#[test]
fn double_underline_gives_two_underlines() {
    let line = segment((0, 0), (0, 4), RED);
    let rects = line.rects(DecorationFlag::DoubleUnderline, &metrics(), &size());
    // 16 + 1 - 0.5 = 16.5 rounds to 17, and 16 + 3 - 0.5 = 18.5 rounds to 19.
    assert_eq!(
        rects,
        vec![
            rect(0, px(17), px(50), px(1), RED, RectKind::Underline),
            rect(0, px(19), px(50), px(1), RED, RectKind::Underline)
        ]
    );
    assert!(rects[0].y < rects[1].y);
}

#[test]
fn quarters_of_the_descent_are_not_rounded_before_the_placement() {
    let mut metrics = metrics();
    metrics.descent = -170;
    metrics.underline_thickness = 65;
    let line = segment((0, 0), (0, 0), RED);
    let rects = line.rects(DecorationFlag::DoubleUnderline, &metrics, &size());
    // The upper line lies at (1280 - 170 + 42.5 - 32.5) / 64 = 17.5 pixels, which rounds to
    // 18; the lower line at 18.83 pixels, which rounds to 19 and is held at 1280 - 65.
    assert_eq!(rects.len(), 2);
    assert_eq!((rects[0].y, rects[0].height), (18 * 64, 65));
    assert_eq!((rects[1].y, rects[1].height), (1215, 65));
}

#[test]
fn thin_lines_are_one_pixel_thick() {
    let line = segment((0, 0), (0, 4), RED);
    for asked in [63, 10, 1, 0, -64, i32::MIN] {
        let mut metrics = metrics();
        metrics.underline_thickness = asked;
        metrics.strikeout_thickness = asked;
        for flag in [
            DecorationFlag::Underline,
            DecorationFlag::DoubleUnderline,
            DecorationFlag::DashedUnderline,
            DecorationFlag::Strikeout,
        ] {
            for rect in line.rects(flag, &metrics, &size()) {
                assert_eq!(rect.height, 64);
            }
        }
    }
    let mut flat = metrics();
    flat.descent = -3;
    for flag in [DecorationFlag::Undercurl, DecorationFlag::DottedUnderline] {
        assert_eq!(line.rects(flag, &flat, &size())[0].height, 64);
    }
    let mut low = size();
    low.cell_height = 40;
    assert_eq!(line.rects(DecorationFlag::RoundedBackground, &metrics(), &low)[0].height, 64);
}

#[test]
fn thick_lines_keep_their_thickness() {
    let line = segment((0, 0), (0, 4), RED);
    let mut metrics = metrics();
    metrics.underline_thickness = 64;
    assert_eq!(line.rects(DecorationFlag::Underline, &metrics, &size())[0].height, 64);
    metrics.underline_thickness = 65;
    assert_eq!(line.rects(DecorationFlag::Underline, &metrics, &size())[0].height, 65);
}

#[test]
fn a_line_below_the_row_is_held_at_its_bottom() {
    let line = segment((0, 0), (0, 4), RED);
    let mut metrics = metrics();
    metrics.underline_position = px(-10);
    let rects = line.rects(DecorationFlag::Underline, &metrics, &size());
    assert_eq!(rects, vec![rect(0, px(19), px(50), px(1), RED, RectKind::Underline)]);
    metrics.underline_thickness = px(3);
    let rects = line.rects(DecorationFlag::Underline, &metrics, &size());
    assert_eq!(rects, vec![rect(0, px(17), px(50), px(3), RED, RectKind::Underline)]);
}

#[test]
fn a_line_at_the_bottom_of_the_row_is_not_moved() {
    let line = segment((0, 0), (0, 0), RED);
    let mut metrics = metrics();
    // 16 + 3.5 - 0.5 = 19, the lowest place of a line of one pixel.
    metrics.underline_position = -224;
    assert_eq!(line.rects(DecorationFlag::Underline, &metrics, &size())[0].y, 19 * 64);
}

#[test]
fn a_line_above_the_grid_has_a_negative_top() {
    let line = segment((0, 0), (0, 0), RED);
    let mut metrics = metrics();
    metrics.underline_position = px(10);
    let mut size = size();
    size.cell_height = px(1);
    // 1 - 4 - 10 - 0.5 = -13.5 rounds to -14.
    assert_eq!(line.rects(DecorationFlag::Underline, &metrics, &size)[0].y, -14 * 64);
}

#[test]
fn padding_moves_the_rectangle() {
    let mut size = size();
    size.padding_x = px(5);
    size.padding_y = px(3);
    let line = segment((0, 1), (0, 4), RED);
    let rects = line.rects(DecorationFlag::Underline, &metrics(), &size);
    assert_eq!(rects, vec![rect(px(15), px(21), px(40), px(1), RED, RectKind::Underline)]);
}

#[test]
fn a_segment_over_three_rows_is_split_by_row() {
    let mut size = size();
    size.last_column = 9;
    let line = segment((1, 3), (3, 1), RED);
    let rects = line.rects(DecorationFlag::Underline, &metrics(), &size);
    assert_eq!(
        rects,
        vec![
            rect(px(30), px(38), px(70), px(1), RED, RectKind::Underline),
            rect(0, px(58), px(100), px(1), RED, RectKind::Underline),
            rect(0, px(78), px(20), px(1), RED, RectKind::Underline)
        ]
    );
}

#[test]
fn a_double_underline_over_two_rows_gives_four_rects() {
    let mut size = size();
    size.last_column = 9;
    let line = segment((0, 8), (1, 0), GREEN);
    let rects = line.rects(DecorationFlag::DoubleUnderline, &metrics(), &size);
    assert_eq!(
        rects,
        vec![
            rect(px(80), px(17), px(20), px(1), GREEN, RectKind::Underline),
            rect(px(80), px(19), px(20), px(1), GREEN, RectKind::Underline),
            rect(0, px(37), px(10), px(1), GREEN, RectKind::Underline),
            rect(0, px(39), px(10), px(1), GREEN, RectKind::Underline)
        ]
    );
}

#[test]
fn create_rect_places_a_line_at_a_quarter_offset() {
    let rect = create_rect(&size(), px(-4), Point::new(0, 2), Point::new(0, 3), -256, 64, RED);
    // The offset is a quarter of -256 units, one pixel below the baseline.
    assert_eq!(rect.kind, RectKind::Underline);
    assert_eq!((rect.x, rect.y, rect.width, rect.height), (1280, 17 * 64, 1280, 64));
    assert_eq!((rect.color, rect.alpha), (RED, 255));
}

#[test]
fn push_rects_appends_to_what_is_there() {
    let mut rects = vec![RenderRect::new(1, 2, 3, 4, GREEN, 9)];
    push_rects(
        &mut rects,
        &metrics(),
        &size(),
        DecorationFlag::DoubleUnderline,
        Point::new(0, 0),
        Point::new(0, 0),
        RED,
    );
    push_rects(
        &mut rects,
        &metrics(),
        &size(),
        DecorationFlag::Undercurl,
        Point::new(0, 0),
        Point::new(7, 0),
        RED,
    );
    assert_eq!(rects.len(), 4);
    assert_eq!(rects[0], RenderRect::new(1, 2, 3, 4, GREEN, 9));
    assert_eq!(rects[1].y, 17 * 64);
    assert_eq!(rects[2].y, 19 * 64);
    assert_eq!(rects[3], rect(0, px(16), px(10), px(4), RED, RectKind::Undercurl));
}

#[test]
fn a_plain_rectangle_is_drawn_as_an_underline() {
    let plain = RenderRect::new(-5, 6, 7, 8, GREEN, 100);
    assert_eq!(
        plain,
        RenderRect {
            x: -5,
            y: 6,
            width: 7,
            height: 8,
            color: GREEN,
            alpha: 100,
            kind: RectKind::Underline
        }
    );
}

#[test]
fn rects_of_a_frame_come_decoration_after_decoration() {
    let mut lines = RenderLines::new();
    let flags = Flags::empty()
        .with(DecorationFlag::RoundedBackground)
        .with(DecorationFlag::Strikeout)
        .with(DecorationFlag::Underline);
    for (line, column) in [(0, 0), (0, 1), (1, 5)] {
        lines.update(&RenderableCell { point: Point::new(line, column), flags, fg: GREEN, underline: RED });
    }
    let dashed = Flags::empty().with(DecorationFlag::DashedUnderline);
    lines.update(&RenderableCell { point: Point::new(2, 0), flags: dashed, fg: GREEN, underline: RED });
    let rects = lines.rects(&metrics(), &size());
    assert_eq!(
        rects,
        vec![
            rect(0, px(18), px(20), px(1), RED, RectKind::Underline),
            rect(px(50), px(38), px(10), px(1), RED, RectKind::Underline),
            rect(0, px(9), px(20), px(2), GREEN, RectKind::Underline),
            rect(px(50), px(29), px(10), px(2), GREEN, RectKind::Underline),
            rect(0, px(58), px(10), px(1), RED, RectKind::UnderDashed),
            rect(0, 0, px(20), px(20), RED, RectKind::RoundedBg),
            rect(px(50), px(20), px(10), px(20), RED, RectKind::RoundedBg)
        ]
    );
}

#[test]
fn no_segments_give_no_rects() {
    assert!(RenderLines::new().rects(&metrics(), &size()).is_empty());
}

#[test]
fn rects_at_the_largest_index_fit() {
    let size = SizeInfo {
        width: i32::MAX,
        height: i32::MAX,
        cell_width: i32::MAX,
        cell_height: i32::MIN,
        padding_x: i32::MIN,
        padding_y: i32::MAX,
        last_column: MAX_INDEX,
    };
    let metrics = Metrics {
        descent: i32::MIN,
        underline_position: i32::MAX,
        underline_thickness: i32::MAX,
        strikeout_position: i32::MIN,
        strikeout_thickness: i32::MAX,
    };
    let line = segment((MAX_INDEX, 0), (MAX_INDEX, MAX_INDEX), RED);
    for flag in [
        DecorationFlag::Underline,
        DecorationFlag::DoubleUnderline,
        DecorationFlag::Strikeout,
        DecorationFlag::Undercurl,
        DecorationFlag::DottedUnderline,
        DecorationFlag::DashedUnderline,
        DecorationFlag::RoundedBackground,
    ] {
        for rect in line.rects(flag, &metrics, &size) {
            assert!(rect.is_in_range());
            assert_eq!(rect.width, (MAX_INDEX as i64 + 1) * i32::MAX as i64);
        }
    }
}

#[test]
fn a_rectangle_too_far_out_is_not_in_range() {
    assert!(RenderRect::new(0, 0, 0, 0, RED, 255).is_in_range());
    assert!(RenderRect::new(MAX_COORDINATE, -MAX_COORDINATE, 0, 0, RED, 255).is_in_range());
    assert!(!RenderRect::new(MAX_COORDINATE + 1, 0, 0, 0, RED, 255).is_in_range());
    assert!(!RenderRect::new(0, -MAX_COORDINATE - 1, 0, 0, RED, 255).is_in_range());
    assert!(!RenderRect::new(MAX_COORDINATE, 0, 1, 0, RED, 255).is_in_range());
    assert!(!RenderRect::new(0, 1, 0, MAX_COORDINATE, RED, 255).is_in_range());
    assert!(!RenderRect::new(i64::MAX, i64::MAX, i64::MAX, i64::MAX, RED, 255).is_in_range());
    assert!(RenderRect::new(MAX_COORDINATE, 0, -5, 0, RED, 255).is_in_range());
}
