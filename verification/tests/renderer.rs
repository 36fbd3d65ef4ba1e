use decorations::cell::Rgb;
use decorations::geometry::RenderRect;
use decorations::kind::{RectKind, NUM_KINDS};
use decorations::metrics::SizeInfo;
use decorations::renderer::{DrawCall, RectRenderer, Vertex};
use decorations::shader::{RectShaderProgram, ShaderError, UniformLocations};

const RED: Rgb = Rgb { r: 255, g: 0, b: 0 };
const TEAL: Rgb = Rgb { r: 0, g: 128, b: 129 };

const KINDS: [RectKind; 5] = [
    RectKind::Underline,
    RectKind::Undercurl,
    RectKind::UnderDotted,
    RectKind::UnderDashed,
    RectKind::RoundedBg,
];

fn viewport() -> SizeInfo {
    SizeInfo {
        width: 800 * 64,
        height: 600 * 64,
        cell_width: 10 * 64,
        cell_height: 20 * 64,
        padding_x: 0,
        padding_y: 0,
        last_column: 79,
    }
}

fn locations(first: i32) -> UniformLocations {
    UniformLocations {
        cell_width: first,
        cell_height: first + 1,
        padding_x: first + 2,
        padding_y: first + 3,
        underline_position: first + 4,
        underline_thickness: first + 5,
        undercurl_position: first + 6,
    }
}

fn compiled(id: u32) -> Result<RectShaderProgram, ShaderError> {
    RectShaderProgram::new(Ok(id), locations(id as i32 * 10))
}

fn failed(message: &str) -> Result<RectShaderProgram, ShaderError> {
    Err(ShaderError { message: message.to_string() })
}

fn renderer() -> RectRenderer {
    RectRenderer::new(compiled(11), compiled(12), compiled(13), compiled(14), compiled(15)).unwrap()
}

fn rect(kind: RectKind, x: i64) -> RenderRect {
    RenderRect { x, y: 20 * 64, width: 30 * 64, height: 2 * 64, color: RED, alpha: 255, kind }
}

fn kinds_of(calls: &[DrawCall]) -> Vec<RectKind> {
    calls.iter().map(|call| call.kind).collect()
}

#[test]
fn kinds_are_numbered_in_declaration_order() {
    assert_eq!(NUM_KINDS, 5);
    for (position, kind) in KINDS.iter().enumerate() {
        assert_eq!(kind.index(), position);
        assert_eq!(RectKind::from_index(position), Some(*kind));
    }
    assert_eq!(RectKind::from_index(5), None);
    assert_eq!(RectKind::from_index(usize::MAX), None);
}

#[test]
fn a_new_renderer_holds_each_variant_and_no_vertices() {
    let renderer = renderer();
    for (position, kind) in KINDS.iter().enumerate() {
        assert_eq!(renderer.program(*kind).id(), 11 + position as u32);
        assert!(renderer.vertices(*kind).is_empty());
    }
}

#[test]
fn failed_dotted_variant_is_replaced_by_the_underline_variant() {
    let made = RectRenderer::new(compiled(11), compiled(12), failed("too long"), compiled(14), compiled(15));
    let mut renderer = made.expect("the renderer does without the dotted variant");
    assert_eq!(renderer.program(RectKind::UnderDotted), renderer.program(RectKind::Underline));
    assert_eq!(renderer.program(RectKind::UnderDotted).id(), 11);
    assert_eq!(renderer.program(RectKind::Undercurl).id(), 12);
    assert_eq!(renderer.program(RectKind::UnderDashed).id(), 14);
    assert_eq!(renderer.program(RectKind::RoundedBg).id(), 15);

    let calls = renderer.draw(&viewport(), vec![rect(RectKind::UnderDotted, 0)]);
    assert_eq!(
        calls,
        vec![DrawCall {
            kind: RectKind::UnderDotted,
            program: compiled(11).unwrap(),
            vertex_count: 6
        }]
    );
    assert_eq!(renderer.vertices(RectKind::UnderDotted).len(), 6);
    assert!(renderer.vertices(RectKind::Underline).is_empty());
}

#[test]
fn any_other_failed_variant_fails_the_renderer() {
    let made = RectRenderer::new(failed("underline"), compiled(12), compiled(13), compiled(14), compiled(15));
    assert_eq!(made.unwrap_err().message, "underline");
    let made = RectRenderer::new(compiled(11), failed("undercurl"), compiled(13), compiled(14), compiled(15));
    assert_eq!(made.unwrap_err().message, "undercurl");
    let made = RectRenderer::new(compiled(11), compiled(12), compiled(13), failed("dashed"), compiled(15));
    assert_eq!(made.unwrap_err().message, "dashed");
    let made = RectRenderer::new(compiled(11), compiled(12), compiled(13), compiled(14), failed("rounded"));
    assert_eq!(made.unwrap_err().message, "rounded");
}

#[test]
fn the_first_failure_is_the_one_reported() {
    let made = RectRenderer::new(
        compiled(11),
        failed("undercurl"),
        failed("dotted"),
        failed("dashed"),
        failed("rounded"),
    );
    assert_eq!(made.unwrap_err().message, "undercurl");
    let made =
        RectRenderer::new(compiled(11), compiled(12), failed("dotted"), failed("dashed"), failed("rounded"));
    assert_eq!(made.unwrap_err().message, "dashed");
    let made = RectRenderer::new(
        failed("underline"),
        failed("undercurl"),
        failed("dotted"),
        failed("dashed"),
        failed("rounded"),
    );
    assert_eq!(made.unwrap_err().message, "underline");
}

#[test]
fn a_rectangle_becomes_two_triangles() {
    let mut vertices = Vec::new();
    let rect = RenderRect {
        x: 10 * 64,
        y: 20 * 64,
        width: 30 * 64,
        height: 2 * 64,
        color: TEAL,
        alpha: 77,
        kind: RectKind::Undercurl,
    };
    RectRenderer::add_rect(&mut vertices, &viewport(), &rect);
    let corner = |x: i64, y: i64| Vertex { x, y, r: 0, g: 128, b: 129, a: 77 };
    let (left, right, top, bottom) = (-49920, -46080, 35840, 35584);
    assert_eq!(
        vertices,
        vec![
            corner(left, top),
            corner(left, bottom),
            corner(right, top),
            corner(right, top),
            corner(right, bottom),
            corner(left, bottom)
        ]
    );
}

#[test]
fn vertices_are_normalized_device_coordinates() {
    let mut vertices = Vec::new();
    let size = viewport();
    let rect = rect(RectKind::Underline, 10 * 64);
    RectRenderer::add_rect(&mut vertices, &size, &rect);
    let (center_x, center_y) = (800.0f32 / 2.0, 600.0f32 / 2.0);
    let expected = [
        (10.0 / center_x - 1.0, -20.0 / center_y + 1.0),
        (10.0 / center_x - 1.0, -22.0 / center_y + 1.0),
        (40.0 / center_x - 1.0, -20.0 / center_y + 1.0),
        (40.0 / center_x - 1.0, -20.0 / center_y + 1.0),
        (40.0 / center_x - 1.0, -22.0 / center_y + 1.0),
        (10.0 / center_x - 1.0, -22.0 / center_y + 1.0),
    ];
    assert_eq!(vertices.len(), 6);
    for (vertex, (x, y)) in vertices.iter().zip(expected) {
        assert!((vertex.x as f32 / size.width as f32 - x).abs() < 1e-6);
        assert!((vertex.y as f32 / size.height as f32 - y).abs() < 1e-6);
    }
}

#[test]
fn the_corners_of_the_viewport_map_to_plus_and_minus_one() {
    let mut vertices = Vec::new();
    let size = viewport();
    let whole = RenderRect::new(0, 0, size.width as i64, size.height as i64, RED, 255);
    RectRenderer::add_rect(&mut vertices, &size, &whole);
    let (width, height) = (size.width as i64, size.height as i64);
    assert_eq!((vertices[0].x, vertices[0].y), (-width, height));
    assert_eq!((vertices[1].x, vertices[1].y), (-width, -height));
    assert_eq!((vertices[2].x, vertices[2].y), (width, height));
    assert_eq!((vertices[4].x, vertices[4].y), (width, -height));
}

#[test]
fn add_rect_appends() {
    let mut vertices = Vec::new();
    RectRenderer::add_rect(&mut vertices, &viewport(), &rect(RectKind::Underline, 0));
    let first = vertices.clone();
    RectRenderer::add_rect(&mut vertices, &viewport(), &rect(RectKind::Underline, 64));
    assert_eq!(vertices.len(), 12);
    assert_eq!(vertices[..6], first[..]);
    assert_eq!(vertices[6].x, first[0].x + 128);
}

#[test]
fn draw_batches_by_kind_in_arrival_order() {
    let mut renderer = renderer();
    let rects = vec![
        rect(RectKind::Undercurl, 0),
        rect(RectKind::Underline, 64),
        rect(RectKind::RoundedBg, 128),
        rect(RectKind::Underline, 192),
    ];
    let size = viewport();
    renderer.draw(&size, rects.clone());

    let mut underlines = Vec::new();
    RectRenderer::add_rect(&mut underlines, &size, &rects[1]);
    RectRenderer::add_rect(&mut underlines, &size, &rects[3]);
    let mut undercurls = Vec::new();
    RectRenderer::add_rect(&mut undercurls, &size, &rects[0]);
    let mut backgrounds = Vec::new();
    RectRenderer::add_rect(&mut backgrounds, &size, &rects[2]);

    assert_eq!(renderer.vertices(RectKind::Underline), &underlines);
    assert_eq!(renderer.vertices(RectKind::Undercurl), &undercurls);
    assert_eq!(renderer.vertices(RectKind::RoundedBg), &backgrounds);
    assert!(renderer.vertices(RectKind::UnderDotted).is_empty());
    assert!(renderer.vertices(RectKind::UnderDashed).is_empty());
}

#[test]
fn draws_go_from_the_highest_kind_down_to_underlines() {
    let mut renderer = renderer();
    let rects = vec![
        rect(RectKind::Underline, 0),
        rect(RectKind::Undercurl, 0),
        rect(RectKind::UnderDotted, 0),
        rect(RectKind::UnderDashed, 0),
        rect(RectKind::RoundedBg, 0),
        rect(RectKind::Underline, 0),
    ];
    let calls = renderer.draw(&viewport(), rects);
    assert_eq!(
        calls,
        vec![
            DrawCall { kind: RectKind::RoundedBg, program: compiled(15).unwrap(), vertex_count: 6 },
            DrawCall { kind: RectKind::UnderDashed, program: compiled(14).unwrap(), vertex_count: 6 },
            DrawCall { kind: RectKind::UnderDotted, program: compiled(13).unwrap(), vertex_count: 6 },
            DrawCall { kind: RectKind::Undercurl, program: compiled(12).unwrap(), vertex_count: 6 },
            DrawCall { kind: RectKind::Underline, program: compiled(11).unwrap(), vertex_count: 12 }
        ]
    );
}

#[test]
fn kinds_without_rectangles_are_not_drawn() {
    let mut renderer = renderer();
    let rects = vec![rect(RectKind::Underline, 0), rect(RectKind::UnderDashed, 0)];
    let calls = renderer.draw(&viewport(), rects);
    assert_eq!(kinds_of(&calls), vec![RectKind::UnderDashed, RectKind::Underline]);
    assert!(renderer.draw(&viewport(), Vec::new()).is_empty());
}

#[test]
fn drawing_again_gives_the_same_batches_and_draws() {
    let mut renderer = renderer();
    let rects = vec![
        rect(RectKind::RoundedBg, 5),
        rect(RectKind::Underline, 6),
        rect(RectKind::RoundedBg, 7),
        rect(RectKind::Undercurl, 8),
    ];
    let size = viewport();
    let first_calls = renderer.draw(&size, rects.clone());
    let first: Vec<Vec<Vertex>> = KINDS.iter().map(|kind| renderer.vertices(*kind).clone()).collect();
    for _ in 0..3 {
        let calls = renderer.draw(&size, rects.clone());
        let batches: Vec<Vec<Vertex>> = KINDS.iter().map(|kind| renderer.vertices(*kind).clone()).collect();
        assert_eq!(calls, first_calls);
        assert_eq!(batches, first);
    }
    assert_eq!(kinds_of(&first_calls), vec![RectKind::RoundedBg, RectKind::Undercurl, RectKind::Underline]);
}

#[test]
fn a_draw_forgets_the_frame_before() {
    let mut renderer = renderer();
    renderer.draw(&viewport(), vec![rect(RectKind::UnderDotted, 0), rect(RectKind::Underline, 0)]);
    let calls = renderer.draw(&viewport(), vec![rect(RectKind::Underline, 0)]);
    assert_eq!(kinds_of(&calls), vec![RectKind::Underline]);
    assert!(renderer.vertices(RectKind::UnderDotted).is_empty());
    assert_eq!(renderer.vertices(RectKind::Underline).len(), 6);
    assert_eq!(renderer.program(RectKind::UnderDotted).id(), 13);
}
