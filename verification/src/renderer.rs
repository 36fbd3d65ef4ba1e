//! Batching the rectangles of a frame by kind, and the order of the draws.

use vstd::prelude::*;
use crate::geometry::RenderRect;
use crate::kind::{RectKind, NUM_KINDS};
use crate::metrics::SizeInfo;
use crate::shader::{RectShaderProgram, ShaderError};

verus! {

/// A corner of a rectangle in normalized device coordinates, which run from
/// -1 to +1 over the viewport, with `y` pointing up. `x` is the numerator of a
/// fraction over the viewport's width, `y` that of one over its height.
#[derive(Copy, Clone, Debug, PartialEq, Eq, Structural)]
pub struct Vertex {
    pub x: i64,
    pub y: i64,
    pub r: u8,
    pub g: u8,
    pub b: u8,
    pub a: u8,
}

/// One draw of a frame: the vertices batched for `kind`, `vertex_count` of
/// them, as a list of triangles under `program`.
#[derive(Copy, Clone, Debug, PartialEq, Eq, Structural)]
pub struct DrawCall {
    pub kind: RectKind,
    pub program: RectShaderProgram,
    pub vertex_count: usize,
}

/// The vertex of the point `(x, y)` of pixel space, for a viewport whose half
/// width and half height map to one: `x / (width / 2) - 1` and
/// `-y / (height / 2) + 1`, each as a numerator over the full width or height.
pub open spec fn vertex_at(x: int, y: int, rect: RenderRect, size: SizeInfo) -> Vertex {
    Vertex {
        x: (2 * x - size.width) as i64,
        y: (size.height - 2 * y) as i64,
        r: rect.color.r,
        g: rect.color.g,
        b: rect.color.b,
        a: rect.alpha,
    }
}

/// The corners of a rectangle: top left, bottom left, top right, bottom right.
pub open spec fn corners(rect: RenderRect, size: SizeInfo) -> Seq<Vertex> {
    seq![
        vertex_at(rect.x as int, rect.y as int, rect, size),
        vertex_at(rect.x as int, rect.y + rect.height, rect, size),
        vertex_at(rect.x + rect.width, rect.y as int, rect, size),
        vertex_at(rect.x + rect.width, rect.y + rect.height, rect, size),
    ]
}

/// The two triangles of a rectangle, which share the diagonal from its bottom
/// left to its top right corner.
pub open spec fn quad(rect: RenderRect, size: SizeInfo) -> Seq<Vertex> {
    let corner = corners(rect, size);
    seq![corner[0], corner[1], corner[2], corner[2], corner[3], corner[1]]
}

/// The vertices of the rectangles of one kind, in the order in which the
/// rectangles arrive.
pub open spec fn batch_of(rects: Seq<RenderRect>, kind: RectKind, size: SizeInfo) -> Seq<Vertex> {
    rects.filter(|rect: RenderRect| rect.kind == kind).map_values(
        |rect: RenderRect| quad(rect, size),
    ).flatten()
}

/// The kinds in the order in which their batches are drawn. What is drawn
/// later lies on top, so underlines and plain rectangles cover the rest.
pub open spec fn draw_order() -> Seq<RectKind> {
    seq![
        RectKind::RoundedBg,
        RectKind::UnderDashed,
        RectKind::UnderDotted,
        RectKind::Undercurl,
        RectKind::Underline,
    ]
}

/// The variant that draws dotted underlines: the one compiled for them, or
/// that of plain underlines where it could not be compiled.
pub open spec fn stand_in(
    dotted: Result<RectShaderProgram, ShaderError>,
    underline: RectShaderProgram,
) -> RectShaderProgram {
    match dotted {
        Ok(program) => program,
        Err(_) => underline,
    }
}

/// The shader variants and the batches of the current frame.
#[derive(Debug)]
pub struct RectRenderer {
    programs: [RectShaderProgram; 5],
    vertices: [Vec<Vertex>; 5],
}

impl RectRenderer {
    /// The variant that draws a kind.
    pub closed spec fn program_of(self, kind: RectKind) -> RectShaderProgram {
        self.programs[kind.ordinal()]
    }

    /// The vertices batched for a kind.
    pub closed spec fn batch(self, kind: RectKind) -> Seq<Vertex> {
        self.vertices[kind.ordinal()]@
    }

    /// The draw of a kind, as the batches stand.
    pub open spec fn call_of(self, kind: RectKind) -> DrawCall {
        DrawCall {
            kind,
            program: self.program_of(kind),
            vertex_count: self.batch(kind).len() as usize,
        }
    }

    /// The draws of a frame, as the batches stand: one for each kind that has
    /// vertices, in drawing order.
    pub open spec fn calls(self) -> Seq<DrawCall> {
        draw_order().filter(|kind: RectKind| self.batch(kind).len() > 0).map_values(
            |kind: RectKind| self.call_of(kind),
        )
    }

    /// Whether `after` is the renderer `self` once it has batched `rects`: the
    /// variants are unchanged, and each batch holds the vertices of the
    /// rectangles of its kind and nothing of what it held before.
    pub open spec fn batched(self, after: RectRenderer, rects: Seq<RenderRect>, size: SizeInfo) -> bool {
        forall|kind: RectKind|
            #![trigger after.batch(kind)]
            #![trigger after.program_of(kind)]
            {
                &&& after.program_of(kind) == self.program_of(kind)
                &&& after.batch(kind) == batch_of(rects, kind, size)
            }
    }

    /// A renderer from the outcome of compiling the five variants. The
    /// variant for dotted underlines may fail: plain underlines then stand in
    /// for them. Any other failure is the failure of the renderer, the first
    /// in the order underline, undercurl, dashed, rounded.
    pub fn new(
        underline: Result<RectShaderProgram, ShaderError>,
        undercurl: Result<RectShaderProgram, ShaderError>,
        dotted: Result<RectShaderProgram, ShaderError>,
        dashed: Result<RectShaderProgram, ShaderError>,
        rounded: Result<RectShaderProgram, ShaderError>,
    ) -> (made: Result<RectRenderer, ShaderError>)
        ensures
            made.is_ok() == (underline.is_ok() && undercurl.is_ok() && dashed.is_ok()
                && rounded.is_ok()),
            made.is_err() ==> made.unwrap_err() == (if underline.is_err() {
                underline.unwrap_err()
            } else if undercurl.is_err() {
                undercurl.unwrap_err()
            } else if dashed.is_err() {
                dashed.unwrap_err()
            } else {
                rounded.unwrap_err()
            }),
            made.is_ok() ==> {
                let renderer = made.unwrap();
                &&& renderer.program_of(RectKind::Underline) == underline.unwrap()
                &&& renderer.program_of(RectKind::Undercurl) == undercurl.unwrap()
                &&& renderer.program_of(RectKind::UnderDotted) == stand_in(dotted, underline.unwrap())
                &&& renderer.program_of(RectKind::UnderDashed) == dashed.unwrap()
                &&& renderer.program_of(RectKind::RoundedBg) == rounded.unwrap()
                &&& forall|kind: RectKind| renderer.batch(kind) == Seq::<Vertex>::empty()
            },
    {
        let under_line_program = match underline {
            Ok(program) => program,
            Err(error) => {
                return Err(error);
            },
        };
        let under_curl_program = match undercurl {
            Ok(program) => program,
            Err(error) => {
                return Err(error);
            },
        };
        // This shader has way more ALU operations than other rect shaders, so use a fallback
        // to underline just for it when we can't compile it.
        let under_dotted_program = match dotted {
            Ok(program) => program,
            Err(_) => under_line_program,
        };
        let under_dashed_program = match dashed {
            Ok(program) => program,
            Err(error) => {
                return Err(error);
            },
        };
        let rounded_background_program = match rounded {
            Ok(program) => program,
            Err(error) => {
                return Err(error);
            },
        };
        let programs = [
            under_line_program,
            under_curl_program,
            under_dotted_program,
            under_dashed_program,
            rounded_background_program,
        ];
        Ok(
            RectRenderer {
                programs,
                vertices: [Vec::new(), Vec::new(), Vec::new(), Vec::new(), Vec::new()],
            },
        )
    }

    /// The variant that draws a kind.
    pub fn program(&self, kind: RectKind) -> (program: &RectShaderProgram)
        ensures
            *program == self.program_of(kind),
    {
        &self.programs[kind.index()]
    }

    /// The vertices batched for a kind by the last `draw`.
    pub fn vertices(&self, kind: RectKind) -> (vertices: &Vec<Vertex>)
        ensures
            vertices@ == self.batch(kind),
    {
        &self.vertices[kind.index()]
    }

    /// Batches the rectangles of a frame by kind, in place of what was batched
    /// before, and gives the draws to make: one for each kind that has
    /// rectangles, from the highest kind down to underlines.
    pub fn draw(&mut self, size_info: &SizeInfo, rects: Vec<RenderRect>) -> (calls: Vec<DrawCall>)
        requires
            forall|i: int| 0 <= i < rects.len() ==> (#[trigger] rects[i]).in_range(),
        ensures
            old(self).batched(*final(self), rects@, *size_info),
            calls@ == final(self).calls(),
    {
        // Build rect vertices vector.
        let mut kind: usize = 0;
        while kind < NUM_KINDS
            invariant
                kind <= NUM_KINDS,
                self.programs == old(self).programs,
                forall|k: int| 0 <= k < kind ==> (#[trigger] self.vertices[k])@.len() == 0,
            decreases NUM_KINDS - kind,
        {
            self.vertices[kind].clear();
            kind = kind + 1;
        }
        proof {
            assert forall|k: RectKind| self.batch(k) == batch_of(rects@.take(0), k, *size_info) by {
                lemma_batch_of_nothing(rects@.take(0), k, *size_info);
                assert(self.vertices[k.ordinal()]@ =~= Seq::<Vertex>::empty());
            }
        }
        let mut i: usize = 0;
        while i < rects.len()
            invariant
                i <= rects.len(),
                self.programs == old(self).programs,
                forall|i: int| 0 <= i < rects.len() ==> (#[trigger] rects[i]).in_range(),
                forall|k: RectKind| #[trigger]
                    self.batch(k) == batch_of(rects@.take(i as int), k, *size_info),
            decreases rects.len() - i,
        {
            let rect = &rects[i];
            let ghost before = *self;
            Self::add_rect(&mut self.vertices[rect.kind.index()], size_info, rect);
            proof {
                assert(rects@.take(i + 1) =~= rects@.take(i as int).push(*rect));
                assert forall|k: RectKind| #[trigger]
                    self.batch(k) == batch_of(rects@.take(i + 1), k, *size_info) by {
                    assert(before.batch(k) == batch_of(rects@.take(i as int), k, *size_info));
                    lemma_batch_of_push(rects@.take(i as int), *rect, k, *size_info);
                }
            }
            i = i + 1;
        }
        proof {
            assert(rects@.take(i as int) =~= rects@);
        }

        // We iterate in reverse order to draw plain rects at the end, since we want visual
        // bell or damage rects be above the lines.
        let mut calls: Vec<DrawCall> = Vec::new();
        let ghost nonempty = |kind: RectKind| self.batch(kind).len() > 0;
        let ghost call = |kind: RectKind| self.call_of(kind);
        let mut rect_kind: usize = NUM_KINDS;
        proof {
            assert(draw_order().take(0).filter(nonempty).map_values(call) =~= calls@) by {
                reveal(Seq::filter);
            }
        }
        while rect_kind > 0
            invariant
                rect_kind <= NUM_KINDS,
                nonempty == |kind: RectKind| self.batch(kind).len() > 0,
                call == |kind: RectKind| self.call_of(kind),
                calls@ == draw_order().take(NUM_KINDS - rect_kind).filter(nonempty).map_values(call),
            decreases rect_kind,
        {
            rect_kind = rect_kind - 1;
            let ghost drawn = draw_order().take(NUM_KINDS - rect_kind - 1);
            let ghost this = RectKind::of_ordinal(rect_kind as int);
            proof {
                assert(draw_order().take(NUM_KINDS - rect_kind) =~= drawn.push(this));
                drawn.lemma_filter_push(this, nonempty);
            }
            let vertices = &self.vertices[rect_kind];
            if vertices.is_empty() {
                continue ;
            }
            let kind = RectKind::from_index(rect_kind).unwrap();
            calls.push(
                DrawCall { kind, program: self.programs[rect_kind], vertex_count: vertices.len() },
            );
            proof {
                assert(drawn.filter(nonempty).push(this).map_values(call) =~= drawn.filter(
                    nonempty,
                ).map_values(call).push(call(this)));
            }
        }
        proof {
            assert(draw_order().take(NUM_KINDS as int) =~= draw_order());
        }
        calls
    }

    /// Appends the two triangles of a rectangle.
    pub fn add_rect(vertices: &mut Vec<Vertex>, size_info: &SizeInfo, rect: &RenderRect)
        requires
            rect.in_range(),
        ensures
            final(vertices)@ == old(vertices)@ + quad(*rect, *size_info),
    {
        // Calculate rectangle vertices positions in normalized device coordinates.
        // NDC range from -1 to +1, with Y pointing up.
        let left: i64 = 2 * rect.x - size_info.width as i64;
        let top: i64 = size_info.height as i64 - 2 * rect.y;
        let right: i64 = 2 * (rect.x + rect.width) - size_info.width as i64;
        let bottom: i64 = size_info.height as i64 - 2 * (rect.y + rect.height);
        let (r, g, b) = rect.color.as_tuple();
        let a = rect.alpha;

        // Make quad vertices.
        let quad = [
            Vertex { x: left, y: top, r, g, b, a },
            Vertex { x: left, y: bottom, r, g, b, a },
            Vertex { x: right, y: top, r, g, b, a },
            Vertex { x: right, y: bottom, r, g, b, a },
        ];

        // Append the vertices to form two triangles.
        vertices.push(quad[0]);
        vertices.push(quad[1]);
        vertices.push(quad[2]);
        vertices.push(quad[2]);
        vertices.push(quad[3]);
        vertices.push(quad[1]);
        proof {
            assert(vertices@ =~= old(vertices)@ + self::quad(*rect, *size_info));
        }
    }
}

/// The corners of a rectangle that can be turned into vertices are those of
/// the mapping, none cut short by the integers that hold them; the top of the
/// rectangle comes out above its bottom, pixel space growing downwards and
/// device space upwards.
pub proof fn lemma_corners_exact(rect: RenderRect, size: SizeInfo)
    requires
        rect.in_range(),
    ensures
        ({
            let corner = corners(rect, size);
            &&& corner[0].x == 2 * rect.x - size.width
            &&& corner[0].y == size.height - 2 * rect.y
            &&& corner[3].x == 2 * (rect.x + rect.width) - size.width
            &&& corner[3].y == size.height - 2 * (rect.y + rect.height)
            &&& corner[1].x == corner[0].x && corner[1].y == corner[3].y
            &&& corner[2].x == corner[3].x && corner[2].y == corner[0].y
            &&& rect.height >= 0 ==> corner[0].y >= corner[1].y
        }),
{
}

/// Without rectangles every batch is empty.
pub proof fn lemma_batch_of_nothing(rects: Seq<RenderRect>, kind: RectKind, size: SizeInfo)
    requires
        rects.len() == 0,
    ensures
        batch_of(rects, kind, size) == Seq::<Vertex>::empty(),
{
    reveal(Seq::filter);
    assert(rects.filter(|rect: RenderRect| rect.kind == kind).map_values(
        |rect: RenderRect| quad(rect, size),
    ) =~= Seq::<Seq<Vertex>>::empty());
    assert(batch_of(rects, kind, size) =~= Seq::<Vertex>::empty());
}

/// One more rectangle adds its two triangles to the end of the batch of its
/// kind, and nothing to any other batch.
pub proof fn lemma_batch_of_push(
    rects: Seq<RenderRect>,
    rect: RenderRect,
    kind: RectKind,
    size: SizeInfo,
)
    ensures
        batch_of(rects.push(rect), kind, size) == (if rect.kind == kind {
            batch_of(rects, kind, size) + quad(rect, size)
        } else {
            batch_of(rects, kind, size)
        }),
{
    let of_kind = |rect: RenderRect| rect.kind == kind;
    let quads = |rect: RenderRect| quad(rect, size);
    rects.lemma_filter_push(rect, of_kind);
    if rect.kind == kind {
        let before = rects.filter(of_kind).map_values(quads);
        assert(rects.filter(of_kind).push(rect).map_values(quads) =~= before.push(quads(rect)));
        before.lemma_flatten_push(quads(rect));
    }
}

/// A batch holds six vertices for each rectangle of its kind.
pub proof fn lemma_batch_length(rects: Seq<RenderRect>, kind: RectKind, size: SizeInfo)
    ensures
        batch_of(rects, kind, size).len() == 6 * rects.filter(
            |rect: RenderRect| rect.kind == kind,
        ).len(),
    decreases rects.len(),
{
    let of_kind = |rect: RenderRect| rect.kind == kind;
    if rects.len() == 0 {
        lemma_batch_of_nothing(rects, kind, size);
        assert(rects.filter(of_kind).len() == 0) by {
            reveal(Seq::filter);
        }
    } else {
        let front = rects.drop_last();
        assert(rects =~= front.push(rects.last()));
        lemma_batch_length(front, kind, size);
        lemma_batch_of_push(front, rects.last(), kind, size);
        front.lemma_filter_push(rects.last(), of_kind);
    }
}

/// Drawing the same rectangles again gives the same batches and the same
/// draws in the same order, whatever was batched before.
pub proof fn lemma_draw_repeats(
    first: RectRenderer,
    second: RectRenderer,
    third: RectRenderer,
    rects: Seq<RenderRect>,
    size: SizeInfo,
)
    requires
        first.batched(second, rects, size),
        second.batched(third, rects, size),
    ensures
        forall|kind: RectKind| third.batch(kind) == second.batch(kind),
        forall|kind: RectKind| third.program_of(kind) == second.program_of(kind),
        third.calls() == second.calls(),
{
    assert forall|kind: RectKind| third.batch(kind) == second.batch(kind) by {
        assert(third.batch(kind) == batch_of(rects, kind, size));
        assert(second.batch(kind) == batch_of(rects, kind, size));
    }
    assert forall|kind: RectKind| third.program_of(kind) == second.program_of(kind) by {}
    let in_third = |kind: RectKind| third.batch(kind).len() > 0;
    let in_second = |kind: RectKind| second.batch(kind).len() > 0;
    assert(in_third =~= in_second);
    let of_third = |kind: RectKind| third.call_of(kind);
    let of_second = |kind: RectKind| second.call_of(kind);
    assert(of_third =~= of_second);
}

/// The draws of a frame come in falling order of kind, so that underlines
/// and plain rectangles are drawn last and lie on top. Each kind that has
/// vertices is drawn once, with all of its vertices and under its own variant;
/// a kind without vertices is not drawn.
pub proof fn lemma_calls_in_order(renderer: RectRenderer)
    ensures
        forall|i: int, j: int|
            0 <= i < j < renderer.calls().len() ==> (#[trigger] renderer.calls()[i]).kind.ordinal() > (
            #[trigger] renderer.calls()[j]).kind.ordinal(),
        forall|i: int|
            0 <= i < renderer.calls().len() ==> {
                let call = #[trigger] renderer.calls()[i];
                &&& call == renderer.call_of(call.kind)
                &&& renderer.batch(call.kind).len() > 0
            },
        forall|kind: RectKind|
            renderer.batch(kind).len() > 0 ==> renderer.calls().contains(
                #[trigger] renderer.call_of(kind),
            ),
{
    let nonempty = |kind: RectKind| renderer.batch(kind).len() > 0;
    let call = |kind: RectKind| renderer.call_of(kind);
    let none = Seq::<RectKind>::empty();
    let one = none.push(RectKind::RoundedBg);
    let two = one.push(RectKind::UnderDashed);
    let three = two.push(RectKind::UnderDotted);
    let four = three.push(RectKind::Undercurl);
    let five = four.push(RectKind::Underline);
    assert(five =~= draw_order());
    assert(none.filter(nonempty) =~= none) by {
        reveal(Seq::filter);
    }
    none.lemma_filter_push(RectKind::RoundedBg, nonempty);
    one.lemma_filter_push(RectKind::UnderDashed, nonempty);
    two.lemma_filter_push(RectKind::UnderDotted, nonempty);
    three.lemma_filter_push(RectKind::Undercurl, nonempty);
    four.lemma_filter_push(RectKind::Underline, nonempty);
    let kinds = five.filter(nonempty);
    let calls = renderer.calls();
    assert(calls == kinds.map_values(call));
    assert forall|i: int| 0 <= i < calls.len() implies (#[trigger] calls[i]).kind == kinds[i]
        && calls[i] == renderer.call_of(kinds[i]) by {}
    assert forall|kind: RectKind| renderer.batch(kind).len() > 0 implies calls.contains(
        #[trigger] renderer.call_of(kind),
    ) by {
        assert(five[4 - kind.ordinal()] == kind);
        five.lemma_filter_contains(nonempty, 4 - kind.ordinal());
        let at = choose|at: int| 0 <= at < kinds.len() && kinds[at] == kind;
        assert(calls[at] == renderer.call_of(kind));
    }
}

/// Where the variant for dotted underlines stands in for a failed one, dotted
/// underlines are still drawn, under the variant of plain underlines.
pub proof fn lemma_dotted_falls_back(
    renderer: RectRenderer,
    underline: RectShaderProgram,
    dotted: Result<RectShaderProgram, ShaderError>,
)
    requires
        dotted.is_err(),
        renderer.program_of(RectKind::UnderDotted) == stand_in(dotted, underline),
        renderer.batch(RectKind::UnderDotted).len() > 0,
    ensures
        renderer.calls().contains(
            DrawCall {
                kind: RectKind::UnderDotted,
                program: underline,
                vertex_count: renderer.batch(RectKind::UnderDotted).len() as usize,
            },
        ),
{
    lemma_calls_in_order(renderer);
    assert(renderer.call_of(RectKind::UnderDotted) == (DrawCall {
        kind: RectKind::UnderDotted,
        program: underline,
        vertex_count: renderer.batch(RectKind::UnderDotted).len() as usize,
    }));
}

} // verus!
