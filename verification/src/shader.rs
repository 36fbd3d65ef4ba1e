//! The shader variants, one for each kind of rectangle.

use vstd::prelude::*;
use crate::geometry::magnitude;
use crate::kind::RectKind;
use crate::metrics::{Metrics, SizeInfo};

verus! {

/// A variant that could not be compiled or linked.
#[derive(Debug)]
pub struct ShaderError {
    /// What the graphics backend said.
    pub message: String,
}

/// An input of the rectangle shaders.
#[derive(Copy, Clone, Debug, PartialEq, Eq, Structural)]
pub enum Uniform {
    CellWidth,
    CellHeight,
    PaddingX,
    PaddingY,
    UnderlinePosition,
    UnderlineThickness,
    UndercurlPosition,
}

impl Uniform {
    /// The name of the input in the shader source.
    pub open spec fn name_of(self) -> Seq<char> {
        match self {
            Uniform::CellWidth => "cellWidth"@,
            Uniform::CellHeight => "cellHeight"@,
            Uniform::PaddingX => "paddingX"@,
            Uniform::PaddingY => "paddingY"@,
            Uniform::UnderlinePosition => "underlinePosition"@,
            Uniform::UnderlineThickness => "underlineThickness"@,
            Uniform::UndercurlPosition => "undercurlPosition"@,
        }
    }

    /// The name under which the location of the input is looked up.
    pub fn name(self) -> (name: &'static str)
        ensures
            name@ == self.name_of(),
    {
        match self {
            Uniform::CellWidth => "cellWidth",
            Uniform::CellHeight => "cellHeight",
            Uniform::PaddingX => "paddingX",
            Uniform::PaddingY => "paddingY",
            Uniform::UnderlinePosition => "underlinePosition",
            Uniform::UnderlineThickness => "underlineThickness",
            Uniform::UndercurlPosition => "undercurlPosition",
        }
    }
}

/// What a lookup answers for an input that the variant does not have.
pub const NO_LOCATION: i32 = -1;

/// The locations of the inputs of a compiled variant, as the lookups answered:
/// `NO_LOCATION` for each input that the compiler has optimized away.
#[derive(Copy, Clone, Debug, PartialEq, Eq, Structural)]
pub struct UniformLocations {
    pub cell_width: i32,
    pub cell_height: i32,
    pub padding_x: i32,
    pub padding_y: i32,
    pub underline_position: i32,
    pub underline_thickness: i32,
    pub undercurl_position: i32,
}

impl UniformLocations {
    /// What the lookup of one input answered.
    pub open spec fn of(self, uniform: Uniform) -> i32 {
        match uniform {
            Uniform::CellWidth => self.cell_width,
            Uniform::CellHeight => self.cell_height,
            Uniform::PaddingX => self.padding_x,
            Uniform::PaddingY => self.padding_y,
            Uniform::UnderlinePosition => self.underline_position,
            Uniform::UnderlineThickness => self.underline_thickness,
            Uniform::UndercurlPosition => self.undercurl_position,
        }
    }
}

/// The handle that stands for the answer of a lookup: none where the input is
/// absent.
pub open spec fn handle_of(location: i32) -> Option<i32> {
    if location == NO_LOCATION {
        None
    } else {
        Some(location)
    }
}

/// One value to hand to the program in use.
#[derive(Copy, Clone, Debug, PartialEq, Eq, Structural)]
pub struct UniformWrite {
    pub uniform: Uniform,
    pub location: i32,
    pub value: i64,
}

/// The largest whole number of rows of cells that fit in `height`.
pub open spec fn whole_rows(height: int, cell_height: int) -> int {
    if cell_height > 0 {
        height / cell_height
    } else {
        (-height) / (-cell_height)
    }
}

/// The gutter below the grid: what is left of the viewport's height without
/// the padding, once the largest whole number of rows is taken away.
pub open spec fn gutter(size: SizeInfo) -> int {
    let height = size.height - size.padding_y;
    height - whole_rows(height, size.cell_height as int) * size.cell_height
}

/// The value of an input for a frame. The undercurl lies half the descent
/// from the baseline, less what is left of a unit.
pub open spec fn uniform_value(uniform: Uniform, size: SizeInfo, metrics: Metrics) -> int {
    match uniform {
        Uniform::CellWidth => size.cell_width as int,
        Uniform::CellHeight => size.cell_height as int,
        Uniform::PaddingX => size.padding_x as int,
        Uniform::PaddingY => gutter(size),
        Uniform::UnderlinePosition => magnitude(metrics.descent as int) - magnitude(
            metrics.underline_position as int,
        ),
        Uniform::UnderlineThickness => metrics.underline_thickness as int,
        Uniform::UndercurlPosition => magnitude(metrics.descent as int) / 2,
    }
}

/// The inputs in the order in which they are written.
pub open spec fn write_order() -> Seq<Uniform> {
    seq![
        Uniform::CellWidth,
        Uniform::CellHeight,
        Uniform::PaddingY,
        Uniform::PaddingX,
        Uniform::UnderlinePosition,
        Uniform::UnderlineThickness,
        Uniform::UndercurlPosition,
    ]
}

/// Rectangle drawing program.
#[derive(Copy, Clone, Debug, PartialEq, Eq, Structural)]
pub struct RectShaderProgram {
    /// Shader program.
    program: u32,
    /// Cell width.
    u_cell_width: Option<i32>,
    /// Cell height.
    u_cell_height: Option<i32>,
    /// Terminal padding.
    u_padding_x: Option<i32>,
    /// A padding from the bottom of the screen to viewport.
    u_padding_y: Option<i32>,
    /// Underline position.
    u_underline_position: Option<i32>,
    /// Underline thickness.
    u_underline_thickness: Option<i32>,
    /// Undercurl position.
    u_undercurl_position: Option<i32>,
}

/// The absolute value of a metric.
fn depth(length: i32) -> (depth: i64)
    ensures
        depth == magnitude(length as int),
{
    if length < 0 {
        -(length as i64)
    } else {
        length as i64
    }
}

/// What is left of `value` after the largest whole multiple of `divisor` below
/// it or equal to it.
fn remainder(value: i64, divisor: i64) -> (rest: i64)
    requires
        0 < divisor,
        -0x1_0000_0000 <= value <= 0x1_0000_0000,
    ensures
        rest == value - (value / divisor) * divisor,
        0 <= rest < divisor,
{
    proof {
        vstd::arithmetic::div_mod::lemma_fundamental_div_mod(value as int, divisor as int);
        vstd::arithmetic::div_mod::lemma_mod_bound(value as int, divisor as int);
        assert(divisor * (value / divisor) == (value / divisor) * divisor) by (nonlinear_arith);
    }
    if value >= 0 {
        ((value as u64) % (divisor as u64)) as i64
    } else {
        let below: u64 = ((-value) as u64) % (divisor as u64);
        proof {
            let quotient = (-value) / (divisor as int);
            vstd::arithmetic::div_mod::lemma_fundamental_div_mod(-value, divisor as int);
            if below == 0 {
                assert(value == (-quotient) * divisor + 0) by (nonlinear_arith)
                    requires
                        -value == divisor * quotient,
                ;
                vstd::arithmetic::div_mod::lemma_fundamental_div_mod_converse(
                    value as int,
                    divisor as int,
                    -quotient,
                    0,
                );
            } else {
                assert(value == (-quotient - 1) * divisor + (divisor - below)) by (nonlinear_arith)
                    requires
                        -value == divisor * quotient + below,
                ;
                vstd::arithmetic::div_mod::lemma_fundamental_div_mod_converse(
                    value as int,
                    divisor as int,
                    -quotient - 1,
                    divisor - below,
                );
            }
        }
        if below == 0 {
            0
        } else {
            divisor - below as i64
        }
    }
}

impl RectShaderProgram {
    /// The identifier of the compiled program.
    pub closed spec fn program(self) -> u32 {
        self.program
    }

    /// The handle of an input, where the variant has it.
    pub closed spec fn handle(self, uniform: Uniform) -> Option<i32> {
        match uniform {
            Uniform::CellWidth => self.u_cell_width,
            Uniform::CellHeight => self.u_cell_height,
            Uniform::PaddingX => self.u_padding_x,
            Uniform::PaddingY => self.u_padding_y,
            Uniform::UnderlinePosition => self.u_underline_position,
            Uniform::UnderlineThickness => self.u_underline_thickness,
            Uniform::UndercurlPosition => self.u_undercurl_position,
        }
    }

    /// The text that selects the code of a kind when its variant is compiled:
    /// a marker of its own for each kind but `Underline`, which has none.
    pub open spec fn header_of(kind: RectKind) -> Option<Seq<char>> {
        match kind {
            RectKind::RoundedBg => Some("#define DRAW_ROUNDED_BACKGROUND\n"@),
            RectKind::Undercurl => Some("#define DRAW_UNDER_CURL\n"@),
            RectKind::UnderDotted => Some("#define DRAW_UNDER_DOTTED\n"@),
            RectKind::UnderDashed => Some("#define DRAW_UNDER_DASHED\n"@),
            RectKind::Underline => None,
        }
    }

    /// The text to put before the shader source when the variant of `kind` is
    /// compiled.
    pub fn header(kind: RectKind) -> (header: Option<&'static str>)
        ensures
            header.is_some() == Self::header_of(kind).is_some(),
            header.is_some() ==> header.unwrap()@ == Self::header_of(kind).unwrap(),
    {
        match kind {
            RectKind::RoundedBg => Some("#define DRAW_ROUNDED_BACKGROUND\n"),
            RectKind::Undercurl => Some("#define DRAW_UNDER_CURL\n"),
            RectKind::UnderDotted => Some("#define DRAW_UNDER_DOTTED\n"),
            RectKind::UnderDashed => Some("#define DRAW_UNDER_DASHED\n"),
            RectKind::Underline => None,
        }
    }

    /// The variant around a program that was compiled with `header`, or the
    /// error of its compilation. An input whose lookup answered `NO_LOCATION`
    /// gets no handle.
    pub fn new(compiled: Result<u32, ShaderError>, locations: UniformLocations) -> (made: Result<
        RectShaderProgram,
        ShaderError,
    >)
        ensures
            compiled.is_ok() == made.is_ok(),
            compiled.is_err() ==> made.unwrap_err() == compiled.unwrap_err(),
            compiled.is_ok() ==> made.unwrap().program() == compiled.unwrap(),
            compiled.is_ok() ==> forall|uniform: Uniform|
                made.unwrap().handle(uniform) == handle_of(locations.of(uniform)),
    {
        let program = match compiled {
            Ok(program) => program,
            Err(error) => {
                return Err(error);
            },
        };
        Ok(
            RectShaderProgram {
                program,
                u_cell_width: Self::found(locations.cell_width),
                u_cell_height: Self::found(locations.cell_height),
                u_padding_x: Self::found(locations.padding_x),
                u_padding_y: Self::found(locations.padding_y),
                u_underline_position: Self::found(locations.underline_position),
                u_underline_thickness: Self::found(locations.underline_thickness),
                u_undercurl_position: Self::found(locations.undercurl_position),
            },
        )
    }

    fn found(location: i32) -> (handle: Option<i32>)
        ensures
            handle == handle_of(location),
    {
        if location == NO_LOCATION {
            None
        } else {
            Some(location)
        }
    }

    pub fn id(&self) -> (id: u32)
        ensures
            id == self.program(),
    {
        self.program
    }

    /// The handle of an input, where the variant has it.
    pub fn location(&self, uniform: Uniform) -> (handle: Option<i32>)
        ensures
            handle == self.handle(uniform),
    {
        match uniform {
            Uniform::CellWidth => self.u_cell_width,
            Uniform::CellHeight => self.u_cell_height,
            Uniform::PaddingX => self.u_padding_x,
            Uniform::PaddingY => self.u_padding_y,
            Uniform::UnderlinePosition => self.u_underline_position,
            Uniform::UnderlineThickness => self.u_underline_thickness,
            Uniform::UndercurlPosition => self.u_undercurl_position,
        }
    }

    /// The write of one input that has a handle.
    pub open spec fn write_of(self, uniform: Uniform, size: SizeInfo, metrics: Metrics) -> UniformWrite {
        UniformWrite {
            uniform,
            location: self.handle(uniform).unwrap(),
            value: uniform_value(uniform, size, metrics) as i64,
        }
    }

    /// The writes of the inputs among `uniforms` that have a handle, in the
    /// order of `uniforms`.
    pub open spec fn writes_of(self, uniforms: Seq<Uniform>, size: SizeInfo, metrics: Metrics) -> Seq<
        UniformWrite,
    > {
        uniforms.filter(|uniform: Uniform| self.handle(uniform).is_some()).map_values(
            |uniform: Uniform| self.write_of(uniform, size, metrics),
        )
    }

    /// The writes of a frame: one for each input that has a handle.
    pub open spec fn writes(self, size: SizeInfo, metrics: Metrics) -> Seq<UniformWrite> {
        self.writes_of(write_order(), size, metrics)
    }

    /// The values to write to the inputs of the program for a frame, in the
    /// order in which to write them. An input without a handle is not written.
    pub fn update_uniforms(&self, size_info: &SizeInfo, metrics: &Metrics) -> (writes: Vec<
        UniformWrite,
    >)
        requires
            size_info.cell_height != 0,
        ensures
            writes@ == self.writes(*size_info, *metrics),
            forall|i: int|
                0 <= i < writes.len() ==> (#[trigger] writes[i]).value == uniform_value(
                    writes[i].uniform,
                    *size_info,
                    *metrics,
                ),
    {
        let position: i64 = depth(metrics.descent) / 2;
        let underline_position: i64 = depth(metrics.descent) - depth(metrics.underline_position);

        let viewport_height: i64 = size_info.height as i64 - size_info.padding_y as i64;
        let cell_height: i64 = size_info.cell_height as i64;
        let padding_y: i64 = if cell_height > 0 {
            remainder(viewport_height, cell_height)
        } else {
            proof {
                assert((-viewport_height) / (-cell_height) * (-cell_height) == -((-viewport_height)
                    / (-cell_height) * cell_height)) by (nonlinear_arith);
            }
            -remainder(-viewport_height, -cell_height)
        };
        let cell_width: i64 = size_info.cell_width as i64;
        let padding_x: i64 = size_info.padding_x as i64;
        let thickness: i64 = metrics.underline_thickness as i64;

        let mut writes: Vec<UniformWrite> = Vec::new();
        let ghost mut seen: Seq<Uniform> = Seq::empty();
        proof {
            assert(self.writes_of(seen, *size_info, *metrics) =~= writes@) by {
                reveal(Seq::filter);
            }
        }
        self.push_write(&mut writes, Ghost(seen), Uniform::CellWidth, cell_width, size_info, metrics);
        proof {
            seen = seen.push(Uniform::CellWidth);
        }
        self.push_write(&mut writes, Ghost(seen), Uniform::CellHeight, cell_height, size_info, metrics);
        proof {
            seen = seen.push(Uniform::CellHeight);
        }
        self.push_write(&mut writes, Ghost(seen), Uniform::PaddingY, padding_y, size_info, metrics);
        proof {
            seen = seen.push(Uniform::PaddingY);
        }
        self.push_write(&mut writes, Ghost(seen), Uniform::PaddingX, padding_x, size_info, metrics);
        proof {
            seen = seen.push(Uniform::PaddingX);
        }
        self.push_write(
            &mut writes,
            Ghost(seen),
            Uniform::UnderlinePosition,
            underline_position,
            size_info,
            metrics,
        );
        proof {
            seen = seen.push(Uniform::UnderlinePosition);
        }
        self.push_write(
            &mut writes,
            Ghost(seen),
            Uniform::UnderlineThickness,
            thickness,
            size_info,
            metrics,
        );
        proof {
            seen = seen.push(Uniform::UnderlineThickness);
        }
        self.push_write(
            &mut writes,
            Ghost(seen),
            Uniform::UndercurlPosition,
            position,
            size_info,
            metrics,
        );
        proof {
            seen = seen.push(Uniform::UndercurlPosition);
            assert(seen =~= write_order());
        }
        writes
    }

    /// Adds the write of one input, if the variant has the input.
    fn push_write(
        &self,
        writes: &mut Vec<UniformWrite>,
        Ghost(seen): Ghost<Seq<Uniform>>,
        uniform: Uniform,
        value: i64,
        size: &SizeInfo,
        metrics: &Metrics,
    )
        requires
            value == uniform_value(uniform, *size, *metrics),
            old(writes)@ == self.writes_of(seen, *size, *metrics),
            forall|i: int|
                0 <= i < old(writes).len() ==> (#[trigger] old(writes)[i]).value == uniform_value(
                    old(writes)[i].uniform,
                    *size,
                    *metrics,
                ),
        ensures
            final(writes)@ == self.writes_of(seen.push(uniform), *size, *metrics),
            forall|i: int|
                0 <= i < final(writes).len() ==> (#[trigger] final(writes)[i]).value == uniform_value(
                    final(writes)[i].uniform,
                    *size,
                    *metrics,
                ),
    {
        let ghost present = |uniform: Uniform| self.handle(uniform).is_some();
        let ghost write = |uniform: Uniform| self.write_of(uniform, *size, *metrics);
        proof {
            seen.lemma_filter_push(uniform, present);
        }
        if let Some(location) = self.location(uniform) {
            writes.push(UniformWrite { uniform, location, value });
            proof {
                assert(seen.filter(present).push(uniform).map_values(write) =~= seen.filter(
                    present,
                ).map_values(write).push(write(uniform)));
            }
        }
    }
}

/// No two kinds are compiled with the same header, so each variant runs the
/// code of its own kind.
pub proof fn lemma_headers_differ(one: RectKind, other: RectKind)
    requires
        one != other,
    ensures
        RectShaderProgram::header_of(one) != RectShaderProgram::header_of(other),
{
    reveal_strlit("#define DRAW_ROUNDED_BACKGROUND\n");
    reveal_strlit("#define DRAW_UNDER_CURL\n");
    reveal_strlit("#define DRAW_UNDER_DOTTED\n");
    reveal_strlit("#define DRAW_UNDER_DASHED\n");
    let rounded = "#define DRAW_ROUNDED_BACKGROUND\n"@;
    let curl = "#define DRAW_UNDER_CURL\n"@;
    let dotted = "#define DRAW_UNDER_DOTTED\n"@;
    let dashed = "#define DRAW_UNDER_DASHED\n"@;
    assert(rounded.len() == 32);
    assert(curl.len() == 24);
    assert(dotted.len() == 26);
    assert(dotted[20] == 'O');
    assert(dashed[20] == 'A');
}

} // verus!
