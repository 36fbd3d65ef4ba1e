//! What the grid hands over for each visible cell.

use vstd::prelude::*;
use crate::metrics::MAX_INDEX;

verus! {

/// A resolved color.
#[derive(Copy, Clone, Debug, PartialEq, Eq, Structural)]
pub struct Rgb {
    pub r: u8,
    pub g: u8,
    pub b: u8,
}

impl Rgb {
    pub fn new(r: u8, g: u8, b: u8) -> (color: Rgb)
        ensures
            color == (Rgb { r, g, b }),
    {
        Rgb { r, g, b }
    }

    /// The three channels, red first.
    pub fn as_tuple(self) -> (channels: (u8, u8, u8))
        ensures
            channels == (self.r, self.g, self.b),
    {
        (self.r, self.g, self.b)
    }
}

/// A position in the grid: rows count down from the top, columns from the left.
#[derive(Copy, Clone, Debug, PartialEq, Eq, Structural)]
pub struct Point {
    pub line: usize,
    pub column: usize,
}

impl Point {
    pub fn new(line: usize, column: usize) -> (point: Point)
        ensures
            point == (Point { line, column }),
    {
        Point { line, column }
    }
}

/// A single text decoration.
#[derive(Copy, Clone, Debug, PartialEq, Eq, Structural)]
pub enum DecorationFlag {
    Underline,
    DoubleUnderline,
    Strikeout,
    Undercurl,
    DottedUnderline,
    DashedUnderline,
    RoundedBackground,
}

/// The decorations that a cell carries, and whether it is the leading half of a
/// wide character.
#[derive(Copy, Clone, Debug, PartialEq, Eq, Structural)]
pub struct Flags {
    pub underline: bool,
    pub double_underline: bool,
    pub strikeout: bool,
    pub undercurl: bool,
    pub dotted_underline: bool,
    pub dashed_underline: bool,
    pub rounded_background: bool,
    pub wide_char: bool,
}

impl Flags {
    /// Whether the decoration is among the flags.
    pub open spec fn has(self, flag: DecorationFlag) -> bool {
        match flag {
            DecorationFlag::Underline => self.underline,
            DecorationFlag::DoubleUnderline => self.double_underline,
            DecorationFlag::Strikeout => self.strikeout,
            DecorationFlag::Undercurl => self.undercurl,
            DecorationFlag::DottedUnderline => self.dotted_underline,
            DecorationFlag::DashedUnderline => self.dashed_underline,
            DecorationFlag::RoundedBackground => self.rounded_background,
        }
    }

    /// No decoration, not wide.
    pub fn empty() -> (flags: Flags)
        ensures
            !flags.wide_char,
            forall|flag: DecorationFlag| !flags.has(flag),
    {
        Flags {
            underline: false,
            double_underline: false,
            strikeout: false,
            undercurl: false,
            dotted_underline: false,
            dashed_underline: false,
            rounded_background: false,
            wide_char: false,
        }
    }

    /// The same flags with one decoration added.
    pub fn with(self, flag: DecorationFlag) -> (flags: Flags)
        ensures
            flags.wide_char == self.wide_char,
            forall|other: DecorationFlag| flags.has(other) == (other == flag || self.has(other)),
    {
        let mut flags = self;
        match flag {
            DecorationFlag::Underline => { flags.underline = true; },
            DecorationFlag::DoubleUnderline => { flags.double_underline = true; },
            DecorationFlag::Strikeout => { flags.strikeout = true; },
            DecorationFlag::Undercurl => { flags.undercurl = true; },
            DecorationFlag::DottedUnderline => { flags.dotted_underline = true; },
            DecorationFlag::DashedUnderline => { flags.dashed_underline = true; },
            DecorationFlag::RoundedBackground => { flags.rounded_background = true; },
        }
        flags
    }

    /// The same decorations on the leading half of a wide character.
    pub fn wide(self) -> (flags: Flags)
        ensures
            flags == (Flags { wide_char: true, ..self }),
    {
        Flags { wide_char: true, ..self }
    }

    pub fn contains(&self, flag: DecorationFlag) -> (found: bool)
        ensures
            found == self.has(flag),
    {
        match flag {
            DecorationFlag::Underline => self.underline,
            DecorationFlag::DoubleUnderline => self.double_underline,
            DecorationFlag::Strikeout => self.strikeout,
            DecorationFlag::Undercurl => self.undercurl,
            DecorationFlag::DottedUnderline => self.dotted_underline,
            DecorationFlag::DashedUnderline => self.dashed_underline,
            DecorationFlag::RoundedBackground => self.rounded_background,
        }
    }
}

/// A visible cell, with its colors already resolved.
#[derive(Copy, Clone, Debug, PartialEq, Eq, Structural)]
pub struct RenderableCell {
    pub point: Point,
    pub flags: Flags,
    /// The foreground color.
    pub fg: Rgb,
    /// The color of the decorations below the text.
    pub underline: Rgb,
}

impl RenderableCell {
    /// The color in which a decoration of this cell is drawn: a strikeout takes
    /// the foreground color, every other decoration the decoration color.
    pub open spec fn decoration_color(self, flag: DecorationFlag) -> Rgb {
        if flag == DecorationFlag::Strikeout {
            self.fg
        } else {
            self.underline
        }
    }

    /// Where a cell can be extended over the spacer of a wide character.
    pub open spec fn extendable(self) -> bool {
        self.flags.wide_char ==> self.point.column < usize::MAX
    }

    /// Whether the segments that the cell starts or extends can be placed: the
    /// cell and what it covers lie within `MAX_INDEX`.
    pub open spec fn in_range(self) -> bool {
        &&& self.point.line <= MAX_INDEX
        &&& self.point.column <= MAX_INDEX
        &&& self.flags.wide_char ==> self.point.column < MAX_INDEX
    }

    /// The last position that the cell covers: its own, or the column after it
    /// where the cell is the leading half of a wide character.
    pub open spec fn logical_end(self) -> Point {
        if self.flags.wide_char {
            Point { line: self.point.line, column: (self.point.column + 1) as usize }
        } else {
            self.point
        }
    }
}

} // verus!
