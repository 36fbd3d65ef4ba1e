//! The closed sets of decoration flags and rectangle kinds.

use vstd::prelude::*;

verus! {

/// The number of rectangle kinds, and so of per-kind batches and shader variants.
pub const NUM_KINDS: usize = 5;

/// How a rectangle is shaded. The declaration order is the ordinal order, and
/// batches are drawn from the highest ordinal down to the lowest.
#[derive(Copy, Clone, Debug, PartialEq, Eq, Structural)]
pub enum RectKind {
    Underline,
    Undercurl,
    UnderDotted,
    UnderDashed,
    RoundedBg,
}

impl RectKind {
    /// The ordinal of a kind as a mathematical integer.
    pub open spec fn ordinal(self) -> int {
        match self {
            RectKind::Underline => 0,
            RectKind::Undercurl => 1,
            RectKind::UnderDotted => 2,
            RectKind::UnderDashed => 3,
            RectKind::RoundedBg => 4,
        }
    }

    /// The kind with a given ordinal; `Underline` stands for every ordinal out of range.
    pub open spec fn of_ordinal(i: int) -> RectKind {
        if i == 1 {
            RectKind::Undercurl
        } else if i == 2 {
            RectKind::UnderDotted
        } else if i == 3 {
            RectKind::UnderDashed
        } else if i == 4 {
            RectKind::RoundedBg
        } else {
            RectKind::Underline
        }
    }

    /// The position of this kind in every per-kind table.
    pub fn index(self) -> (i: usize)
        ensures
            i == self.ordinal(),
            i < NUM_KINDS,
    {
        match self {
            RectKind::Underline => 0,
            RectKind::Undercurl => 1,
            RectKind::UnderDotted => 2,
            RectKind::UnderDashed => 3,
            RectKind::RoundedBg => 4,
        }
    }

    /// The kind at a position of a per-kind table, if the position is one.
    pub fn from_index(i: usize) -> (kind: Option<RectKind>)
        ensures
            i < NUM_KINDS <==> kind.is_some(),
            kind.is_some() ==> kind.unwrap() == RectKind::of_ordinal(i as int)
                && kind.unwrap().ordinal() == i,
    {
        if i == 0 {
            Some(RectKind::Underline)
        } else if i == 1 {
            Some(RectKind::Undercurl)
        } else if i == 2 {
            Some(RectKind::UnderDotted)
        } else if i == 3 {
            Some(RectKind::UnderDashed)
        } else if i == 4 {
            Some(RectKind::RoundedBg)
        } else {
            None
        }
    }
}

/// Ordinals and kinds correspond one to one.
pub proof fn lemma_ordinal_round_trip(kind: RectKind)
    ensures
        0 <= kind.ordinal() < NUM_KINDS,
        RectKind::of_ordinal(kind.ordinal()) == kind,
{
}

} // verus!
