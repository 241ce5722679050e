//! The two sides of a chess game.

use vstd::prelude::*;

verus! {

/// A side. White moves first.
#[derive(Clone, Copy, Debug, PartialEq, Eq, PartialOrd, Ord, Hash, Structural)]
pub enum Color {
    White,
    Black,
}

/// Both sides, White first.
pub const COLORS: [Color; 2] = [Color::White, Color::Black];

impl Color {
    /// The side that is not `self`.
    pub open spec fn spec_opposite(self) -> Color {
        match self {
            Color::White => Color::Black,
            Color::Black => Color::White,
        }
    }

    /// 0 for White, 1 for Black.
    pub open spec fn spec_to_index(self) -> int {
        match self {
            Color::White => 0,
            Color::Black => 1,
        }
    }

    /// The side that is not `self`.
    #[verifier::when_used_as_spec(spec_opposite)]
    pub fn opposite(self) -> (r: Color)
        ensures
            r == self.spec_opposite(),
    {
        match self {
            Color::White => Color::Black,
            Color::Black => Color::White,
        }
    }

    /// 0 for White, 1 for Black.
    pub fn to_index(self) -> (r: u8)
        ensures
            r == self.spec_to_index(),
    {
        match self {
            Color::White => 0,
            Color::Black => 1,
        }
    }

    /// White is `true`, Black is `false`.
    pub fn to_bool(self) -> (r: bool)
        ensures
            r == (self == Color::White),
    {
        match self {
            Color::White => true,
            Color::Black => false,
        }
    }

    /// The side for which `to_bool` gives `white`.
    pub fn from_bool(white: bool) -> (r: Color)
        ensures
            r == if white { Color::White } else { Color::Black },
    {
        if white {
            Color::White
        } else {
            Color::Black
        }
    }

    /// Whether `self` stands for the same side as the boolean `white`.
    pub fn eq_bool(self, white: bool) -> (r: bool)
        ensures
            r == ((self == Color::White) == white),
    {
        self.to_bool() == white
    }

    /// `"WHITE"` or `"BLACK"`.
    pub fn get_string(self) -> (r: &'static str)
        ensures
            r@ == if self == Color::White { "WHITE"@ } else { "BLACK"@ },
    {
        match self {
            Color::White => "WHITE",
            Color::Black => "BLACK",
        }
    }
}

} // verus!
