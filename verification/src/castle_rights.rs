//! The castling rights that one side still has.

use vstd::prelude::*;

verus! {

/// On which wings a side may still castle.
#[derive(Clone, Copy, Debug, PartialEq, Eq, PartialOrd, Ord, Hash, Structural)]
pub enum CastleRights {
    NoRights,
    KingSide,
    QueenSide,
    Both,
}

/// Every castling right, in the order of their index: bit 0 stands for the
/// king's wing and bit 1 for the queen's wing.
pub const CASTLE_RIGHTS: [CastleRights; 4] = [
    CastleRights::NoRights,
    CastleRights::KingSide,
    CastleRights::QueenSide,
    CastleRights::Both,
];

impl CastleRights {
    /// Whether castling on the king's wing is still allowed.
    pub open spec fn spec_has_kingside(self) -> bool {
        self == CastleRights::KingSide || self == CastleRights::Both
    }

    /// Whether castling on the queen's wing is still allowed.
    pub open spec fn spec_has_queenside(self) -> bool {
        self == CastleRights::QueenSide || self == CastleRights::Both
    }

    /// Whether castling on the king's wing is still allowed.
    pub fn has_kingside(self) -> (r: bool)
        ensures
            r == self.spec_has_kingside(),
    {
        match self {
            CastleRights::KingSide | CastleRights::Both => true,
            _ => false,
        }
    }

    /// Whether castling on the queen's wing is still allowed.
    pub fn has_queenside(self) -> (r: bool)
        ensures
            r == self.spec_has_queenside(),
    {
        match self {
            CastleRights::QueenSide | CastleRights::Both => true,
            _ => false,
        }
    }

    /// Whether castling is still allowed on some wing.
    pub fn has_any(self) -> (r: bool)
        ensures
            r == (self != CastleRights::NoRights),
    {
        match self {
            CastleRights::NoRights => false,
            _ => true,
        }
    }
}

} // verus!
