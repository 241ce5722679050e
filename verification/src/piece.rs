//! Kinds of pieces, and pieces with their side.

use vstd::prelude::*;
use crate::color::Color;
use crate::text::string_of;

verus! {

/// The kind of a piece, without its side.
#[derive(Clone, Copy, Debug, PartialEq, Eq, PartialOrd, Ord, Hash, Structural)]
pub enum PieceType {
    Pawn,
    Knight,
    Bishop,
    Rook,
    Queen,
    King,
}

/// Every kind of piece, from pawn to king.
pub const PIECES: [PieceType; 6] = [
    PieceType::Pawn,
    PieceType::Knight,
    PieceType::Bishop,
    PieceType::Rook,
    PieceType::Queen,
    PieceType::King,
];

impl PieceType {
    /// 0 for a pawn, then knight, bishop, rook and queen, up to 5 for a king.
    pub open spec fn spec_get_index(self) -> int {
        match self {
            PieceType::Pawn => 0,
            PieceType::Knight => 1,
            PieceType::Bishop => 2,
            PieceType::Rook => 3,
            PieceType::Queen => 4,
            PieceType::King => 5,
        }
    }

    /// The lower-case letter of the kind: `p n b r q k`.
    pub open spec fn spec_letter(self) -> char {
        match self {
            PieceType::Pawn => 'p',
            PieceType::Knight => 'n',
            PieceType::Bishop => 'b',
            PieceType::Rook => 'r',
            PieceType::Queen => 'q',
            PieceType::King => 'k',
        }
    }

    /// The upper-case letter of the kind: `P N B R Q K`.
    pub open spec fn spec_capital(self) -> char {
        match self {
            PieceType::Pawn => 'P',
            PieceType::Knight => 'N',
            PieceType::Bishop => 'B',
            PieceType::Rook => 'R',
            PieceType::Queen => 'Q',
            PieceType::King => 'K',
        }
    }

    /// The letter of a piece of this kind and the given side: upper case
    /// for White, lower case for Black.
    pub open spec fn spec_symbol(self, color: Color) -> char {
        match color {
            Color::White => self.spec_capital(),
            Color::Black => self.spec_letter(),
        }
    }

    /// 0 for a pawn, then knight, bishop, rook and queen, up to 5 for a king.
    pub fn get_index(self) -> (r: u8)
        ensures
            r == self.spec_get_index(),
    {
        match self {
            PieceType::Pawn => 0,
            PieceType::Knight => 1,
            PieceType::Bishop => 2,
            PieceType::Rook => 3,
            PieceType::Queen => 4,
            PieceType::King => 5,
        }
    }

    /// The letter of a piece of this kind and the given side.
    pub fn get_symbol(self, color: Color) -> (r: char)
        ensures
            r == self.spec_symbol(color),
    {
        match color {
            Color::White => match self {
                PieceType::Pawn => 'P',
                PieceType::Knight => 'N',
                PieceType::Bishop => 'B',
                PieceType::Rook => 'R',
                PieceType::Queen => 'Q',
                PieceType::King => 'K',
            },
            Color::Black => match self {
                PieceType::Pawn => 'p',
                PieceType::Knight => 'n',
                PieceType::Bishop => 'b',
                PieceType::Rook => 'r',
                PieceType::Queen => 'q',
                PieceType::King => 'k',
            },
        }
    }

    /// The letter of a piece of this kind and the given side, as a string
    /// of one character.
    pub fn get_string(self, color: Color) -> (r: String)
        ensures
            r@ == seq![self.spec_symbol(color)],
    {
        let mut chars: Vec<char> = Vec::new();
        chars.push(self.get_symbol(color));
        string_of(&chars)
    }
}

/// A piece: its kind and its side.
#[derive(Clone, Copy, Debug, PartialEq, Eq, PartialOrd, Ord, Hash, Structural)]
pub struct Piece {
    pub piece_type: PieceType,
    pub color: Color,
}

impl Piece {
    /// The chess figure of this piece in Unicode. The outlined figures
    /// (U+2654 to U+2659) are drawn for White and the filled ones (U+265A
    /// to U+265F) for Black, unless `dark_mode` swaps the two, as suits
    /// light text on a dark background.
    pub open spec fn spec_unicode(self, dark_mode: bool) -> char {
        if (self.color == Color::White) == dark_mode {
            match self.piece_type {
                PieceType::King => '\u{265A}',
                PieceType::Queen => '\u{265B}',
                PieceType::Rook => '\u{265C}',
                PieceType::Bishop => '\u{265D}',
                PieceType::Knight => '\u{265E}',
                PieceType::Pawn => '\u{265F}',
            }
        } else {
            match self.piece_type {
                PieceType::King => '\u{2654}',
                PieceType::Queen => '\u{2655}',
                PieceType::Rook => '\u{2656}',
                PieceType::Bishop => '\u{2657}',
                PieceType::Knight => '\u{2658}',
                PieceType::Pawn => '\u{2659}',
            }
        }
    }

    /// The piece of the given kind and side.
    pub fn new(piece_type: PieceType, color: Color) -> (r: Piece)
        ensures
            r == (Piece { piece_type, color }),
    {
        Piece { piece_type, color }
    }

    /// The index of the kind of the piece, 0 to 5.
    pub fn get_index(self) -> (r: u8)
        ensures
            r == self.piece_type.spec_get_index(),
    {
        self.piece_type.get_index()
    }

    /// The letter of the piece: upper case for White, lower case for Black.
    pub fn get_symbol(self) -> (r: char)
        ensures
            r == self.piece_type.spec_symbol(self.color),
    {
        self.piece_type.get_symbol(self.color)
    }

    /// The letter of the piece, as a string of one character.
    pub fn get_string(self) -> (r: String)
        ensures
            r@ == seq![self.piece_type.spec_symbol(self.color)],
    {
        self.piece_type.get_string(self.color)
    }

    /// The chess figure of this piece in Unicode.
    pub fn get_unicode(self, dark_mode: bool) -> (r: char)
        ensures
            r == self.spec_unicode(dark_mode),
    {
        if self.color.to_bool() == dark_mode {
            match self.piece_type {
                PieceType::King => '\u{265A}',
                PieceType::Queen => '\u{265B}',
                PieceType::Rook => '\u{265C}',
                PieceType::Bishop => '\u{265D}',
                PieceType::Knight => '\u{265E}',
                PieceType::Pawn => '\u{265F}',
            }
        } else {
            match self.piece_type {
                PieceType::King => '\u{2654}',
                PieceType::Queen => '\u{2655}',
                PieceType::Rook => '\u{2656}',
                PieceType::Bishop => '\u{2657}',
                PieceType::Knight => '\u{2658}',
                PieceType::Pawn => '\u{2659}',
            }
        }
    }
}

} // verus!
