//! Moves: a source square, a destination square and, for a pawn that
//! reaches the last rank, the kind of piece it becomes.

use vstd::prelude::*;
use crate::piece::PieceType;
use crate::square::Square;
use crate::text::chars_of;
use crate::text::string_of;

verus! {

/// A move, as the squares it connects. Nothing here says that the move is
/// possible in any position.
#[derive(Clone, Copy, Debug, PartialEq, Eq, PartialOrd, Ord, Hash, Structural)]
pub struct Move {
    pub source: Square,
    pub dest: Square,
    pub promotion: Option<PieceType>,
}

impl Move {
    /// Both squares of the move lie on the board.
    pub open spec fn on_board(self) -> bool {
        self.source.on_board() && self.dest.on_board()
    }

    /// The move from `source` to `dest`, with the given promotion.
    pub fn new(source: Square, dest: Square, promotion: Option<PieceType>) -> (r: Move)
        ensures
            r == (Move { source, dest, promotion }),
    {
        Move { source, dest, promotion }
    }

    /// The square the piece leaves.
    pub fn get_source(self) -> (r: Square)
        ensures
            r == self.source,
    {
        self.source
    }

    /// The square the piece lands on.
    pub fn get_dest(self) -> (r: Square)
        ensures
            r == self.dest,
    {
        self.dest
    }

    /// The kind of piece a promoting pawn becomes, if the move says so.
    pub fn get_promotion(self) -> (r: Option<PieceType>)
        ensures
            r == self.promotion,
    {
        self.promotion
    }
}

/// The kind of piece that a letter at the end of a move stands for: `q`,
/// `r`, `n` or `b`.
pub open spec fn spec_promotion(letter: char) -> Option<PieceType> {
    if letter == 'q' {
        Some(PieceType::Queen)
    } else if letter == 'r' {
        Some(PieceType::Rook)
    } else if letter == 'n' {
        Some(PieceType::Knight)
    } else if letter == 'b' {
        Some(PieceType::Bishop)
    } else {
        None
    }
}

/// The move that `text` writes: the names of two squares and, after
/// them, at most one letter for a promotion, as in `e2e4` and `e7e8q`.
pub open spec fn spec_from_uci(text: Seq<char>) -> Option<Move> {
    if text.len() != 4 && text.len() != 5 {
        None
    } else {
        match (Square::spec_named(text[0], text[1]), Square::spec_named(text[2], text[3])) {
            (Some(source), Some(dest)) => if text.len() == 4 {
                Some(Move { source, dest, promotion: None })
            } else {
                match spec_promotion(text[4]) {
                    Some(kind) => Some(Move { source, dest, promotion: Some(kind) }),
                    None => None,
                }
            },
            _ => None,
        }
    }
}

/// The way `mv` is written: the names of its two squares, and the letter
/// of its promotion, if it has one.
pub open spec fn spec_uci(mv: Move) -> Seq<char> {
    let squares = mv.source.spec_name() + mv.dest.spec_name();
    match mv.promotion {
        Some(kind) => squares.push(kind.spec_letter()),
        None => squares,
    }
}

impl Move {
    /// The move that `text` writes, if it writes one.
    pub fn from_uci(text: &str) -> (r: Option<Move>)
        ensures
            r == spec_from_uci(text@),
    {
        let chars = chars_of(text);
        let n = chars.len();
        if n != 4 && n != 5 {
            return None;
        }
        let source = match Square::named(chars[0], chars[1]) {
            Some(square) => square,
            None => {
                return None;
            },
        };
        let dest = match Square::named(chars[2], chars[3]) {
            Some(square) => square,
            None => {
                return None;
            },
        };
        if n == 4 {
            return Some(Move { source, dest, promotion: None });
        }
        let letter = chars[4];
        let kind = if letter == 'q' {
            PieceType::Queen
        } else if letter == 'r' {
            PieceType::Rook
        } else if letter == 'n' {
            PieceType::Knight
        } else if letter == 'b' {
            PieceType::Bishop
        } else {
            return None;
        };
        Some(Move { source, dest, promotion: Some(kind) })
    }

    /// The way the move is written, such as `e2e4` or `e7e8q`.
    pub fn get_uci(self) -> (r: String)
        ensures
            r@ == spec_uci(self),
    {
        let mut chars: Vec<char> = Vec::new();
        chars.push(self.source.get_file_char());
        chars.push(self.source.get_rank_char());
        chars.push(self.dest.get_file_char());
        chars.push(self.dest.get_rank_char());
        assert(chars@ =~= self.source.spec_name() + self.dest.spec_name());
        match self.promotion {
            Some(kind) => {
                chars.push(kind.get_symbol(crate::color::Color::Black));
            },
            None => {},
        }
        string_of(&chars)
    }
}

} // verus!
