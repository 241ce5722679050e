//! A single chess position, held by the `chess` crate. Everything that is
//! known of a position is what that crate reports of it. Each report has a
//! name here, a function without a body, and the functions of this module
//! make the calls. Their contracts are taken on trust: they say that the
//! answer of the crate is the named one, which is to say that it depends on
//! the position and the arguments alone. Where the crate's own code says
//! in a few lines what an answer is, the contract says so too, over the
//! names of the answers it is made from.

use vstd::prelude::*;
use crate::bitboard::Bitboard;
use crate::bitboard::has_bit;
use crate::castle_rights::CastleRights;
use crate::castle_rights::CASTLE_RIGHTS;
use crate::color::COLORS;
use crate::color::Color;
use crate::fen::readable;
use crate::moves::Move;
use crate::piece::PieceType;
use crate::piece::PIECES;
use crate::square::Square;
use crate::text::fields;

verus! {

/// `chess::Board`, of which nothing is seen here.
#[verifier::external_type_specification]
#[verifier::external_body]
pub struct ExBoard(chess::Board);

/// `chess::Error`, of which nothing is seen here.
#[verifier::external_type_specification]
#[verifier::external_body]
pub struct ExError(chess::Error);

/// One position: the placement of the pieces, the side to move, the
/// castling rights and the en-passant marker. It carries no move counters.
/// A position is made only by the functions of this module, from a
/// readable string that the `chess` crate accepts or by a legal move or a
/// pass from another position, so that the board it holds has passed the
/// checks of that crate and has a king and at most sixteen pieces on either
/// side.
#[derive(Clone, Copy)]
pub struct Position {
    board: chess::Board,
}

/// Whether the side to move is checkmated or stalemated in a position, as
/// far as the position alone tells.
#[derive(Clone, Copy, Debug, PartialEq, Eq, Hash, Structural)]
pub enum PositionStatus {
    Ongoing,
    Stalemate,
    Checkmate,
}

/// The position that the four leading fields of a position string
/// describe, if they describe one that can arise in chess.
pub uninterp spec fn position_from_text(text: Seq<char>) -> Option<Position>;

/// The position string of `pos`, with `0 1` for its two counters. Its
/// fourth field is the square of the en-passant marker, not the square
/// beyond it.
pub uninterp spec fn text_of(pos: Position) -> Seq<char>;

/// The side to move in `pos`.
pub uninterp spec fn side_to_move_of(pos: Position) -> Color;

/// The castling rights of `color` in `pos`.
pub uninterp spec fn castle_rights_of(pos: Position, color: Color) -> CastleRights;

/// The en-passant marker of `pos`: the square on which a pawn has just
/// landed with a double step, where the side to move has a pawn beside it.
pub uninterp spec fn en_passant_marker_of(pos: Position) -> Option<Square>;

/// The squares that hold a piece of kind `kind` in `pos`, of either side.
pub uninterp spec fn piece_bits(pos: Position, kind: PieceType) -> u64;

/// The squares that hold a piece of `color` in `pos`.
pub uninterp spec fn color_bits(pos: Position, color: Color) -> u64;

/// The occupied squares of `pos`.
pub uninterp spec fn occupied_bits(pos: Position) -> u64;

/// The pieces of the side to move in `pos` that are pinned to their king.
pub uninterp spec fn pinned_bits(pos: Position) -> u64;

/// The pieces that give check to the side to move in `pos`.
pub uninterp spec fn checker_bits(pos: Position) -> u64;

/// The Zobrist hash of `pos`: a fingerprint of placement, side to move,
/// castling rights and en-passant file.
pub uninterp spec fn zobrist_of(pos: Position) -> u64;

/// What the quick legality test says of `mv` in `pos`. The test is meant
/// for the moves that the move generator produces before it has checked
/// them in full; of other moves it may say anything.
pub uninterp spec fn quick_legal_in(pos: Position, mv: Move) -> bool;

/// The quick legality test can be asked of `mv` in `pos`: a piece stands on
/// the source of the move, and a pawn that changes file onto an empty
/// square does so in a position that has an en-passant marker.
pub open spec fn quick_test_applies(pos: Position, mv: Move) -> bool {
    &&& piece_at(pos, mv.source) is Some
    &&& (piece_at(pos, mv.source) == Some(PieceType::Pawn) && mv.source@ % 8 != mv.dest@ % 8
        && piece_at(pos, mv.dest) is None) ==> en_passant_marker_of(pos) is Some
}

/// The legal moves of `pos`, in the order in which they are generated.
pub uninterp spec fn legal_moves_of(pos: Position) -> Seq<Move>;

/// The kind of the piece on `square` in `pos`, if the square is occupied,
/// as it is read from the masks of the position: pawn, knight and bishop
/// are looked for where an odd number of their three masks holds the
/// square, rook and queen where not, and what is left is a king. Where no
/// two masks share a square, this is the kind whose mask holds the square.
pub open spec fn piece_at(pos: Position, square: Square) -> Option<PieceType> {
    let i = square@;
    let pawn = has_bit(piece_bits(pos, PieceType::Pawn), i);
    let knight = has_bit(piece_bits(pos, PieceType::Knight), i);
    let bishop = has_bit(piece_bits(pos, PieceType::Bishop), i);
    if !has_bit(occupied_bits(pos), i) {
        None
    } else if pawn != (knight != bishop) {
        if pawn {
            Some(PieceType::Pawn)
        } else if knight {
            Some(PieceType::Knight)
        } else {
            Some(PieceType::Bishop)
        }
    } else if has_bit(piece_bits(pos, PieceType::Rook), i) {
        Some(PieceType::Rook)
    } else if has_bit(piece_bits(pos, PieceType::Queen), i) {
        Some(PieceType::Queen)
    } else {
        Some(PieceType::King)
    }
}

/// The side of the piece on `square` in `pos`, if the square is occupied,
/// as it is read from the masks of the two sides.
pub open spec fn color_at(pos: Position, square: Square) -> Option<Color> {
    if has_bit(color_bits(pos, Color::White), square@) {
        Some(Color::White)
    } else if has_bit(color_bits(pos, Color::Black), square@) {
        Some(Color::Black)
    } else {
        None
    }
}

/// Whether `mv` is a legal move in `pos`: one of its legal moves.
pub open spec fn legal_in(pos: Position, mv: Move) -> bool {
    legal_moves_of(pos).contains(mv)
}

/// Whether the side to move in `pos` is checkmated, stalemated or neither:
/// with no legal move it is checkmated if it is in check and stalemated if
/// not.
pub open spec fn status_of(pos: Position) -> PositionStatus {
    if legal_moves_of(pos).len() > 0 {
        PositionStatus::Ongoing
    } else if checker_bits(pos) == 0 {
        PositionStatus::Stalemate
    } else {
        PositionStatus::Checkmate
    }
}

/// The position that the legal move `mv` leads to from `pos`.
pub uninterp spec fn position_after(pos: Position, mv: Move) -> Position;

/// The position in which the other side is to move and all else is as in
/// `pos`, but for the en-passant marker, which is gone; `None` where the
/// side to move is in check.
pub uninterp spec fn null_move_of(pos: Position) -> Option<Position>;

/// `after` is `before` after a pass: the other side is to move, the
/// en-passant marker is gone, and the pieces and the castling rights are as
/// they were.
pub open spec fn is_pass(before: Position, after: Position) -> bool {
    &&& side_to_move_of(after) == side_to_move_of(before).spec_opposite()
    &&& en_passant_marker_of(after) is None
    &&& occupied_bits(after) == occupied_bits(before)
    &&& forall|kind: PieceType| #[trigger] piece_bits(after, kind) == piece_bits(before, kind)
    &&& forall|color: Color| #[trigger] color_bits(after, color) == color_bits(before, color)
    &&& forall|color: Color|
        #[trigger] castle_rights_of(after, color) == castle_rights_of(before, color)
}

impl Position {
    /// `chess::Board::default`. The contract claims that the result is the
    /// position that the crate reads from the starting position string,
    /// which is how the crate makes it.
    #[verifier::external_body]
    pub(crate) fn start() -> (r: Position)
        ensures
            position_from_text("rnbqkbnr/pppppppp/8/8/8/8/PPPPPPPP/RNBQKBNR w KQkq - 0 1"@)
                == Some(r),
    {
        Position { board: chess::Board::default() }
    }

    /// `chess::Board::from_str`. The contract claims that the crate gives
    /// the position that `position_from_text` names, and an error exactly
    /// where that name has none. The crate looks up the king of the side to
    /// move before it checks that there is one, and its move lists have
    /// room for sixteen pieces on a side. So only readable strings are
    /// admitted: those that the crate refuses before it looks at the board,
    /// and those whose board, as the crate fills it, has that king and no
    /// more pieces than that.
    #[verifier::external_body]
    pub(crate) fn parse(text: &str) -> (r: Result<Position, chess::Error>)
        requires
            readable(text@),
        ensures
            match r {
                Ok(pos) => position_from_text(text@) == Some(pos),
                Err(_) => position_from_text(text@) is None,
            },
    {
        match std::str::FromStr::from_str(text) {
            Ok(board) => Ok(Position { board }),
            Err(e) => Err(e),
        }
    }

    /// `chess::Board::to_string`. The contract claims that the result is
    /// the text that `text_of` names, and that it has six fields: the crate
    /// writes placement, side to move, castling rights and en-passant
    /// square, each without white space and none of them empty, then `0`
    /// and `1`, with single spaces between them.
    #[verifier::external_body]
    pub(crate) fn text(&self) -> (r: String)
        ensures
            r@ == text_of(*self),
            fields(r@).len() == 6,
    {
        self.board.to_string()
    }

    /// `chess::Board::side_to_move`. The contract claims that the result is
    /// what `side_to_move_of` names.
    #[verifier::external_body]
    pub(crate) fn side_to_move(&self) -> (r: Color)
        ensures
            r == side_to_move_of(*self),
    {
        COLORS[self.board.side_to_move().to_index()]
    }

    /// `chess::Board::castle_rights`. The contract claims that the result
    /// is what `castle_rights_of` names.
    #[verifier::external_body]
    pub(crate) fn castle_rights(&self, color: Color) -> (r: CastleRights)
        ensures
            r == castle_rights_of(*self, color),
    {
        CASTLE_RIGHTS[self.board.castle_rights(chess::ALL_COLORS[color as usize]).to_index()]
    }

    /// `chess::Board::en_passant`. The contract claims that the result is
    /// what `en_passant_marker_of` names: the marker as the crate keeps it,
    /// on the square of the pawn that made the double step.
    #[verifier::external_body]
    pub(crate) fn en_passant(&self) -> (r: Option<Square>)
        ensures
            r == en_passant_marker_of(*self),
    {
        self.board.en_passant().map(|s| Square { index: s.to_int() })
    }

    /// `chess::Board::piece_on`. The contract claims that the crate reads
    /// the kind of the piece from the masks of the position as `piece_at`
    /// says, which are the steps of the crate's function.
    #[verifier::external_body]
    pub(crate) fn piece_on(&self, square: Square) -> (r: Option<PieceType>)
        ensures
            r == piece_at(*self, square),
    {
        self.board.piece_on(chess::ALL_SQUARES[square.index as usize]).map(|p| PIECES[p.to_index()])
    }

    /// `chess::Board::color_on`. The contract claims that the crate reads
    /// the side of the piece from the masks of the two sides as `color_at`
    /// says, which are the steps of the crate's function.
    #[verifier::external_body]
    pub(crate) fn color_on(&self, square: Square) -> (r: Option<Color>)
        ensures
            r == color_at(*self, square),
    {
        self.board.color_on(chess::ALL_SQUARES[square.index as usize]).map(|c| COLORS[c.to_index()])
    }

    /// `chess::Board::pieces`. The contract claims that the mask of the
    /// result is what `piece_bits` names.
    #[verifier::external_body]
    pub(crate) fn pieces(&self, kind: PieceType) -> (r: Bitboard)
        ensures
            r.0 == piece_bits(*self, kind),
    {
        Bitboard(self.board.pieces(chess::ALL_PIECES[kind as usize]).0)
    }

    /// `chess::Board::color_combined`. The contract claims that the mask
    /// of the result is what `color_bits` names.
    #[verifier::external_body]
    pub(crate) fn color_combined(&self, color: Color) -> (r: Bitboard)
        ensures
            r.0 == color_bits(*self, color),
    {
        Bitboard(self.board.color_combined(chess::ALL_COLORS[color as usize]).0)
    }

    /// `chess::Board::combined`. The contract claims that the mask of the
    /// result is what `occupied_bits` names.
    #[verifier::external_body]
    pub(crate) fn combined(&self) -> (r: Bitboard)
        ensures
            r.0 == occupied_bits(*self),
    {
        Bitboard(self.board.combined().0)
    }

    /// `chess::Board::pinned`. The contract claims that the mask of the
    /// result is what `pinned_bits` names.
    #[verifier::external_body]
    pub(crate) fn pinned(&self) -> (r: Bitboard)
        ensures
            r.0 == pinned_bits(*self),
    {
        Bitboard(self.board.pinned().0)
    }

    /// `chess::Board::checkers`. The contract claims that the mask of the
    /// result is what `checker_bits` names.
    #[verifier::external_body]
    pub(crate) fn checkers(&self) -> (r: Bitboard)
        ensures
            r.0 == checker_bits(*self),
    {
        Bitboard(self.board.checkers().0)
    }

    /// `chess::Board::get_hash`. The contract claims that the result is
    /// what `zobrist_of` names. The crate computes it from tables that are
    /// fixed when the crate is built.
    #[verifier::external_body]
    pub(crate) fn get_hash(&self) -> (r: u64)
        ensures
            r == zobrist_of(*self),
    {
        self.board.get_hash()
    }

    /// `chess::Board::status`. The contract claims what `status_of` says:
    /// the crate counts the moves of a new move generator and, if there is
    /// none, looks whether a piece gives check.
    #[verifier::external_body]
    pub(crate) fn status(&self) -> (r: PositionStatus)
        ensures
            r == status_of(*self),
    {
        match self.board.status() {
            chess::BoardStatus::Ongoing => PositionStatus::Ongoing,
            chess::BoardStatus::Stalemate => PositionStatus::Stalemate,
            chess::BoardStatus::Checkmate => PositionStatus::Checkmate,
        }
    }

    /// `chess::Board::legal`, which accepts any move. The contract claims
    /// that the result says whether `mv` is among the legal moves of the
    /// position: the crate looks for it among the moves of a new move
    /// generator.
    #[verifier::external_body]
    pub(crate) fn legal(&self, mv: Move) -> (r: bool)
        ensures
            r == legal_in(*self, mv),
    {
        self.board.legal(chess::ChessMove::new(
            chess::ALL_SQUARES[mv.source.index as usize],
            chess::ALL_SQUARES[mv.dest.index as usize],
            mv.promotion.map(|p| chess::ALL_PIECES[p as usize]),
        ))
    }

    /// `chess::MoveGen::legal_quick`. The contract claims that the result
    /// is what `quick_legal_in` names. The crate unwraps the piece on the
    /// source of the move and, for a pawn that changes file onto an empty
    /// square, the en-passant marker, so both must be there.
    #[verifier::external_body]
    pub(crate) fn legal_quick(&self, mv: Move) -> (r: bool)
        requires
            quick_test_applies(*self, mv),
        ensures
            r == quick_legal_in(*self, mv),
    {
        chess::MoveGen::legal_quick(&self.board, chess::ChessMove::new(
            chess::ALL_SQUARES[mv.source.index as usize],
            chess::ALL_SQUARES[mv.dest.index as usize],
            mv.promotion.map(|p| chess::ALL_PIECES[p as usize]),
        ))
    }

    /// `chess::MoveGen::new_legal`, run to its end. The contract claims
    /// that the moves which the generator yields, in the order in which it
    /// yields them, are what `legal_moves_of` names.
    #[verifier::external_body]
    pub(crate) fn legal_moves(&self) -> (r: Vec<Move>)
        ensures
            r@ == legal_moves_of(*self),
    {
        chess::MoveGen::new_legal(&self.board).map(|m| Move {
            source: Square { index: m.get_source().to_int() },
            dest: Square { index: m.get_dest().to_int() },
            promotion: m.get_promotion().map(|p| PIECES[p.to_index()]),
        }).collect()
    }

    /// `chess::Board::make_move_new`. The contract claims that the result
    /// is what `position_after` names, and that the other side is to move
    /// in it, which is the last thing the crate sets. The crate panics or
    /// misbehaves on some moves that are not legal, so only legal moves are
    /// admitted.
    #[verifier::external_body]
    pub(crate) fn make_move_new(&self, mv: Move) -> (r: Position)
        requires
            legal_in(*self, mv),
        ensures
            r == position_after(*self, mv),
            side_to_move_of(r) == side_to_move_of(*self).spec_opposite(),
    {
        Position { board: self.board.make_move_new(chess::ChessMove::new(
            chess::ALL_SQUARES[mv.source.index as usize],
            chess::ALL_SQUARES[mv.dest.index as usize],
            mv.promotion.map(|p| chess::ALL_PIECES[p as usize]),
        )) }
    }

    /// `chess::Board::null_move`. The contract claims that the result is
    /// what `null_move_of` names; that there is none exactly where some
    /// piece gives check to the side to move, which is the test that the
    /// crate makes; and that the result is a pass, as `is_pass` says: the
    /// crate copies the position, switches the side to move and erases the
    /// en-passant marker.
    #[verifier::external_body]
    pub(crate) fn null_move(&self) -> (r: Option<Position>)
        ensures
            r == null_move_of(*self),
            r is None <==> checker_bits(*self) != 0,
            r matches Some(next) ==> is_pass(*self, next),
    {
        self.board.null_move().map(|board| Position { board })
    }
}

} // verus!
