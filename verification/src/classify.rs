//! What kind of move a move is, decided from the squares it connects and
//! from what stands on them: capture, en-passant capture, castling, and
//! whether the move resets the count of reversible moves.

use vstd::prelude::*;
use crate::color::Color;
use crate::moves::Move;
use crate::piece::PieceType;
use crate::square::Square;

verus! {

/// The square on which a pawn of the side to move lands when it captures
/// en passant. The marker of a position is the square of the pawn that has
/// just made a double step; the capturing pawn lands one rank beyond it,
/// as seen from the side to move.
pub open spec fn spec_en_passant_square(marker: Option<Square>, turn: Color) -> Option<Square> {
    match marker {
        Some(square) => square.spec_forward(turn),
        None => None,
    }
}

/// The move goes one file sideways and one rank up or down.
pub open spec fn spec_is_diagonal_step(mv: Move) -> bool {
    let d = mv.dest@ - mv.source@;
    d == 7 || d == 9 || d == -7 || d == -9
}

/// The move is an en-passant capture: a pawn steps diagonally onto the
/// empty en-passant square. `moving` is the piece on the source square of
/// the move and `target` the piece on its destination.
pub open spec fn spec_is_en_passant(
    en_passant_square: Option<Square>,
    mv: Move,
    moving: Option<PieceType>,
    target: Option<PieceType>,
) -> bool {
    &&& en_passant_square == Some(mv.dest)
    &&& moving == Some(PieceType::Pawn)
    &&& spec_is_diagonal_step(mv)
    &&& target is None
}

/// The move takes a piece: its destination is occupied, or it is an
/// en-passant capture.
pub open spec fn spec_is_capture(
    en_passant_square: Option<Square>,
    mv: Move,
    moving: Option<PieceType>,
    target: Option<PieceType>,
) -> bool {
    target is Some || spec_is_en_passant(en_passant_square, mv, moving, target)
}

/// The move resets the count of reversible moves: a pawn moves, or the
/// destination is occupied.
pub open spec fn spec_is_zeroing(moving: Option<PieceType>, target: Option<PieceType>) -> bool {
    moving == Some(PieceType::Pawn) || target is Some
}

/// The move castles on the king's wing: a king goes two squares toward h.
pub open spec fn spec_is_castling_kingside(mv: Move, moving: Option<PieceType>) -> bool {
    moving == Some(PieceType::King) && mv.dest@ - mv.source@ == 2
}

/// The move castles on the queen's wing: a king goes two squares toward a.
pub open spec fn spec_is_castling_queenside(mv: Move, moving: Option<PieceType>) -> bool {
    moving == Some(PieceType::King) && mv.dest@ - mv.source@ == -2
}

/// The move castles: a king goes two squares along its rank.
pub open spec fn spec_is_castling(mv: Move, moving: Option<PieceType>) -> bool {
    spec_is_castling_kingside(mv, moving) || spec_is_castling_queenside(mv, moving)
}

/// The square on which a pawn of the side to move lands when it captures
/// en passant, given the marker of the position.
pub fn en_passant_square(marker: Option<Square>, turn: Color) -> (r: Option<Square>)
    ensures
        r == spec_en_passant_square(marker, turn),
{
    match marker {
        Some(square) => square.forward(turn),
        None => None,
    }
}

/// Whether the move goes one file sideways and one rank up or down.
pub fn is_diagonal_step(mv: Move) -> (r: bool)
    ensures
        r == spec_is_diagonal_step(mv),
{
    let s = mv.source.get_index();
    let d = mv.dest.get_index();
    d == s + 7 || d == s + 9 || s == d + 7 || s == d + 9
}

/// Whether the move is an en-passant capture.
pub fn is_en_passant(
    en_passant_square: Option<Square>,
    mv: Move,
    moving: Option<PieceType>,
    target: Option<PieceType>,
) -> (r: bool)
    ensures
        r == spec_is_en_passant(en_passant_square, mv, moving, target),
{
    let lands = match en_passant_square {
        Some(square) => square == mv.dest,
        None => false,
    };
    let pawn = match moving {
        Some(kind) => kind == PieceType::Pawn,
        None => false,
    };
    lands && pawn && is_diagonal_step(mv) && target.is_none()
}

/// Whether the move takes a piece.
pub fn is_capture(
    en_passant_square: Option<Square>,
    mv: Move,
    moving: Option<PieceType>,
    target: Option<PieceType>,
) -> (r: bool)
    ensures
        r == spec_is_capture(en_passant_square, mv, moving, target),
{
    target.is_some() || is_en_passant(en_passant_square, mv, moving, target)
}

/// Whether the move resets the count of reversible moves.
pub fn is_zeroing(moving: Option<PieceType>, target: Option<PieceType>) -> (r: bool)
    ensures
        r == spec_is_zeroing(moving, target),
{
    let pawn = match moving {
        Some(kind) => kind == PieceType::Pawn,
        None => false,
    };
    pawn || target.is_some()
}

/// Whether the move castles on the king's wing.
pub fn is_castling_kingside(mv: Move, moving: Option<PieceType>) -> (r: bool)
    ensures
        r == spec_is_castling_kingside(mv, moving),
{
    let king = match moving {
        Some(kind) => kind == PieceType::King,
        None => false,
    };
    king && mv.dest.get_index() == mv.source.get_index() + 2
}

/// Whether the move castles on the queen's wing.
pub fn is_castling_queenside(mv: Move, moving: Option<PieceType>) -> (r: bool)
    ensures
        r == spec_is_castling_queenside(mv, moving),
{
    let king = match moving {
        Some(kind) => kind == PieceType::King,
        None => false,
    };
    king && mv.source.get_index() == mv.dest.get_index() + 2
}

/// Whether the move castles.
pub fn is_castling(mv: Move, moving: Option<PieceType>) -> (r: bool)
    ensures
        r == spec_is_castling(mv, moving),
{
    is_castling_kingside(mv, moving) || is_castling_queenside(mv, moving)
}

/// Where a position has its en-passant marker on `marker`, a pawn that
/// steps diagonally onto the square one rank beyond the marker, as seen
/// from the side to move, captures en passant if that square is empty, and
/// the move is then a capture; if the square is occupied, the move is no
/// en-passant capture.
pub proof fn lemma_en_passant_capture(
    marker: Square,
    turn: Color,
    mv: Move,
    target: Option<PieceType>,
)
    requires
        marker.spec_forward(turn) == Some(mv.dest),
        spec_is_diagonal_step(mv),
    ensures
        target is None ==> spec_is_en_passant(
            spec_en_passant_square(Some(marker), turn),
            mv,
            Some(PieceType::Pawn),
            target,
        ) && spec_is_capture(
            spec_en_passant_square(Some(marker), turn),
            mv,
            Some(PieceType::Pawn),
            target,
        ),
        target is Some ==> !spec_is_en_passant(
            spec_en_passant_square(Some(marker), turn),
            mv,
            Some(PieceType::Pawn),
            target,
        ),
{
}

} // verus!
