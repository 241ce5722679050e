//! The game: one position with its move enumerator, the two move counters
//! and, where it is kept, the history of position hashes since the last
//! irreversible move.

use vstd::prelude::*;
use crate::bitboard::Bitboard;
use crate::bitboard::has_bit;
use crate::bitboard::lowest_index;
use crate::castle_rights::CastleRights;
use crate::classify;
use crate::classify::spec_en_passant_square;
use crate::classify::spec_is_capture;
use crate::classify::spec_is_castling;
use crate::classify::spec_is_castling_kingside;
use crate::classify::spec_is_castling_queenside;
use crate::classify::spec_is_en_passant;
use crate::classify::spec_is_zeroing;
use crate::color::Color;
use crate::draw;
use crate::fen::is_readable;
use crate::fen::readable;
use crate::draw::BoardStatus;
use crate::draw::spec_is_fifty_moves;
use crate::draw::spec_is_insufficient_material;
use crate::draw::spec_is_n_repetition;
use crate::draw::spec_is_seventy_five_moves;
use crate::draw::spec_status;
use crate::grid::grid_text;
use crate::grid::render_grid;
use crate::movegen::MoveGenerator;
use crate::movegen::all_from;
use crate::movegen::landing;
use crate::movegen::missing;
use crate::movegen::spec_after_next;
use crate::movegen::spec_next;
use crate::movegen::without;
use crate::moves::Move;
use crate::piece::Piece;
use crate::piece::PieceType;
use crate::position::Position;
use crate::position::PositionStatus;
use crate::position::castle_rights_of;
use crate::position::checker_bits;
use crate::position::color_at;
use crate::position::color_bits;
use crate::position::en_passant_marker_of;
use crate::position::is_pass;
use crate::position::legal_in;
use crate::position::legal_moves_of;
use crate::position::null_move_of;
use crate::position::occupied_bits;
use crate::position::piece_at;
use crate::position::piece_bits;
use crate::position::pinned_bits;
use crate::position::position_after;
use crate::position::position_from_text;
use crate::position::quick_legal_in;
use crate::position::quick_test_applies;
use crate::position::side_to_move_of;
use crate::position::status_of;
use crate::position::text_of;
use crate::position::zobrist_of;
use crate::square::Square;
use crate::text::chars_of;
use crate::text::decimal;
use crate::text::fields;
use crate::text::format_u8;
use crate::text::lemma_decimal_value;
use crate::text::lemma_fields_are_words;
use crate::text::lemma_fields_of_spaced;
use crate::text::lemma_fields_of_word;
use crate::text::lemma_parse_decimal;
use crate::text::no_space;
use crate::text::parse_byte;
use crate::text::parse_u8;
use crate::text::spaced;
use crate::text::split_fields;
use crate::text::string_of;

verus! {

/// Whether the hashes of earlier positions are kept, so that repetitions
/// can be found. `Partial` and `Full` both keep them.
#[derive(Clone, Copy, Debug, PartialEq, Eq, PartialOrd, Ord, Hash, Structural)]
pub enum RepetitionDetectionMode {
    Off,
    Partial,
    Full,
}

/// Why a position string was refused.
#[derive(Clone, Copy, Debug, PartialEq, Eq, Hash, Structural)]
pub enum FenError {
    /// The string does not have exactly six fields.
    FieldCount,
    /// The fifth field is no number from 0 to 255.
    HalfmoveClock,
    /// The sixth field is no number from 0 to 255.
    FullmoveNumber,
    /// The reader of positions refuses the string, or the string cannot be
    /// handed to it: the board that it would fill has no king of the side
    /// to move, or more than sixteen pieces of one side.
    Position,
}

/// Why a move was refused.
#[derive(Clone, Copy, Debug, PartialEq, Eq, Hash, Structural)]
pub enum MoveError {
    /// The position has occurred five times: the game is over.
    GameOver,
    /// The move was to be checked and is not legal.
    IllegalMove,
    /// A counter of the game is a byte and stands at 255, and the move
    /// would raise it.
    CounterFull,
}

impl FenError {
    /// What went wrong, in words.
    pub fn message(self) -> (r: &'static str)
        ensures
            r@ == match self {
                FenError::FieldCount => "FEN string must have exactly 6 parts"@,
                FenError::HalfmoveClock => "Invalid halfmove clock"@,
                FenError::FullmoveNumber => "Invalid fullmove number"@,
                FenError::Position => "Invalid FEN"@,
            },
    {
        match self {
            FenError::FieldCount => "FEN string must have exactly 6 parts",
            FenError::HalfmoveClock => "Invalid halfmove clock",
            FenError::FullmoveNumber => "Invalid fullmove number",
            FenError::Position => "Invalid FEN",
        }
    }
}

impl MoveError {
    /// What went wrong, in words.
    pub fn message(self) -> (r: &'static str)
        ensures
            r@ == match self {
                MoveError::GameOver => "Game over due to fivefold repetition"@,
                MoveError::IllegalMove => "Illegal move"@,
                MoveError::CounterFull => "Move counter is full"@,
            },
    {
        match self {
            MoveError::GameOver => "Game over due to fivefold repetition",
            MoveError::IllegalMove => "Illegal move",
            MoveError::CounterFull => "Move counter is full",
        }
    }
}

/// The first reason, if any, for which the position string `text` is
/// refused.
pub open spec fn spec_fen_error(text: Seq<char>) -> Option<FenError> {
    let parts = fields(text);
    if parts.len() != 6 {
        Some(FenError::FieldCount)
    } else if parse_byte(parts[4]) is None {
        Some(FenError::HalfmoveClock)
    } else if parse_byte(parts[5]) is None {
        Some(FenError::FullmoveNumber)
    } else if !readable(text) || position_from_text(text) is None {
        Some(FenError::Position)
    } else {
        None
    }
}

/// The history with which a game starts: the hash of its first position,
/// where hashes are kept at all.
pub open spec fn spec_initial_history(mode: RepetitionDetectionMode, hash: u64) -> Option<
    Seq<u64>,
> {
    if mode == RepetitionDetectionMode::Off {
        None
    } else {
        Some(seq![hash])
    }
}

/// The history after a move that leads to a position with hash `hash`.
/// A move that resets the clock makes the earlier positions unreachable,
/// and their hashes are dropped.
pub open spec fn spec_history_after(history: Option<Seq<u64>>, zeroing: bool, hash: u64) -> Option<
    Seq<u64>,
> {
    match history {
        Some(hashes) => Some(
            if zeroing {
                seq![hash]
            } else {
                hashes.push(hash)
            },
        ),
        None => None,
    }
}

/// The clock after a move: back to zero if the move resets it, else one
/// more.
pub open spec fn spec_clock_after(halfmove_clock: u8, zeroing: bool) -> int {
    if zeroing {
        0
    } else {
        halfmove_clock + 1
    }
}

/// The position string of a game: the first four fields of the position
/// string `text`, then the two counters, with one space between fields.
pub open spec fn spec_fen(text: Seq<char>, halfmove_clock: u8, fullmove_number: u8) -> Seq<char> {
    spaced(
        fields(text).take(4).push(decimal(halfmove_clock as nat)),
        decimal(fullmove_number as nat),
    )
}

/// The letter of the piece on the square with index `i` in `pos`: upper
/// case for White, lower case for Black, and `.` for an empty square.
pub open spec fn spec_cell(pos: Position, i: int) -> char {
    match (piece_at(pos, Square::at(i)), color_at(pos, Square::at(i))) {
        (Some(kind), Some(color)) => kind.spec_symbol(color),
        _ => '.',
    }
}

/// The chess figure of the piece on the square with index `i` in `pos`,
/// and a middle dot for an empty square.
pub open spec fn spec_unicode_cell(pos: Position, dark_mode: bool, i: int) -> char {
    match (piece_at(pos, Square::at(i)), color_at(pos, Square::at(i))) {
        (Some(kind), Some(color)) => (Piece { piece_type: kind, color }).spec_unicode(dark_mode),
        _ => '\u{B7}',
    }
}

/// A game of chess at one moment.
pub struct GameState {
    position: Position,
    move_gen: MoveGenerator,
    halfmove_clock: u8,
    fullmove_number: u8,
    repetition_detection_mode: RepetitionDetectionMode,
    move_history: Option<Vec<u64>>,
}

impl GameState {
    /// The position of the game.
    pub closed spec fn position(&self) -> Position {
        self.position
    }

    /// The enumerator over the moves of the position.
    pub closed spec fn generator(&self) -> MoveGenerator {
        self.move_gen
    }

    /// The plies since the last pawn move or capture.
    pub closed spec fn halfmove_clock(&self) -> u8 {
        self.halfmove_clock
    }

    /// The number of the move: it starts at 1 and grows after each move of
    /// Black.
    pub closed spec fn fullmove_number(&self) -> u8 {
        self.fullmove_number
    }

    /// Whether hashes of positions are kept.
    pub closed spec fn mode(&self) -> RepetitionDetectionMode {
        self.repetition_detection_mode
    }

    /// The hashes of the positions since the last move that reset the
    /// clock, the present position last; `None` where none are kept.
    pub closed spec fn history(&self) -> Option<Seq<u64>> {
        match self.move_history {
            Some(hashes) => Some(hashes@),
            None => None,
        }
    }

    /// The game is consistent: the enumerator runs over the legal moves of
    /// the position, so that it hands out legal moves only, and a history
    /// is kept exactly where the mode asks for one. Every game that this
    /// module makes is consistent, and stays so.
    pub open spec fn wf(&self) -> bool {
        &&& self.generator().moves() == legal_moves_of(self.position())
        &&& self.generator().wf()
        &&& self.history() is Some <==> self.mode() != RepetitionDetectionMode::Off
    }

    /// The game as it is made from a position, the two counters and the
    /// mode: the history holds the hash of the position alone, where one
    /// is kept, and the enumerator is fresh.
    pub open spec fn starts_at(
        &self,
        position: Position,
        halfmove_clock: u8,
        fullmove_number: u8,
        mode: RepetitionDetectionMode,
    ) -> bool {
        &&& self.wf()
        &&& self.position() == position
        &&& self.halfmove_clock() == halfmove_clock
        &&& self.fullmove_number() == fullmove_number
        &&& self.mode() == mode
        &&& self.history() == spec_initial_history(mode, zobrist_of(position))
        &&& self.generator().is_fresh()
    }

    /// The game with the given position, counters and mode, at its start.
    fn assemble(
        position: Position,
        halfmove_clock: u8,
        fullmove_number: u8,
        mode: RepetitionDetectionMode,
    ) -> (r: GameState)
        ensures
            r.starts_at(position, halfmove_clock, fullmove_number, mode),
    {
        let move_gen = MoveGenerator::new(position.legal_moves());
        let move_history = match mode {
            RepetitionDetectionMode::Off => None,
            RepetitionDetectionMode::Partial => {
                let mut hashes: Vec<u64> = Vec::with_capacity(16);
                hashes.push(position.get_hash());
                Some(hashes)
            },
            RepetitionDetectionMode::Full => {
                let mut hashes: Vec<u64> = Vec::with_capacity(256);
                hashes.push(position.get_hash());
                Some(hashes)
            },
        };
        GameState {
            position,
            move_gen,
            halfmove_clock,
            fullmove_number,
            repetition_detection_mode: mode,
            move_history,
        }
    }

    /// The game that `fen` describes; without a string, the game at its
    /// start, before the first move of White. See `from_fen` for the
    /// strings that are refused.
    pub fn new(fen: Option<&str>, mode: RepetitionDetectionMode) -> (r: Result<GameState, FenError>)
        ensures
            match fen {
                None => r matches Ok(game) && position_from_text(
                    "rnbqkbnr/pppppppp/8/8/8/8/PPPPPPPP/RNBQKBNR w KQkq - 0 1"@,
                ) matches Some(start) && game.starts_at(start, 0, 1, mode),
                Some(text) => match spec_fen_error(text@) {
                    Some(error) => r == Err::<GameState, FenError>(error),
                    None => r matches Ok(game) && game.starts_at(
                        position_from_text(text@)->0,
                        parse_byte(fields(text@)[4])->0,
                        parse_byte(fields(text@)[5])->0,
                        mode,
                    ),
                },
            },
    {
        match fen {
            None => Ok(GameState::assemble(Position::start(), 0, 1, mode)),
            Some(text) => GameState::from_fen(text, mode),
        }
    }

    /// The game that the position string `fen` describes. The string must
    /// have six fields, separated by white space: placement, side to move,
    /// castling rights, en-passant square, and the two counters, each a
    /// number from 0 to 255. The reader of positions of the `chess` crate
    /// must accept the string; it is not asked where the board that it
    /// would fill has no king of the side to move or more than sixteen
    /// pieces of one side, which it cannot take.
    pub fn from_fen(fen: &str, mode: RepetitionDetectionMode) -> (r: Result<GameState, FenError>)
        ensures
            match spec_fen_error(fen@) {
                Some(error) => r == Err::<GameState, FenError>(error),
                None => r matches Ok(game) && game.starts_at(
                    position_from_text(fen@)->0,
                    parse_byte(fields(fen@)[4])->0,
                    parse_byte(fields(fen@)[5])->0,
                    mode,
                ),
            },
    {
        let chars = chars_of(fen);
        let parts = split_fields(&chars);
        if parts.len() != 6 {
            return Err(FenError::FieldCount);
        }
        let halfmove_clock = match parse_u8(&parts[4]) {
            Some(value) => value,
            None => {
                return Err(FenError::HalfmoveClock);
            },
        };
        let fullmove_number = match parse_u8(&parts[5]) {
            Some(value) => value,
            None => {
                return Err(FenError::FullmoveNumber);
            },
        };
        if !is_readable(&chars) {
            return Err(FenError::Position);
        }
        let position = match Position::parse(fen) {
            Ok(position) => position,
            Err(_) => {
                return Err(FenError::Position);
            },
        };
        Ok(GameState::assemble(position, halfmove_clock, fullmove_number, mode))
    }

    /// The position string of the game, with its two counters. The first
    /// four fields are those of the position string of the position, and
    /// the two that follow are read back as the two counters.
    pub fn get_fen(&self) -> (r: String)
        ensures
            r@ == spec_fen(text_of(self.position()), self.halfmove_clock(), self.fullmove_number()),
            fields(text_of(self.position())).len() == 6,
            fields(r@).len() == 6,
            parse_byte(fields(r@)[4]) == Some(self.halfmove_clock()),
            parse_byte(fields(r@)[5]) == Some(self.fullmove_number()),
    {
        let text = self.position.text();
        proof {
            lemma_fen_keeps_counters(text@, self.halfmove_clock, self.fullmove_number);
        }
        let chars = chars_of(text.as_str());
        let parts = split_fields(&chars);
        let mut out: Vec<char> = Vec::new();
        let ghost words = fields(chars@).take(4).push(decimal(self.halfmove_clock as nat));
        let ghost tail = decimal(self.fullmove_number as nat);
        let mut k: usize = 0;
        proof {
            assert(words.skip(0) =~= words);
            assert(out@ + spaced(words, tail) =~= spaced(words, tail));
        }
        while k < 4
            invariant
                k <= 4,
                parts@.len() == 6,
                fields(chars@).len() == 6,
                forall|j: int| 0 <= j < parts@.len() ==> (#[trigger] parts@[j])@ == fields(chars@)[j],
                words == fields(chars@).take(4).push(decimal(self.halfmove_clock as nat)),
                out@ + spaced(words.skip(k as int), tail) == spaced(words, tail),
            decreases 4 - k,
        {
            let ghost before = out@;
            append_chars(&mut out, &parts[k]);
            out.push(' ');
            proof {
                let rest = words.skip(k as int);
                assert(rest[0] == parts@[k as int]@);
                assert(rest.skip(1) =~= words.skip(k + 1));
                assert(out@ + spaced(words.skip(k + 1), tail) =~= before + spaced(rest, tail));
            }
            k = k + 1;
        }
        let clock = format_u8(self.halfmove_clock);
        let number = format_u8(self.fullmove_number);
        proof {
            let rest = words.skip(4);
            assert(rest[0] == clock@);
            assert(rest.skip(1) =~= Seq::<Seq<char>>::empty());
            assert(spaced(rest.skip(1), tail) == tail);
            assert(out@ + clock@ + seq![' '] + number@ =~= out@ + spaced(rest, tail));
        }
        append_chars(&mut out, &clock);
        out.push(' ');
        append_chars(&mut out, &number);
        string_of(&out)
    }

    /// The position of the game.
    pub fn get_position(&self) -> (r: Position)
        ensures
            r == self.position(),
    {
        self.position
    }

    /// The plies since the last pawn move or capture.
    pub fn get_halfmove_clock(&self) -> (r: u8)
        ensures
            r == self.halfmove_clock(),
    {
        self.halfmove_clock
    }

    /// The number of the move.
    pub fn get_fullmove_number(&self) -> (r: u8)
        ensures
            r == self.fullmove_number(),
    {
        self.fullmove_number
    }

    /// Whether hashes of positions are kept.
    pub fn get_repetition_detection_mode(&self) -> (r: RepetitionDetectionMode)
        ensures
            r == self.mode(),
    {
        self.repetition_detection_mode
    }

    /// A copy of the kept hashes, the present position last.
    pub fn get_move_history(&self) -> (r: Option<Vec<u64>>)
        ensures
            match r {
                Some(hashes) => self.history() == Some(hashes@),
                None => self.history() is None,
            },
    {
        match &self.move_history {
            Some(hashes) => Some(copy_hashes(hashes)),
            None => None,
        }
    }

    /// The Zobrist hash of the position.
    pub fn get_zobrist_hash(&self) -> (r: u64)
        ensures
            r == zobrist_of(self.position()),
    {
        self.position.get_hash()
    }

    /// Whether the two games stand at positions with the same hash. The
    /// counters and the histories are not compared.
    pub fn same_position(&self, other: &GameState) -> (r: bool)
        ensures
            r == (zobrist_of(self.position()) == zobrist_of(other.position())),
    {
        self.get_zobrist_hash() == other.get_zobrist_hash()
    }

    /// The side to move.
    pub fn get_turn(&self) -> (r: Color)
        ensures
            r == side_to_move_of(self.position()),
    {
        self.position.side_to_move()
    }

    /// The least square that holds a king of `color`, if there is one.
    pub fn get_king_square(&self, color: Color) -> (r: Option<Square>)
        ensures
            r == ({
                let kings = piece_bits(self.position(), PieceType::King) & color_bits(
                    self.position(),
                    color,
                );
                if kings == 0 {
                    None
                } else {
                    Some(Square::at(lowest_index(kings)))
                }
            }),
    {
        self.position.pieces(PieceType::King).and(self.position.color_combined(color)).to_square()
    }

    /// The castling rights of `color`.
    pub fn get_castle_rights(&self, color: Color) -> (r: CastleRights)
        ensures
            r == castle_rights_of(self.position(), color),
    {
        self.position.castle_rights(color)
    }

    /// The castling rights of the side to move.
    pub fn get_my_castle_rights(&self) -> (r: CastleRights)
        ensures
            r == castle_rights_of(self.position(), side_to_move_of(self.position())),
    {
        self.position.castle_rights(self.position.side_to_move())
    }

    /// The castling rights of the side that is not to move.
    pub fn get_their_castle_rights(&self) -> (r: CastleRights)
        ensures
            r == castle_rights_of(self.position(), side_to_move_of(self.position()).spec_opposite()),
    {
        self.position.castle_rights(self.position.side_to_move().opposite())
    }

    /// Whether `color` may still castle on some wing.
    pub fn can_castle(&self, color: Color) -> (r: bool)
        ensures
            r == (castle_rights_of(self.position(), color) != CastleRights::NoRights),
    {
        self.position.castle_rights(color).has_any()
    }

    /// Whether `color` may still castle on the king's wing.
    pub fn can_castle_kingside(&self, color: Color) -> (r: bool)
        ensures
            r == castle_rights_of(self.position(), color).spec_has_kingside(),
    {
        self.position.castle_rights(color).has_kingside()
    }

    /// Whether `color` may still castle on the queen's wing.
    pub fn can_castle_queenside(&self, color: Color) -> (r: bool)
        ensures
            r == castle_rights_of(self.position(), color).spec_has_queenside(),
    {
        self.position.castle_rights(color).has_queenside()
    }

    /// Whether `mv` castles: a king goes two squares along its rank.
    pub fn is_castling(&self, mv: Move) -> (r: bool)
        ensures
            r == spec_is_castling(mv, piece_at(self.position(), mv.source)),
    {
        classify::is_castling(mv, self.position.piece_on(mv.source))
    }

    /// Whether `mv` castles on the king's wing.
    pub fn is_castling_kingside(&self, mv: Move) -> (r: bool)
        ensures
            r == spec_is_castling_kingside(mv, piece_at(self.position(), mv.source)),
    {
        classify::is_castling_kingside(mv, self.position.piece_on(mv.source))
    }

    /// Whether `mv` castles on the queen's wing.
    pub fn is_castling_queenside(&self, mv: Move) -> (r: bool)
        ensures
            r == spec_is_castling_queenside(mv, piece_at(self.position(), mv.source)),
    {
        classify::is_castling_queenside(mv, self.position.piece_on(mv.source))
    }

    /// The kind of the piece on `square`, if the square is occupied.
    pub fn get_piece_type_on(&self, square: Square) -> (r: Option<PieceType>)
        ensures
            r == piece_at(self.position(), square),
    {
        self.position.piece_on(square)
    }

    /// The side of the piece on `square`, if the square is occupied.
    pub fn get_color_on(&self, square: Square) -> (r: Option<Color>)
        ensures
            r == color_at(self.position(), square),
    {
        self.position.color_on(square)
    }

    /// The piece on `square`, if the square is occupied.
    pub fn get_piece_on(&self, square: Square) -> (r: Option<Piece>)
        ensures
            r == match (piece_at(self.position(), square), color_at(self.position(), square)) {
                (Some(piece_type), Some(color)) => Some(Piece { piece_type, color }),
                _ => None,
            },
    {
        match self.position.color_on(square) {
            Some(color) => match self.position.piece_on(square) {
                Some(piece_type) => Some(Piece { piece_type, color }),
                None => None,
            },
            None => None,
        }
    }

    /// The en-passant square of the position.
    pub open spec fn spec_en_passant(&self) -> Option<Square> {
        spec_en_passant_square(
            en_passant_marker_of(self.position()),
            side_to_move_of(self.position()),
        )
    }

    /// The en-passant square: where a pawn of the side to move lands if it
    /// captures en passant. It lies one rank beyond the marker that the
    /// position keeps.
    pub fn get_en_passant(&self) -> (r: Option<Square>)
        ensures
            r == self.spec_en_passant(),
    {
        classify::en_passant_square(self.position.en_passant(), self.position.side_to_move())
    }

    /// Whether `mv` is an en-passant capture: a pawn steps diagonally onto
    /// the empty en-passant square.
    pub fn is_en_passant(&self, mv: Move) -> (r: bool)
        ensures
            r == spec_is_en_passant(
                self.spec_en_passant(),
                mv,
                piece_at(self.position(), mv.source),
                piece_at(self.position(), mv.dest),
            ),
    {
        classify::is_en_passant(
            self.get_en_passant(),
            mv,
            self.position.piece_on(mv.source),
            self.position.piece_on(mv.dest),
        )
    }

    /// Whether `mv` takes a piece: its destination is occupied, or it is
    /// an en-passant capture.
    pub fn is_capture(&self, mv: Move) -> (r: bool)
        ensures
            r == spec_is_capture(
                self.spec_en_passant(),
                mv,
                piece_at(self.position(), mv.source),
                piece_at(self.position(), mv.dest),
            ),
    {
        classify::is_capture(
            self.get_en_passant(),
            mv,
            self.position.piece_on(mv.source),
            self.position.piece_on(mv.dest),
        )
    }

    /// Whether `mv` resets the clock in the position as it stands: the
    /// piece on its source is a pawn, or its destination is occupied.
    pub fn is_zeroing(&self, mv: Move) -> (r: bool)
        ensures
            r == spec_is_zeroing(
                piece_at(self.position(), mv.source),
                piece_at(self.position(), mv.dest),
            ),
            r == (piece_at(self.position(), mv.source) == Some(PieceType::Pawn) || has_bit(
                occupied_bits(self.position()),
                mv.dest@,
            )),
    {
        classify::is_zeroing(self.position.piece_on(mv.source), self.position.piece_on(mv.dest))
    }

    /// Whether `mv` is legal in the position.
    pub fn is_legal_move(&self, mv: Move) -> (r: bool)
        ensures
            r == legal_in(self.position(), mv),
    {
        self.position.legal(mv)
    }

    /// What the quick legality test says of `mv`. The test is meant for the
    /// moves that the enumerator hands out; a move of which it cannot be
    /// asked, such as one from an empty square, is not legal.
    pub fn is_legal_generator_move(&self, mv: Move) -> (r: bool)
        ensures
            r == (quick_test_applies(self.position(), mv) && quick_legal_in(self.position(), mv)),
    {
        let moving = self.position.piece_on(mv.source);
        let applies = match moving {
            Some(kind) => !(kind == PieceType::Pawn && mv.source.get_file() != mv.dest.get_file()
                && self.position.piece_on(mv.dest).is_none()) || self.position.en_passant().is_some(),
            None => false,
        };
        applies && self.position.legal_quick(mv)
    }

    /// The pieces of the side to move that are pinned to their king.
    pub fn get_pinned_bitboard(&self) -> (r: Bitboard)
        ensures
            r.0 == pinned_bits(self.position()),
    {
        self.position.pinned()
    }

    /// The pieces that give check to the side to move.
    pub fn get_checkers_bitboard(&self) -> (r: Bitboard)
        ensures
            r.0 == checker_bits(self.position()),
    {
        self.position.checkers()
    }

    /// The squares that hold a piece of `color`.
    pub fn get_color_bitboard(&self, color: Color) -> (r: Bitboard)
        ensures
            r.0 == color_bits(self.position(), color),
    {
        self.position.color_combined(color)
    }

    /// The squares that hold a piece of kind `piece_type`, of either side.
    pub fn get_piece_type_bitboard(&self, piece_type: PieceType) -> (r: Bitboard)
        ensures
            r.0 == piece_bits(self.position(), piece_type),
    {
        self.position.pieces(piece_type)
    }

    /// The squares that hold the piece `piece`.
    pub fn get_piece_bitboard(&self, piece: Piece) -> (r: Bitboard)
        ensures
            r.0 == piece_bits(self.position(), piece.piece_type) & color_bits(
                self.position(),
                piece.color,
            ),
    {
        self.position.pieces(piece.piece_type).and(self.position.color_combined(piece.color))
    }

    /// The occupied squares.
    pub fn get_all_bitboard(&self) -> (r: Bitboard)
        ensures
            r.0 == occupied_bits(self.position()),
    {
        self.position.combined()
    }

    /// The last position of the history has occurred `n` times; never so
    /// where no history is kept.
    pub open spec fn spec_repeats(&self, n: int) -> bool {
        match self.history() {
            Some(hashes) => spec_is_n_repetition(hashes, n),
            None => false,
        }
    }

    /// Neither side can give mate with what is on the board.
    pub open spec fn spec_insufficient(&self) -> bool {
        spec_is_insufficient_material(
            piece_bits(self.position(), PieceType::King),
            piece_bits(self.position(), PieceType::Knight),
            piece_bits(self.position(), PieceType::Bishop),
            color_bits(self.position(), Color::White),
            color_bits(self.position(), Color::Black),
        )
    }

    /// Whether a draw may be claimed under the fifty-move rule.
    pub fn is_fifty_moves(&self) -> (r: bool)
        ensures
            r == spec_is_fifty_moves(self.halfmove_clock(), status_of(self.position())),
    {
        draw::is_fifty_moves(self.halfmove_clock, self.position.status())
    }

    /// Whether the game is drawn under the seventy-five-move rule.
    pub fn is_seventy_five_moves(&self) -> (r: bool)
        ensures
            r == spec_is_seventy_five_moves(self.halfmove_clock(), status_of(self.position())),
    {
        draw::is_seventy_five_moves(self.halfmove_clock, self.position.status())
    }

    /// Whether neither side can give mate with what is on the board.
    pub fn is_insufficient_material(&self) -> (r: bool)
        ensures
            r == self.spec_insufficient(),
    {
        draw::is_insufficient_material(
            self.position.pieces(PieceType::King),
            self.position.pieces(PieceType::Knight),
            self.position.pieces(PieceType::Bishop),
            self.position.color_combined(Color::White),
            self.position.color_combined(Color::Black),
        )
    }

    /// Whether the position has occurred `n` times since the last move
    /// that reset the clock, as far as the kept hashes tell.
    pub fn is_n_repetition(&self, n: u8) -> (r: bool)
        ensures
            r == self.spec_repeats(n as int),
    {
        match &self.move_history {
            Some(hashes) => draw::is_n_repetition(hashes, n),
            None => false,
        }
    }

    /// Whether the position has occurred three times: a draw may be
    /// claimed.
    pub fn is_threefold_repetition(&self) -> (r: bool)
        ensures
            r == self.spec_repeats(3),
    {
        self.is_n_repetition(3)
    }

    /// Whether the position has occurred five times: the game is drawn.
    pub fn is_fivefold_repetition(&self) -> (r: bool)
        ensures
            r == self.spec_repeats(5),
    {
        self.is_n_repetition(5)
    }

    /// Whether the side to move is in check.
    pub fn is_check(&self) -> (r: bool)
        ensures
            r == (checker_bits(self.position()) != 0),
    {
        !self.position.checkers().is_empty()
    }

    /// Whether the side to move is stalemated.
    pub fn is_stalemate(&self) -> (r: bool)
        ensures
            r == (status_of(self.position()) == PositionStatus::Stalemate),
    {
        self.position.status() == PositionStatus::Stalemate
    }

    /// Whether the side to move is checkmated.
    pub fn is_checkmate(&self) -> (r: bool)
        ensures
            r == (status_of(self.position()) == PositionStatus::Checkmate),
    {
        self.position.status() == PositionStatus::Checkmate
    }

    /// The status of the game. Checkmate and stalemate come first; then
    /// the seventy-five-move rule, insufficient material and fivefold
    /// repetition, in this order.
    pub fn get_status(&self) -> (r: BoardStatus)
        ensures
            r == spec_status(
                status_of(self.position()),
                self.halfmove_clock(),
                self.spec_insufficient(),
                self.spec_repeats(5),
            ),
    {
        draw::get_status(
            self.position.status(),
            self.halfmove_clock,
            self.is_insufficient_material(),
            self.is_fivefold_repetition(),
        )
    }

    /// The first reason, if any, for which `mv` is refused: the game is
    /// over once a position has occurred five times, a move that is to be
    /// checked must be legal, and the counters must have room for the
    /// move.
    pub open spec fn spec_refusal(&self, mv: Move, check_legality: bool) -> Option<MoveError> {
        if self.spec_repeats(5) {
            Some(MoveError::GameOver)
        } else if check_legality && !legal_in(self.position(), mv) {
            Some(MoveError::IllegalMove)
        } else if !self.has_room(mv) {
            Some(MoveError::CounterFull)
        } else {
            None
        }
    }

    /// `mv` resets the clock in the position as it stands.
    pub open spec fn spec_zeroing(&self, mv: Move) -> bool {
        spec_is_zeroing(piece_at(self.position(), mv.source), piece_at(self.position(), mv.dest))
    }

    /// The two counters, which are bytes, have room for `mv`.
    pub open spec fn has_room(&self, mv: Move) -> bool {
        &&& self.halfmove_clock() < u8::MAX || self.spec_zeroing(mv)
        &&& self.fullmove_number() < u8::MAX || side_to_move_of(self.position()) == Color::White
    }

    /// The two counters have room for a move that does not reset the
    /// clock.
    pub open spec fn has_room_for_null(&self) -> bool {
        &&& self.halfmove_clock() < u8::MAX
        &&& self.fullmove_number() < u8::MAX || side_to_move_of(self.position()) == Color::White
    }

    /// `self` is the game to which `mv` leads from `before`. The position
    /// is the one after the move, with the other side to move. The clock
    /// goes back to zero if the move resets it, and grows by one if not.
    /// The number of the move grows after a move of Black. The history,
    /// where one is kept, is started anew by a move that resets the clock,
    /// and in either case ends in the hash of the new position. The
    /// enumerator is fresh.
    pub open spec fn follows(&self, before: GameState, mv: Move) -> bool {
        &&& self.position() == position_after(before.position(), mv)
        &&& side_to_move_of(self.position()) == side_to_move_of(before.position()).spec_opposite()
        &&& self.halfmove_clock() == spec_clock_after(
            before.halfmove_clock(),
            before.spec_zeroing(mv),
        )
        &&& self.fullmove_number() == before.fullmove_number() + side_to_move_of(
            before.position(),
        ).spec_to_index()
        &&& self.mode() == before.mode()
        &&& self.history() == spec_history_after(
            before.history(),
            before.spec_zeroing(mv),
            zobrist_of(self.position()),
        )
        &&& self.generator().moves() == legal_moves_of(self.position())
        &&& self.generator().is_fresh()
        &&& self.generator().wf()
    }

    /// `self` is the game in which the side to move of `before` has passed.
    /// The clock grows by one, the number of the move grows after a pass
    /// of Black, and the history is as it was: a pass adds no hash. The
    /// enumerator is fresh.
    pub open spec fn follows_pass(&self, before: GameState) -> bool {
        &&& null_move_of(before.position()) == Some(self.position())
        &&& is_pass(before.position(), self.position())
        &&& self.halfmove_clock() == before.halfmove_clock() + 1
        &&& self.fullmove_number() == before.fullmove_number() + side_to_move_of(
            before.position(),
        ).spec_to_index()
        &&& self.mode() == before.mode()
        &&& self.history() == before.history()
        &&& self.generator().moves() == legal_moves_of(self.position())
        &&& self.generator().is_fresh()
        &&& self.generator().wf()
    }

    /// `make_move` and `make_move_new` can be called with these arguments:
    /// unless the move is refused, it is legal.
    pub open spec fn can_make_move(&self, mv: Move, check_legality: bool) -> bool {
        self.spec_refusal(mv, check_legality) is None ==> legal_in(self.position(), mv)
    }

    /// Whether the two counters have room for `mv`.
    fn room_for(&self, mv: Move) -> (r: bool)
        ensures
            r == self.has_room(mv),
    {
        let clock_has_room = self.halfmove_clock < u8::MAX || self.is_zeroing(mv);
        let number_has_room = self.fullmove_number < u8::MAX || self.position.side_to_move()
            == Color::White;
        clock_has_room && number_has_room
    }

    /// Whether `make_move` and `make_move_new` can be called with these
    /// arguments.
    pub fn fits_move(&self, mv: Move, check_legality: bool) -> (r: bool)
        ensures
            r == self.can_make_move(mv, check_legality),
    {
        if check_legality || self.is_fivefold_repetition() || !self.room_for(mv) {
            return true;
        }
        self.is_legal_move(mv)
    }

    /// Makes the move on this game where `make_move` can be called, and
    /// gives what it gives; `None`, and nothing changes, where it cannot:
    /// the move was not to be checked and is not legal.
    pub fn checked_make_move(&mut self, mv: Move, check_legality: bool) -> (r: Option<
        Result<(), MoveError>,
    >)
        ensures
            !old(self).can_make_move(mv, check_legality) ==> r is None && *final(self) == *old(
                self,
            ),
            old(self).can_make_move(mv, check_legality) ==> r is Some && match old(
                self,
            ).spec_refusal(mv, check_legality) {
                Some(error) => r->0 == Err::<(), MoveError>(error) && *final(self) == *old(self),
                None => r->0 == Ok::<(), MoveError>(()) && final(self).follows(*old(self), mv),
            },
    {
        if self.fits_move(mv, check_legality) {
            Some(self.make_move(mv, check_legality))
        } else {
            None
        }
    }

    /// The game after the move where `make_move_new` can be called, or its
    /// refusal; `None` where it cannot: the move was not to be checked and
    /// is not legal.
    pub fn checked_make_move_new(&self, mv: Move, check_legality: bool) -> (r: Option<
        Result<GameState, MoveError>,
    >)
        ensures
            !self.can_make_move(mv, check_legality) ==> r is None,
            self.can_make_move(mv, check_legality) ==> r is Some && match self.spec_refusal(
                mv,
                check_legality,
            ) {
                Some(error) => r->0 matches Err(e) && e == error,
                None => r->0 matches Ok(game) && game.follows(*self, mv),
            },
    {
        if self.fits_move(mv, check_legality) {
            Some(self.make_move_new(mv, check_legality))
        } else {
            None
        }
    }

    /// Makes the move on this game. Nothing changes if the move is
    /// refused, which it is, in this order, when the position has occurred
    /// five times, when the move was to be checked and is not legal, and
    /// when a counter is full. A move that is not to be checked must be
    /// legal all the same: the caller vouches for it.
    pub fn make_move(&mut self, mv: Move, check_legality: bool) -> (r: Result<(), MoveError>)
        requires
            old(self).can_make_move(mv, check_legality),
        ensures
            match old(self).spec_refusal(mv, check_legality) {
                Some(error) => r == Err::<(), MoveError>(error) && *final(self) == *old(self),
                None => r == Ok::<(), MoveError>(()) && final(self).follows(*old(self), mv),
            },
    {
        if self.is_fivefold_repetition() {
            return Err(MoveError::GameOver);
        }
        if check_legality && !self.is_legal_move(mv) {
            return Err(MoveError::IllegalMove);
        }
        if !self.room_for(mv) {
            return Err(MoveError::CounterFull);
        }
        let zeroing = self.is_zeroing(mv);
        let turn = self.position.side_to_move();
        let position = self.position.make_move_new(mv);
        let move_gen = MoveGenerator::new(position.legal_moves());
        let hash = position.get_hash();
        let halfmove_clock = if zeroing {
            0
        } else {
            self.halfmove_clock + 1
        };
        let fullmove_number = self.fullmove_number + turn.to_index();
        let repetition_detection_mode = self.repetition_detection_mode;
        let move_history = match self.move_history.take() {
            Some(hashes) => {
                let mut hashes = hashes;
                if zeroing {
                    hashes.clear();
                }
                hashes.push(hash);
                Some(hashes)
            },
            None => None,
        };
        *self = GameState {
            position,
            move_gen,
            halfmove_clock,
            fullmove_number,
            repetition_detection_mode,
            move_history,
        };
        Ok(())
    }

    /// The game after the move, as a game of its own; this game stays as
    /// it is. The move is refused as `make_move` refuses it. A move that is
    /// not to be checked must be legal all the same.
    pub fn make_move_new(&self, mv: Move, check_legality: bool) -> (r: Result<GameState, MoveError>)
        requires
            self.can_make_move(mv, check_legality),
        ensures
            match self.spec_refusal(mv, check_legality) {
                Some(error) => r matches Err(e) && e == error,
                None => r matches Ok(game) && game.follows(*self, mv),
            },
    {
        if self.is_fivefold_repetition() {
            return Err(MoveError::GameOver);
        }
        if check_legality && !self.is_legal_move(mv) {
            return Err(MoveError::IllegalMove);
        }
        if !self.room_for(mv) {
            return Err(MoveError::CounterFull);
        }
        let zeroing = self.is_zeroing(mv);
        let turn = self.position.side_to_move();
        let position = self.position.make_move_new(mv);
        let move_gen = MoveGenerator::new(position.legal_moves());
        let hash = position.get_hash();
        let halfmove_clock = if zeroing {
            0
        } else {
            self.halfmove_clock + 1
        };
        let fullmove_number = self.fullmove_number + turn.to_index();
        let move_history = match &self.move_history {
            Some(hashes) => {
                let mut copy = if zeroing {
                    Vec::new()
                } else {
                    copy_hashes(hashes)
                };
                copy.push(hash);
                Some(copy)
            },
            None => None,
        };
        Ok(
            GameState {
                position,
                move_gen,
                halfmove_clock,
                fullmove_number,
                repetition_detection_mode: self.repetition_detection_mode,
                move_history,
            },
        )
    }

    /// The game in which the side to move has passed, as a game of its
    /// own; `None` where the side to move is in check, which may not pass;
    /// and an error where it may pass but a counter is full.
    pub fn make_null_move_new(&self) -> (r: Result<Option<GameState>, MoveError>)
        ensures
            match r {
                Ok(Some(game)) => checker_bits(self.position()) == 0 && self.has_room_for_null()
                    && game.follows_pass(*self),
                Ok(None) => checker_bits(self.position()) != 0,
                Err(error) => checker_bits(self.position()) == 0 && !self.has_room_for_null()
                    && error == MoveError::CounterFull,
            },
    {
        let position = match self.position.null_move() {
            Some(position) => position,
            None => {
                return Ok(None);
            },
        };
        let turn = self.position.side_to_move();
        if self.halfmove_clock == u8::MAX || (self.fullmove_number == u8::MAX && turn
            == Color::Black) {
            return Err(MoveError::CounterFull);
        }
        let move_gen = MoveGenerator::new(position.legal_moves());
        let move_history = match &self.move_history {
            Some(hashes) => Some(copy_hashes(hashes)),
            None => None,
        };
        Ok(
            Some(
                GameState {
                    position,
                    move_gen,
                    halfmove_clock: self.halfmove_clock + 1,
                    fullmove_number: self.fullmove_number + turn.to_index(),
                    repetition_detection_mode: self.repetition_detection_mode,
                    move_history,
                },
            ),
        )
    }

    /// Everything but the enumerator is the same in both games, and the
    /// two enumerators run over the same moves.
    pub open spec fn same_but_cursor(&self, other: GameState) -> bool {
        &&& self.position() == other.position()
        &&& self.halfmove_clock() == other.halfmove_clock()
        &&& self.fullmove_number() == other.fullmove_number()
        &&& self.mode() == other.mode()
        &&& self.history() == other.history()
        &&& self.generator().moves() == other.generator().moves()
    }

    /// The number of moves that the enumerator has still to hand out under
    /// its mask. Nothing is handed out.
    pub fn get_generator_num_remaining(&self) -> (r: usize)
        ensures
            r == landing(self.generator().pending(), self.generator().mask()).len(),
    {
        self.move_gen.len()
    }

    /// Starts the enumerator over: every move of the position is pending
    /// again, and every square is in the mask.
    pub fn reset_move_generator(&mut self)
        ensures
            final(self).same_but_cursor(*old(self)),
            old(self).wf() ==> final(self).wf(),
            final(self).generator().is_fresh(),
    {
        self.move_gen.reset();
    }

    /// Removes `mv` from the enumerator for good, whatever the mask
    /// becomes later. A move that is not pending is ignored.
    pub fn remove_generator_move(&mut self, mv: Move)
        ensures
            final(self).same_but_cursor(*old(self)),
            old(self).wf() ==> final(self).wf(),
            final(self).generator().mask() == old(self).generator().mask(),
            final(self).generator().pending() == without(old(self).generator().pending(), mv),
    {
        self.move_gen.remove_move(mv);
    }

    /// Sets the mask of the enumerator: only moves that land on a square of
    /// `mask` are handed out from now on. What was handed out or removed
    /// stays so.
    pub fn set_generator_mask(&mut self, mask: Bitboard)
        ensures
            final(self).same_but_cursor(*old(self)),
            old(self).wf() ==> final(self).wf(),
            final(self).generator().mask() == mask.0,
            final(self).generator().pending() == old(self).generator().pending(),
    {
        self.move_gen.set_mask(mask);
    }

    /// Removes from the enumerator, for good, every pending move that
    /// lands on a square of `mask`. The mask of the enumerator stays.
    pub fn remove_generator_mask(&mut self, mask: Bitboard)
        ensures
            final(self).same_but_cursor(*old(self)),
            old(self).wf() ==> final(self).wf(),
            final(self).generator().mask() == old(self).generator().mask(),
            final(self).generator().pending() == missing(old(self).generator().pending(), mask.0),
    {
        self.move_gen.remove_mask(mask);
    }

    /// Hands out the next move of the enumerator under its mask.
    pub fn generate_next_move(&mut self) -> (r: Option<Move>)
        ensures
            final(self).same_but_cursor(*old(self)),
            old(self).wf() ==> final(self).wf(),
            final(self).generator().mask() == old(self).generator().mask(),
            r == spec_next(old(self).generator().pending(), old(self).generator().mask()),
            final(self).generator().pending() == spec_after_next(
                old(self).generator().pending(),
                old(self).generator().mask(),
            ),
            old(self).wf() && r is Some ==> legal_in(old(self).position(), r->0),
    {
        self.move_gen.next()
    }

    /// Puts every square in the mask of the enumerator, so that every
    /// pending move is handed out from now on. What was handed out or
    /// removed stays so.
    pub fn set_generator_mask_to_all(&mut self)
        ensures
            final(self).same_but_cursor(*old(self)),
            old(self).wf() ==> final(self).wf(),
            final(self).generator().mask() == u64::MAX,
            final(self).generator().pending() == old(self).generator().pending(),
    {
        self.move_gen.set_mask(Bitboard::full());
    }

    /// Sets the mask of the enumerator to the squares of the pieces of the
    /// side that is not to move, so that only moves that take a piece on
    /// their destination are handed out from now on. What was handed out
    /// or removed stays so.
    pub fn set_generator_mask_to_captures(&mut self)
        ensures
            final(self).same_but_cursor(*old(self)),
            old(self).wf() ==> final(self).wf(),
            final(self).generator().mask() == old(self).spec_targets(),
            final(self).generator().pending() == old(self).generator().pending(),
    {
        let targets = self.position.color_combined(self.position.side_to_move().opposite());
        self.move_gen.set_mask(targets);
    }

    /// Puts every square in the mask, then hands out the next move.
    pub fn generate_next_legal_move(&mut self) -> (r: Option<Move>)
        ensures
            final(self).same_but_cursor(*old(self)),
            old(self).wf() ==> final(self).wf(),
            final(self).generator().mask() == u64::MAX,
            r == spec_next(old(self).generator().pending(), u64::MAX),
            final(self).generator().pending() == spec_after_next(
                old(self).generator().pending(),
                u64::MAX,
            ),
            old(self).wf() && r is Some ==> legal_in(old(self).position(), r->0),
    {
        self.set_generator_mask_to_all();
        self.move_gen.next()
    }

    /// Sets the mask to the squares of the pieces of the side that is not
    /// to move, then hands out the next move: a move that takes a piece on
    /// its destination.
    pub fn generate_next_legal_capture(&mut self) -> (r: Option<Move>)
        ensures
            final(self).same_but_cursor(*old(self)),
            old(self).wf() ==> final(self).wf(),
            final(self).generator().mask() == old(self).spec_targets(),
            r == spec_next(old(self).generator().pending(), old(self).spec_targets()),
            final(self).generator().pending() == spec_after_next(
                old(self).generator().pending(),
                old(self).spec_targets(),
            ),
            old(self).wf() && r is Some ==> legal_in(old(self).position(), r->0),
    {
        self.set_generator_mask_to_captures();
        self.move_gen.next()
    }

    /// The squares of the pieces of the side that is not to move.
    pub open spec fn spec_targets(&self) -> u64 {
        color_bits(self.position(), side_to_move_of(self.position()).spec_opposite())
    }

    /// Hands out, in order, every move that the enumerator has still to
    /// hand out under its mask.
    pub fn generate_moves(&mut self) -> (r: Vec<Move>)
        ensures
            final(self).same_but_cursor(*old(self)),
            old(self).wf() ==> final(self).wf(),
            final(self).generator().mask() == old(self).generator().mask(),
            r@ == landing(old(self).generator().pending(), old(self).generator().mask()),
            old(self).wf() ==> all_from(r@, legal_moves_of(old(self).position())),
            final(self).generator().pending() == missing(
                old(self).generator().pending(),
                old(self).generator().mask(),
            ),
    {
        self.move_gen.take_all()
    }

    /// Puts every square in the mask, then hands out every pending move.
    pub fn generate_legal_moves(&mut self) -> (r: Vec<Move>)
        ensures
            final(self).same_but_cursor(*old(self)),
            old(self).wf() ==> final(self).wf(),
            final(self).generator().mask() == u64::MAX,
            r@ == landing(old(self).generator().pending(), u64::MAX),
            old(self).wf() ==> all_from(r@, legal_moves_of(old(self).position())),
            final(self).generator().pending() == missing(old(self).generator().pending(), u64::MAX),
    {
        self.set_generator_mask_to_all();
        self.move_gen.take_all()
    }

    /// Sets the mask to the squares of the pieces of the side that is not
    /// to move, then hands out every pending move that lands there.
    pub fn generate_legal_captures(&mut self) -> (r: Vec<Move>)
        ensures
            final(self).same_but_cursor(*old(self)),
            old(self).wf() ==> final(self).wf(),
            final(self).generator().mask() == old(self).spec_targets(),
            r@ == landing(old(self).generator().pending(), old(self).spec_targets()),
            old(self).wf() ==> all_from(r@, legal_moves_of(old(self).position())),
            final(self).generator().pending() == missing(
                old(self).generator().pending(),
                old(self).spec_targets(),
            ),
    {
        self.set_generator_mask_to_captures();
        self.move_gen.take_all()
    }

    /// The board as text: eight lines, the eighth rank first, with the
    /// letter of each piece and `.` for an empty square.
    pub fn display(&self) -> (r: String)
        ensures
            r@ == grid_text(Seq::new(64, |i: int| spec_cell(self.position(), i)), true),
    {
        let mut cells: Vec<char> = Vec::new();
        let mut i: u8 = 0;
        while i < 64
            invariant
                i <= 64,
                cells@.len() == i,
                forall|k: int| 0 <= k < i ==> cells@[k] == spec_cell(self.position(), k),
            decreases 64 - i,
        {
            let cell = match Square::from_index(i) {
                Some(square) => match self.get_piece_on(square) {
                    Some(piece) => piece.get_symbol(),
                    None => '.',
                },
                None => '.',
            };
            cells.push(cell);
            i = i + 1;
        }
        assert(cells@ =~= Seq::new(64, |i: int| spec_cell(self.position(), i)));
        string_of(&render_grid(&cells, true))
    }

    /// The board as text, with the chess figures of Unicode and a middle
    /// dot for an empty square. With `dark_mode`, the figures of the two
    /// sides are swapped, as suits light text on a dark background.
    pub fn display_unicode(&self, dark_mode: bool) -> (r: String)
        ensures
            r@ == grid_text(
                Seq::new(64, |i: int| spec_unicode_cell(self.position(), dark_mode, i)),
                true,
            ),
    {
        let mut cells: Vec<char> = Vec::new();
        let mut i: u8 = 0;
        while i < 64
            invariant
                i <= 64,
                cells@.len() == i,
                forall|k: int|
                    0 <= k < i ==> cells@[k] == spec_unicode_cell(self.position(), dark_mode, k),
            decreases 64 - i,
        {
            let cell = match Square::from_index(i) {
                Some(square) => match self.get_piece_on(square) {
                    Some(piece) => piece.get_unicode(dark_mode),
                    None => '\u{B7}',
                },
                None => '\u{B7}',
            };
            cells.push(cell);
            i = i + 1;
        }
        assert(cells@ =~= Seq::new(
            64,
            |i: int| spec_unicode_cell(self.position(), dark_mode, i),
        ));
        string_of(&render_grid(&cells, true))
    }

    /// A consistent game whose enumerator is fresh has every legal move of
    /// its position to hand out, in order: the count of the enumerator is
    /// the number of legal moves.
    pub proof fn lemma_fresh_count(self)
        requires
            self.wf(),
            self.generator().is_fresh(),
        ensures
            landing(self.generator().pending(), self.generator().mask()) == legal_moves_of(
                self.position(),
            ),
    {
        self.generator().lemma_fresh_count();
    }

    /// A consistent game stays consistent when a move is made.
    pub proof fn lemma_move_keeps_consistency(self, before: GameState, mv: Move)
        requires
            before.wf(),
            self.follows(before, mv),
        ensures
            self.wf(),
    {
    }

    /// A consistent game stays consistent when the side to move passes.
    pub proof fn lemma_pass_keeps_consistency(self, before: GameState)
        requires
            before.wf(),
            self.follows_pass(before),
        ensures
            self.wf(),
    {
    }

    /// After a move, a kept history is one entry longer than the clock
    /// says, provided it was so before the move or the move resets the
    /// clock. The history of a game that was read from a string with a
    /// clock above zero is shorter, until a move resets the clock.
    pub proof fn lemma_history_tracks_clock(self, before: GameState, mv: Move)
        requires
            self.follows(before, mv),
            before.history() is Some,
            before.spec_zeroing(mv) || before.history()->0.len() == before.halfmove_clock() + 1,
        ensures
            self.history() is Some,
            self.history()->0.len() == self.halfmove_clock() + 1,
            self.history()->0.last() == zobrist_of(self.position()),
    {
    }

    /// A game at its start has a history that is one entry longer than the
    /// clock says exactly where its clock is at zero.
    pub proof fn lemma_history_at_start(
        self,
        position: Position,
        halfmove_clock: u8,
        fullmove_number: u8,
        mode: RepetitionDetectionMode,
    )
        requires
            self.starts_at(position, halfmove_clock, fullmove_number, mode),
            mode != RepetitionDetectionMode::Off,
        ensures
            self.history() is Some,
            self.history()->0.len() == self.halfmove_clock() + 1 <==> halfmove_clock == 0,
    {
    }
}

/// Adds the characters of `more` to the end of `out`.
fn append_chars(out: &mut Vec<char>, more: &Vec<char>)
    ensures
        final(out)@ == old(out)@ + more@,
{
    let n = more.len();
    let mut i: usize = 0;
    while i < n
        invariant
            n == more@.len(),
            i <= n,
            out@ == old(out)@ + more@.take(i as int),
        decreases n - i,
    {
        out.push(more[i]);
        assert(more@.take(i + 1) =~= more@.take(i as int).push(more@[i as int]));
        i = i + 1;
    }
    assert(more@.take(n as int) =~= more@);
}

/// A vector with the same hashes as `hashes`.
fn copy_hashes(hashes: &Vec<u64>) -> (r: Vec<u64>)
    ensures
        r@ == hashes@,
{
    let mut out: Vec<u64> = Vec::new();
    let n = hashes.len();
    let mut i: usize = 0;
    while i < n
        invariant
            n == hashes@.len(),
            i <= n,
            out@ == hashes@.take(i as int),
        decreases n - i,
    {
        out.push(hashes[i]);
        assert(hashes@.take(i + 1) =~= hashes@.take(i as int).push(hashes@[i as int]));
        i = i + 1;
    }
    assert(hashes@.take(n as int) =~= hashes@);
    out
}

/// The position string of a game is read back with the same two counters:
/// it has six fields, of which the first four are those of the position
/// and the last two are read as the clock and the number of the move. So a
/// game that is read from its own position string is refused only if the
/// reader of positions refuses it, and has the same counters if not.
pub proof fn lemma_fen_keeps_counters(text: Seq<char>, halfmove_clock: u8, fullmove_number: u8)
    requires
        fields(text).len() >= 4,
    ensures
        fields(spec_fen(text, halfmove_clock, fullmove_number)).len() == 6,
        forall|k: int|
            0 <= k < 4 ==> fields(spec_fen(text, halfmove_clock, fullmove_number))[k] == fields(
                text,
            )[k],
        parse_byte(fields(spec_fen(text, halfmove_clock, fullmove_number))[4]) == Some(
            halfmove_clock,
        ),
        parse_byte(fields(spec_fen(text, halfmove_clock, fullmove_number))[5]) == Some(
            fullmove_number,
        ),
        spec_fen_error(spec_fen(text, halfmove_clock, fullmove_number)) is None || spec_fen_error(
            spec_fen(text, halfmove_clock, fullmove_number),
        ) == Some(FenError::Position),
{
    let clock = decimal(halfmove_clock as nat);
    let number = decimal(fullmove_number as nat);
    let words = fields(text).take(4).push(clock);
    lemma_fields_are_words(text);
    lemma_decimal_value(halfmove_clock as nat);
    lemma_decimal_value(fullmove_number as nat);
    assert forall|k: int| 0 <= k < words.len() implies (#[trigger] words[k]).len() > 0 && no_space(
        words[k],
    ) by {
        if k < 4 {
            assert(words[k] == fields(text)[k]);
        }
    }
    lemma_fields_of_spaced(words, number);
    lemma_fields_of_word(number);
    lemma_parse_decimal(halfmove_clock);
    lemma_parse_decimal(fullmove_number);
    let again = fields(spec_fen(text, halfmove_clock, fullmove_number));
    assert(again == words + seq![number]);
    assert(again[4] == clock);
    assert(again[5] == number);
}

} // verus!
