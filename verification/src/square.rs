//! Squares of the board, numbered 0 to 63 from a1 along the ranks to h8.

use vstd::prelude::*;
use crate::color::Color;
use crate::text::string_of;

verus! {

/// One of the 64 squares. The index is `8 * rank + file`, with a1 = 0 and
/// h8 = 63; no executable value of this type holds an index outside the
/// board.
#[derive(Clone, Copy, Debug, PartialEq, Eq, PartialOrd, Ord, Hash, Structural)]
pub struct Square {
    pub(crate) index: u8,
}

impl View for Square {
    type V = int;

    /// The index of the square, `8 * rank + file`.
    closed spec fn view(&self) -> int {
        self.index as int
    }
}

impl Square {
    /// The invariant of the type: the index lies on the board.
    #[verifier::type_invariant]
    pub closed spec fn on_board(self) -> bool {
        self.index < 64
    }

    /// The square with index `i`; meaningful for `0 <= i < 64`.
    pub closed spec fn at(i: int) -> Square {
        Square { index: i as u8 }
    }

    /// A square on the board has an index from 0 to 63.
    pub proof fn lemma_on_board(self)
        requires
            self.on_board(),
        ensures
            0 <= self@ < 64,
            self == Square::at(self@),
    {
    }

    /// `Square::at(i)` is the square on the board whose index is `i`.
    pub proof fn lemma_at(i: int)
        requires
            0 <= i < 64,
        ensures
            Square::at(i)@ == i,
            Square::at(i).on_board(),
    {
    }

    /// Two squares with the same index are the same square.
    pub proof fn lemma_same_index(self, other: Square)
        requires
            self@ == other@,
        ensures
            self == other,
    {
    }

    /// The square with the given index, if the index lies on the board.
    pub fn from_index(index: u8) -> (r: Option<Square>)
        ensures
            r == if index < 64 { Some(Square::at(index as int)) } else { None },
    {
        if index < 64 {
            Some(Square { index })
        } else {
            None
        }
    }

    /// The square on the given file (0 = a) and rank (0 = first), if both are
    /// below 8.
    pub fn new(file: u8, rank: u8) -> (r: Option<Square>)
        ensures
            r == if file < 8 && rank < 8 { Some(Square::at(8 * rank + file)) } else { None },
    {
        if file < 8 && rank < 8 {
            Some(Square { index: 8 * rank + file })
        } else {
            None
        }
    }

    /// The index of the square.
    pub fn get_index(self) -> (r: u8)
        ensures
            r == self@,
            r < 64,
            self.on_board(),
    {
        proof {
            use_type_invariant(&self);
        }
        self.index
    }

    /// The rank of the square, 0 for the first rank.
    pub fn get_rank(self) -> (r: u8)
        ensures
            r == self@ / 8,
            r < 8,
    {
        self.get_index() / 8
    }

    /// The file of the square, 0 for the a-file.
    pub fn get_file(self) -> (r: u8)
        ensures
            r == self@ % 8,
            r < 8,
    {
        self.get_index() % 8
    }

    /// The square that the letter of a file, `a` to `h`, and the digit of
    /// a rank, `1` to `8`, name.
    pub open spec fn spec_named(file: char, rank: char) -> Option<Square> {
        if 'a' <= file <= 'h' && '1' <= rank <= '8' {
            Some(Square::at(8 * (rank as u32 - '1' as u32) + (file as u32 - 'a' as u32)))
        } else {
            None
        }
    }

    /// The name of the square: the letter of its file and the digit of its
    /// rank.
    pub open spec fn spec_name(self) -> Seq<char> {
        seq![(('a' as u32) + (self@ % 8) as u32) as char, (('1' as u32) + (self@ / 8) as u32) as char]
    }

    /// The square that the letter of a file and the digit of a rank name,
    /// if they name one.
    pub fn named(file: char, rank: char) -> (r: Option<Square>)
        ensures
            r == Square::spec_named(file, rank),
    {
        if 'a' <= file && file <= 'h' && '1' <= rank && rank <= '8' {
            let f: u8 = ((file as u32) - ('a' as u32)) as u8;
            let k: u8 = ((rank as u32) - ('1' as u32)) as u8;
            Some(Square { index: 8 * k + f })
        } else {
            None
        }
    }

    /// The letter of the file of the square, `a` to `h`.
    pub fn get_file_char(self) -> (r: char)
        ensures
            r == self.spec_name()[0],
    {
        match self.get_file() {
            0 => 'a',
            1 => 'b',
            2 => 'c',
            3 => 'd',
            4 => 'e',
            5 => 'f',
            6 => 'g',
            _ => 'h',
        }
    }

    /// The digit of the rank of the square, `1` to `8`.
    pub fn get_rank_char(self) -> (r: char)
        ensures
            r == self.spec_name()[1],
    {
        match self.get_rank() {
            0 => '1',
            1 => '2',
            2 => '3',
            3 => '4',
            4 => '5',
            5 => '6',
            6 => '7',
            _ => '8',
        }
    }

    /// The name of the square, such as `e4`.
    pub fn get_name(self) -> (r: String)
        ensures
            r@ == self.spec_name(),
    {
        let mut chars: Vec<char> = Vec::new();
        chars.push(self.get_file_char());
        chars.push(self.get_rank_char());
        assert(chars@ =~= self.spec_name());
        string_of(&chars)
    }

    /// The square one rank up, if `self` is not on the eighth rank.
    pub open spec fn spec_up(self) -> Option<Square> {
        if self@ < 56 {
            Some(Square::at(self@ + 8))
        } else {
            None
        }
    }

    /// The square one rank down, if `self` is not on the first rank.
    pub open spec fn spec_down(self) -> Option<Square> {
        if self@ >= 8 {
            Some(Square::at(self@ - 8))
        } else {
            None
        }
    }

    /// The square one rank toward the far side of `color`: up for White,
    /// down for Black.
    pub open spec fn spec_forward(self, color: Color) -> Option<Square> {
        match color {
            Color::White => self.spec_up(),
            Color::Black => self.spec_down(),
        }
    }

    /// The square one rank up, if `self` is not on the eighth rank.
    pub fn up(self) -> (r: Option<Square>)
        ensures
            r == self.spec_up(),
    {
        let i = self.get_index();
        if i < 56 {
            Some(Square { index: i + 8 })
        } else {
            None
        }
    }

    /// The square one rank down, if `self` is not on the first rank.
    pub fn down(self) -> (r: Option<Square>)
        ensures
            r == self.spec_down(),
    {
        let i = self.get_index();
        if i >= 8 {
            Some(Square { index: i - 8 })
        } else {
            None
        }
    }

    /// The square one rank toward the far side of `color`.
    pub fn forward(self, color: Color) -> (r: Option<Square>)
        ensures
            r == self.spec_forward(color),
    {
        match color {
            Color::White => self.up(),
            Color::Black => self.down(),
        }
    }
}

} // verus!
