//! Sets of squares as 64-bit masks: bit `i` stands for the square with
//! index `i`, so that the least significant bit is a1 and the most
//! significant bit is h8.

use vstd::prelude::*;
use vstd::std_specs::bits::u64_trailing_zeros;
use vstd::std_specs::bits::axiom_u64_trailing_zeros;
use crate::grid::grid_text;
use crate::grid::render_grid;
use crate::square::Square;
use crate::text::string_of;

verus! {

/// The mask that holds the single square with index `i`, for `0 <= i < 64`.
pub open spec fn bit(i: int) -> u64 {
    1u64 << (i as u64)
}

/// Whether the square with index `i` is in the mask `x`.
pub open spec fn has_bit(x: u64, i: int) -> bool {
    0 <= i < 64 && (x >> (i as u64)) & 1 == 1
}

/// The number of squares with an index below `k` that are in `x`.
pub open spec fn count_below(x: u64, k: nat) -> nat
    decreases k,
{
    if k == 0 {
        0
    } else {
        count_below(x, (k - 1) as nat) + if has_bit(x, k - 1) { 1nat } else { 0nat }
    }
}

/// The number of squares in `x`.
pub open spec fn popcount(x: u64) -> nat {
    count_below(x, 64)
}

/// The least index of a square in `x`, or 64 if `x` is empty.
pub open spec fn lowest_index(x: u64) -> int {
    u64_trailing_zeros(x) as int
}

/// The index of the square that mirrors `i` across the middle of the board:
/// same file, rank `r` becomes rank `7 - r`.
pub open spec fn mirror(i: int) -> int {
    8 * (7 - i / 8) + i % 8
}

/// `lowest_index` is the least index whose square is in `x`.
pub proof fn lemma_lowest_index(x: u64)
    ensures
        x == 0 <==> lowest_index(x) == 64,
        0 <= lowest_index(x) <= 64,
        x != 0 ==> has_bit(x, lowest_index(x)),
        forall|j: int| 0 <= j < lowest_index(x) ==> !has_bit(x, j),
{
    axiom_u64_trailing_zeros(x);
    assert forall|j: int| 0 <= j < lowest_index(x) implies !has_bit(x, j) by {
        let k = j as u64;
        assert((x >> k) & 1u64 == 0u64);
    }
}

/// A single-square mask holds exactly its square.
pub proof fn lemma_bit_has(i: int, j: int)
    requires
        0 <= i < 64,
        0 <= j < 64,
    ensures
        has_bit(bit(i), j) <==> i == j,
        bit(i) != 0,
{
    let a = i as u64;
    let b = j as u64;
    assert(a < 64 && b < 64 ==> (((1u64 << a) >> b) & 1 == 1 <==> a == b)) by (bit_vector);
    assert(a < 64 ==> (1u64 << a) != 0) by (bit_vector);
}

/// The 64 cells of the picture of `x`: `X` for a square of the set and `.`
/// for any other, by the index of the square.
pub open spec fn spec_cells(x: u64) -> Seq<char> {
    Seq::new(
        64,
        |i: int|
            if has_bit(x, i) {
                'X'
            } else {
                '.'
            },
    )
}

/// A set of squares.
#[derive(Clone, Copy, Debug, PartialEq, Eq, PartialOrd, Ord, Hash, Structural)]
pub struct Bitboard(pub u64);

impl Default for Bitboard {
    /// The empty set.
    fn default() -> (r: Bitboard)
        ensures
            r.0 == 0,
    {
        Bitboard(0)
    }
}

impl Bitboard {
    /// The empty set.
    pub fn empty() -> (r: Bitboard)
        ensures
            r.0 == 0,
    {
        Bitboard(0)
    }

    /// The set of all 64 squares.
    pub fn full() -> (r: Bitboard)
        ensures
            r.0 == u64::MAX,
    {
        Bitboard(u64::MAX)
    }

    /// The set whose mask is `mask`.
    pub fn from_uint(mask: u64) -> (r: Bitboard)
        ensures
            r.0 == mask,
    {
        Bitboard(mask)
    }

    /// The mask of the set.
    pub fn to_uint(self) -> (r: u64)
        ensures
            r == self.0,
    {
        self.0
    }

    /// The set that holds `square` alone.
    pub fn from_square(square: Square) -> (r: Bitboard)
        ensures
            r.0 == bit(square@),
    {
        let i = square.get_index();
        Bitboard(1u64 << i)
    }

    /// The least square of the set, if the set is not empty.
    pub fn to_square(self) -> (r: Option<Square>)
        ensures
            r == if self.0 == 0 { None } else { Some(Square::at(lowest_index(self.0))) },
    {
        proof {
            lemma_lowest_index(self.0);
        }
        let i = self.0.trailing_zeros();
        if i < 64 {
            Square::from_index(i as u8)
        } else {
            None
        }
    }

    /// Whether no square is in the set.
    pub fn is_empty(self) -> (r: bool)
        ensures
            r == (self.0 == 0),
    {
        self.0 == 0
    }

    /// Whether `square` is in the set.
    pub fn contains(self, square: Square) -> (r: bool)
        ensures
            r == has_bit(self.0, square@),
    {
        let i = square.get_index();
        (self.0 >> i) & 1 == 1
    }

    /// The number of squares in the set.
    pub fn popcnt(self) -> (r: u32)
        ensures
            r == popcount(self.0),
            r <= 64,
    {
        let mut n: u32 = 0;
        let mut i: u8 = 0;
        while i < 64
            invariant
                i <= 64,
                n <= i,
                n == count_below(self.0, i as nat),
            decreases 64 - i,
        {
            if (self.0 >> i) & 1 == 1 {
                n = n + 1;
            }
            i = i + 1;
        }
        n
    }

    /// The set seen from the other side of the board: every square goes to
    /// the square on the same file whose rank is mirrored.
    pub fn flip_vertical(self) -> (r: Bitboard)
        ensures
            forall|i: int| 0 <= i < 64 ==> has_bit(r.0, i) == has_bit(self.0, mirror(i)),
    {
        let x = self.0;
        let y = ((x & 0xff) << 56) | ((x & 0xff00) << 40) | ((x & 0xff_0000) << 24) | ((x
            & 0xff00_0000) << 8) | ((x >> 8) & 0xff00_0000) | ((x >> 24) & 0xff_0000) | ((x >> 40)
            & 0xff00) | (x >> 56);
        proof {
            assert forall|i: int| 0 <= i < 64 implies has_bit(y, i) == has_bit(x, mirror(i)) by {
                let a = i as u64;
                let b = mirror(i) as u64;
                assert(a < 64 ==> a ^ 56 == 8 * (7 - a / 8) + a % 8) by (bit_vector);
                assert(b == a ^ 56);
                assert(a < 64 && b == a ^ 56 && y == ((x & 0xff) << 56) | ((x & 0xff00) << 40) | ((
                x & 0xff_0000) << 24) | ((x & 0xff00_0000) << 8) | ((x >> 8) & 0xff00_0000) | ((x
                    >> 24) & 0xff_0000) | ((x >> 40) & 0xff00) | (x >> 56) ==> ((y >> a) & 1 == 1
                    <==> (x >> b) & 1 == 1)) by (bit_vector);
            }
        }
        Bitboard(y)
    }

    /// The least square of the set, which leaves the set; `None`, and the
    /// set unchanged, if the set is empty.
    pub fn pop_square(&mut self) -> (r: Option<Square>)
        ensures
            r == if old(self).0 == 0 { None } else { Some(Square::at(lowest_index(old(self).0))) },
            old(self).0 == 0 ==> final(self).0 == 0,
            forall|i: int|
                0 <= i < 64 ==> has_bit(final(self).0, i) == (has_bit(old(self).0, i) && i
                    != lowest_index(old(self).0)),
    {
        let x = self.0;
        proof {
            lemma_lowest_index(x);
        }
        let i = x.trailing_zeros();
        if i < 64 {
            let y = x & !(1u64 << i);
            proof {
                assert forall|j: int| 0 <= j < 64 implies has_bit(y, j) == (has_bit(x, j) && j
                    != i) by {
                    let a = i as u64;
                    let b = j as u64;
                    assert(a < 64 && b < 64 && y == x & !(1u64 << a) ==> ((y >> b) & 1 == 1 <==> ((x
                        >> b) & 1 == 1 && b != a))) by (bit_vector);
                }
            }
            self.0 = y;
            Square::from_index(i as u8)
        } else {
            None
        }
    }

    /// The set as text: eight lines, the first rank first, with `X` for a
    /// square of the set and `.` for any other.
    pub fn get_string(self) -> (r: String)
        ensures
            r@ == grid_text(spec_cells(self.0), false),
    {
        let mut cells: Vec<char> = Vec::new();
        let mut i: u8 = 0;
        while i < 64
            invariant
                i <= 64,
                cells@.len() == i,
                forall|k: int| 0 <= k < i ==> cells@[k] == spec_cells(self.0)[k],
            decreases 64 - i,
        {
            let cell = if (self.0 >> i) & 1 == 1 {
                'X'
            } else {
                '.'
            };
            cells.push(cell);
            i = i + 1;
        }
        assert(cells@ =~= spec_cells(self.0));
        string_of(&render_grid(&cells, false))
    }

    /// The squares that are not in the set.
    pub fn invert(self) -> (r: Bitboard)
        ensures
            r.0 == !self.0,
    {
        Bitboard(!self.0)
    }

    /// The squares that are in both sets.
    pub fn and(self, other: Bitboard) -> (r: Bitboard)
        ensures
            r.0 == self.0 & other.0,
    {
        Bitboard(self.0 & other.0)
    }

    /// The squares that are in either set.
    pub fn or(self, other: Bitboard) -> (r: Bitboard)
        ensures
            r.0 == self.0 | other.0,
    {
        Bitboard(self.0 | other.0)
    }

    /// The squares that are in exactly one of the two sets.
    pub fn xor(self, other: Bitboard) -> (r: Bitboard)
        ensures
            r.0 == self.0 ^ other.0,
    {
        Bitboard(self.0 ^ other.0)
    }

    /// The product of the two masks, modulo 2^64.
    pub fn multiply(self, other: Bitboard) -> (r: Bitboard)
        ensures
            r.0 == (self.0 * other.0) % 0x1_0000_0000_0000_0000,
    {
        Bitboard(self.0.wrapping_mul(other.0))
    }

    /// The mask shifted toward h8 by `shift` squares; squares pushed past
    /// h8 are lost.
    pub fn lshift(self, shift: u32) -> (r: Bitboard)
        requires
            shift < 64,
        ensures
            r.0 == self.0 << shift,
    {
        Bitboard(self.0 << shift)
    }

    /// The mask shifted toward a1 by `shift` squares; squares pushed past
    /// a1 are lost.
    pub fn rshift(self, shift: u32) -> (r: Bitboard)
        requires
            shift < 64,
        ensures
            r.0 == self.0 >> shift,
    {
        Bitboard(self.0 >> shift)
    }
}

} // verus!
