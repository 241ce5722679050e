//! The move enumerator: a cursor over the moves of one position, which
//! hands out each move at most once, only moves that land on the squares of
//! a mask that can be changed at any time, and never a move that was
//! removed.
//!
//! The moves are those that the generator of the `chess` crate yields when
//! it is run to its end, in its order. The mask and the removals are kept
//! here and not in that generator, which stops counting and handing out at
//! the first piece whose moves were all removed, and which loses track of
//! promotions when its mask is changed between them: here the count is
//! always the number of moves that are still to come, and a removal holds
//! whatever the mask becomes.

use vstd::prelude::*;
use crate::bitboard::Bitboard;
use crate::bitboard::bit;
use crate::bitboard::has_bit;
use crate::bitboard::lemma_bit_has;
use crate::moves::Move;
use crate::square::Square;

verus! {

/// The move lands on a square of `mask`.
pub open spec fn lands_in(mv: Move, mask: u64) -> bool {
    has_bit(mask, mv.dest@)
}

/// The moves of `moves` that land on a square of `mask`, in order.
pub open spec fn landing(moves: Seq<Move>, mask: u64) -> Seq<Move>
    decreases moves.len(),
{
    if moves.len() == 0 {
        seq![]
    } else if lands_in(moves.last(), mask) {
        landing(moves.drop_last(), mask).push(moves.last())
    } else {
        landing(moves.drop_last(), mask)
    }
}

/// The moves of `moves` that land on no square of `mask`, in order.
pub open spec fn missing(moves: Seq<Move>, mask: u64) -> Seq<Move>
    decreases moves.len(),
{
    if moves.len() == 0 {
        seq![]
    } else if lands_in(moves.last(), mask) {
        missing(moves.drop_last(), mask)
    } else {
        missing(moves.drop_last(), mask).push(moves.last())
    }
}

/// The moves of `moves` that are not `mv`, in order.
pub open spec fn without(moves: Seq<Move>, mv: Move) -> Seq<Move>
    decreases moves.len(),
{
    if moves.len() == 0 {
        seq![]
    } else if moves.last() == mv {
        without(moves.drop_last(), mv)
    } else {
        without(moves.drop_last(), mv).push(moves.last())
    }
}

/// The least index from `i` on of a move of `moves` that lands on a square
/// of `mask`; the length of `moves` if there is none.
pub open spec fn first_landing_from(moves: Seq<Move>, mask: u64, i: int) -> int
    decreases moves.len() - i,
{
    if i >= moves.len() {
        moves.len() as int
    } else if lands_in(moves[i], mask) {
        i
    } else {
        first_landing_from(moves, mask, i + 1)
    }
}

/// The index of the first move of `moves` that lands on a square of
/// `mask`; the length of `moves` if there is none.
pub open spec fn first_landing(moves: Seq<Move>, mask: u64) -> int {
    first_landing_from(moves, mask, 0)
}

/// Every move of `part` is one of the moves of `whole`.
pub open spec fn all_from(part: Seq<Move>, whole: Seq<Move>) -> bool {
    forall|k: int| 0 <= k < part.len() ==> whole.contains(#[trigger] part[k])
}

/// The move that is handed out next from `pending` under `mask`: the first
/// that lands on a square of the mask, if there is one.
pub open spec fn spec_next(pending: Seq<Move>, mask: u64) -> Option<Move> {
    let i = first_landing(pending, mask);
    if i < pending.len() {
        Some(pending[i])
    } else {
        None
    }
}

/// The pending moves once the next move has been handed out.
pub open spec fn spec_after_next(pending: Seq<Move>, mask: u64) -> Seq<Move> {
    let i = first_landing(pending, mask);
    if i < pending.len() {
        pending.remove(i)
    } else {
        pending
    }
}

/// A cursor over the moves of one position.
pub struct MoveGenerator {
    moves: Vec<Move>,
    pending: Vec<Move>,
    mask: Bitboard,
}

impl MoveGenerator {
    /// Every move of the position, in the order in which they were
    /// generated.
    pub closed spec fn moves(&self) -> Seq<Move> {
        self.moves@
    }

    /// The moves that were neither handed out nor removed, in the order in
    /// which they were generated.
    pub closed spec fn pending(&self) -> Seq<Move> {
        self.pending@
    }

    /// The squares on which a move must land to be handed out.
    pub closed spec fn mask(&self) -> u64 {
        self.mask.0
    }

    /// The enumerator is consistent: every pending move is a move of the
    /// position, and every move of the position connects squares of the
    /// board. Every enumerator that this module makes is consistent, and
    /// stays so.
    pub open spec fn wf(&self) -> bool {
        &&& all_from(self.pending(), self.moves())
        &&& forall|k: int| 0 <= k < self.moves().len() ==> (#[trigger] self.moves()[k]).on_board()
    }

    /// A consistent enumerator as it is made has every move of the position
    /// to hand out, in order: the count is the number of the moves.
    pub proof fn lemma_fresh_count(self)
        requires
            self.wf(),
            self.is_fresh(),
        ensures
            landing(self.pending(), self.mask()) == self.moves(),
    {
        lemma_full_mask(self.moves());
    }

    /// The enumerator as it is made: every move pending, every square in
    /// the mask.
    pub open spec fn is_fresh(&self) -> bool {
        self.pending() == self.moves() && self.mask() == u64::MAX
    }

    /// A fresh enumerator over `moves`.
    pub fn new(moves: Vec<Move>) -> (r: MoveGenerator)
        ensures
            r.moves() == moves@,
            r.is_fresh(),
            r.wf(),
    {
        let pending = copy_moves(&moves);
        proof {
            lemma_all_from_itself(moves@);
        }
        MoveGenerator { moves, pending, mask: Bitboard::full() }
    }

    /// Starts over: every move of the position is pending again and every
    /// square is in the mask, as if the enumerator had just been made.
    pub fn reset(&mut self)
        ensures
            final(self).moves() == old(self).moves(),
            final(self).is_fresh(),
            final(self).wf(),
    {
        self.pending = copy_moves(&self.moves);
        self.mask = Bitboard::full();
        proof {
            lemma_all_from_itself(self.moves@);
        }
    }

    /// The mask of the enumerator.
    pub fn get_mask(&self) -> (r: Bitboard)
        ensures
            r.0 == self.mask(),
    {
        self.mask
    }

    /// Replaces the mask. What was handed out or removed stays so.
    pub fn set_mask(&mut self, mask: Bitboard)
        ensures
            final(self).moves() == old(self).moves(),
            final(self).pending() == old(self).pending(),
            final(self).mask() == mask.0,
            old(self).wf() ==> final(self).wf(),
    {
        self.mask = mask;
    }

    /// Removes for good every pending move that lands on a square of
    /// `mask`. The mask of the enumerator stays as it is.
    pub fn remove_mask(&mut self, mask: Bitboard)
        ensures
            final(self).moves() == old(self).moves(),
            final(self).pending() == missing(old(self).pending(), mask.0),
            final(self).mask() == old(self).mask(),
            old(self).wf() ==> final(self).wf(),
    {
        proof {
            lemma_missing_from(self.pending@, mask.0);
            lemma_all_from_chain(missing(self.pending@, mask.0), self.pending@, self.moves@);
        }
        let mut kept: Vec<Move> = Vec::new();
        let n = self.pending.len();
        let mut i: usize = 0;
        assert(self.pending@.take(0) =~= seq![]);
        while i < n
            invariant
                n == self.pending@.len(),
                i <= n,
                kept@ == missing(self.pending@.take(i as int), mask.0),
            decreases n - i,
        {
            let mv = self.pending[i];
            assert(self.pending@.take(i + 1).drop_last() =~= self.pending@.take(i as int));
            if !mask.contains(mv.dest) {
                kept.push(mv);
            }
            i = i + 1;
        }
        assert(self.pending@.take(n as int) =~= self.pending@);
        self.pending = kept;
    }

    /// Removes `mv` for good, if it is pending. Any other move is left
    /// alone, and so is the mask.
    pub fn remove_move(&mut self, mv: Move)
        ensures
            final(self).moves() == old(self).moves(),
            final(self).pending() == without(old(self).pending(), mv),
            final(self).mask() == old(self).mask(),
            old(self).wf() ==> final(self).wf(),
    {
        proof {
            lemma_without_from(self.pending@, mv);
            lemma_all_from_chain(without(self.pending@, mv), self.pending@, self.moves@);
        }
        let mut kept: Vec<Move> = Vec::new();
        let n = self.pending.len();
        let mut i: usize = 0;
        assert(self.pending@.take(0) =~= seq![]);
        while i < n
            invariant
                n == self.pending@.len(),
                i <= n,
                kept@ == without(self.pending@.take(i as int), mv),
            decreases n - i,
        {
            let other = self.pending[i];
            assert(self.pending@.take(i + 1).drop_last() =~= self.pending@.take(i as int));
            if !(other == mv) {
                kept.push(other);
            }
            i = i + 1;
        }
        assert(self.pending@.take(n as int) =~= self.pending@);
        self.pending = kept;
    }

    /// The number of moves that are still to be handed out under the mask
    /// as it stands. Nothing is handed out.
    pub fn len(&self) -> (r: usize)
        ensures
            r == landing(self.pending(), self.mask()).len(),
    {
        let n = self.pending.len();
        let mut count: usize = 0;
        let mut i: usize = 0;
        assert(self.pending@.take(0) =~= seq![]);
        while i < n
            invariant
                n == self.pending@.len(),
                i <= n,
                count <= i,
                count == landing(self.pending@.take(i as int), self.mask.0).len(),
            decreases n - i,
        {
            assert(self.pending@.take(i + 1).drop_last() =~= self.pending@.take(i as int));
            if self.mask.contains(self.pending[i].dest) {
                count = count + 1;
            }
            i = i + 1;
        }
        assert(self.pending@.take(n as int) =~= self.pending@);
        count
    }

    /// Hands out the first pending move that lands on a square of the
    /// mask, which is then no longer pending; `None`, and nothing changes,
    /// if no pending move lands there.
    pub fn next(&mut self) -> (r: Option<Move>)
        ensures
            final(self).moves() == old(self).moves(),
            final(self).mask() == old(self).mask(),
            r == spec_next(old(self).pending(), old(self).mask()),
            final(self).pending() == spec_after_next(old(self).pending(), old(self).mask()),
            old(self).wf() ==> final(self).wf(),
            old(self).wf() && r is Some ==> old(self).moves().contains(r->0),
    {
        proof {
            lemma_after_next_from(self.pending@, self.mask.0);
            lemma_all_from_chain(
                spec_after_next(self.pending@, self.mask.0),
                self.pending@,
                self.moves@,
            );
            lemma_first_landing_from(self.pending@, self.mask.0, 0);
        }
        let n = self.pending.len();
        let mut i: usize = 0;
        while i < n
            invariant
                n == self.pending@.len(),
                i <= n,
                self.moves@ == old(self).moves@,
                self.mask == old(self).mask,
                self.pending@ == old(self).pending@,
                first_landing(self.pending@, self.mask.0) == first_landing_from(
                    self.pending@,
                    self.mask.0,
                    i as int,
                ),
            decreases n - i,
        {
            if self.mask.contains(self.pending[i].dest) {
                let mv = self.pending.remove(i);
                return Some(mv);
            }
            i = i + 1;
        }
        None
    }

    /// Hands out, in order, every pending move that lands on a square of
    /// the mask. The other pending moves stay pending.
    pub fn take_all(&mut self) -> (r: Vec<Move>)
        ensures
            final(self).moves() == old(self).moves(),
            final(self).mask() == old(self).mask(),
            r@ == landing(old(self).pending(), old(self).mask()),
            final(self).pending() == missing(old(self).pending(), old(self).mask()),
            old(self).wf() ==> final(self).wf(),
            old(self).wf() ==> all_from(r@, old(self).moves()),
    {
        proof {
            lemma_missing_from(self.pending@, self.mask.0);
            lemma_landing_from(self.pending@, self.mask.0);
            lemma_all_from_chain(missing(self.pending@, self.mask.0), self.pending@, self.moves@);
            lemma_all_from_chain(landing(self.pending@, self.mask.0), self.pending@, self.moves@);
        }
        let mut taken: Vec<Move> = Vec::new();
        let mut kept: Vec<Move> = Vec::new();
        let n = self.pending.len();
        let mut i: usize = 0;
        assert(self.pending@.take(0) =~= seq![]);
        while i < n
            invariant
                n == self.pending@.len(),
                i <= n,
                taken@ == landing(self.pending@.take(i as int), self.mask.0),
                kept@ == missing(self.pending@.take(i as int), self.mask.0),
            decreases n - i,
        {
            let mv = self.pending[i];
            assert(self.pending@.take(i + 1).drop_last() =~= self.pending@.take(i as int));
            if self.mask.contains(mv.dest) {
                taken.push(mv);
            } else {
                kept.push(mv);
            }
            i = i + 1;
        }
        assert(self.pending@.take(n as int) =~= self.pending@);
        self.pending = kept;
        taken
    }
}

/// Every move of a list is one of its moves.
pub proof fn lemma_all_from_itself(moves: Seq<Move>)
    ensures
        all_from(moves, moves),
{
    assert forall|k: int| 0 <= k < moves.len() implies moves.contains(#[trigger] moves[k]) by {}
}

/// Moves that are all from a list whose moves are all from another are all
/// from that other list.
pub proof fn lemma_all_from_chain(a: Seq<Move>, b: Seq<Move>, c: Seq<Move>)
    requires
        all_from(a, b),
    ensures
        all_from(b, c) ==> all_from(a, c),
{
    if all_from(b, c) {
        assert forall|k: int| 0 <= k < a.len() implies c.contains(#[trigger] a[k]) by {
            let j = choose|j: int| 0 <= j < b.len() && b[j] == a[k];
            assert(c.contains(b[j]));
        }
    }
}

/// With one move less, the moves of a list are still all from the list
/// that follows.
proof fn lemma_grow(part: Seq<Move>, shorter: Seq<Move>, moves: Seq<Move>)
    requires
        moves.len() > 0,
        shorter == moves.drop_last(),
        all_from(part, shorter),
    ensures
        all_from(part, moves),
        all_from(part.push(moves.last()), moves),
{
    assert forall|k: int| 0 <= k < part.len() implies moves.contains(#[trigger] part[k]) by {
        let j = choose|j: int| 0 <= j < shorter.len() && shorter[j] == part[k];
        assert(moves[j] == part[k]);
    }
    let more = part.push(moves.last());
    assert forall|k: int| 0 <= k < more.len() implies moves.contains(#[trigger] more[k]) by {
        if k < part.len() {
            assert(more[k] == part[k]);
        } else {
            assert(moves[moves.len() - 1] == more[k]);
        }
    }
}

/// The moves that land in a mask are moves of the list they are from.
pub proof fn lemma_landing_from(moves: Seq<Move>, mask: u64)
    ensures
        all_from(landing(moves, mask), moves),
    decreases moves.len(),
{
    if moves.len() > 0 {
        lemma_landing_from(moves.drop_last(), mask);
        lemma_grow(landing(moves.drop_last(), mask), moves.drop_last(), moves);
    }
}

/// The moves that land outside a mask are moves of the list they are
/// from.
pub proof fn lemma_missing_from(moves: Seq<Move>, mask: u64)
    ensures
        all_from(missing(moves, mask), moves),
    decreases moves.len(),
{
    if moves.len() > 0 {
        lemma_missing_from(moves.drop_last(), mask);
        lemma_grow(missing(moves.drop_last(), mask), moves.drop_last(), moves);
    }
}

/// The moves that are left when a move is removed are moves of the list
/// they are from.
pub proof fn lemma_without_from(moves: Seq<Move>, mv: Move)
    ensures
        all_from(without(moves, mv), moves),
    decreases moves.len(),
{
    if moves.len() > 0 {
        lemma_without_from(moves.drop_last(), mv);
        lemma_grow(without(moves.drop_last(), mv), moves.drop_last(), moves);
    }
}

/// The moves that stay pending when one is handed out were pending.
pub proof fn lemma_after_next_from(pending: Seq<Move>, mask: u64)
    ensures
        all_from(spec_after_next(pending, mask), pending),
{
    let i = first_landing(pending, mask);
    lemma_first_landing_from(pending, mask, 0);
    let rest = spec_after_next(pending, mask);
    assert forall|k: int| 0 <= k < rest.len() implies pending.contains(#[trigger] rest[k]) by {
        if i < pending.len() {
            if k < i {
                assert(pending[k] == rest[k]);
            } else {
                assert(pending[k + 1] == rest[k]);
            }
        } else {
            assert(pending[k] == rest[k]);
        }
    }
}

/// `first_landing_from` gives the least index from `i` on whose move
/// lands on a square of `mask`.
pub proof fn lemma_first_landing_from(moves: Seq<Move>, mask: u64, i: int)
    requires
        0 <= i <= moves.len(),
    ensures
        i <= first_landing_from(moves, mask, i) <= moves.len(),
        first_landing_from(moves, mask, i) < moves.len() ==> lands_in(
            moves[first_landing_from(moves, mask, i)],
            mask,
        ),
        forall|j: int| i <= j < first_landing_from(moves, mask, i) ==> !lands_in(moves[j], mask),
    decreases moves.len() - i,
{
    if i < moves.len() && !lands_in(moves[i], mask) {
        lemma_first_landing_from(moves, mask, i + 1);
    }
}

/// An index whose move lands on a square of `mask`, while no earlier move
/// does, is the one that `first_landing` gives; and where no move lands
/// there, `first_landing` gives the length.
pub proof fn lemma_first_landing_is(moves: Seq<Move>, mask: u64, i: int)
    requires
        0 <= i <= moves.len(),
        i < moves.len() ==> lands_in(moves[i], mask),
        forall|j: int| 0 <= j < i ==> !lands_in(moves[j], mask),
    ensures
        first_landing(moves, mask) == i,
{
    lemma_first_landing_from(moves, mask, 0);
}

/// Where no move lands on a square of `mask`, none is to be handed out.
pub proof fn lemma_landing_none(moves: Seq<Move>, mask: u64)
    requires
        forall|j: int| 0 <= j < moves.len() ==> !lands_in(moves[j], mask),
    ensures
        landing(moves, mask) == Seq::<Move>::empty(),
    decreases moves.len(),
{
    if moves.len() > 0 {
        let shorter = moves.drop_last();
        assert forall|j: int| 0 <= j < shorter.len() implies !lands_in(shorter[j], mask) by {
            assert(shorter[j] == moves[j]);
        }
        lemma_landing_none(shorter, mask);
    }
}

/// The move that is handed out next is the first of those that are still
/// to be handed out, and the others follow it in the same order.
pub proof fn lemma_next_is_head(moves: Seq<Move>, mask: u64)
    requires
        first_landing(moves, mask) < moves.len(),
    ensures
        landing(moves, mask).len() > 0,
        landing(moves, mask)[0] == moves[first_landing(moves, mask)],
        landing(moves.remove(first_landing(moves, mask)), mask) == landing(moves, mask).skip(1),
    decreases moves.len(),
{
    let i = first_landing(moves, mask);
    lemma_first_landing_from(moves, mask, 0);
    let shorter = moves.drop_last();
    let last = moves.last();
    if i == moves.len() - 1 {
        assert forall|j: int| 0 <= j < shorter.len() implies !lands_in(shorter[j], mask) by {
            assert(shorter[j] == moves[j]);
        }
        lemma_landing_none(shorter, mask);
        assert(moves.remove(i) =~= shorter);
        assert(landing(moves, mask) =~= seq![last]);
        assert(landing(moves, mask).skip(1) =~= Seq::<Move>::empty());
    } else {
        assert(shorter[i] == moves[i]);
        assert forall|j: int| 0 <= j < i implies !lands_in(shorter[j], mask) by {
            assert(shorter[j] == moves[j]);
        }
        lemma_first_landing_is(shorter, mask, i);
        lemma_next_is_head(shorter, mask);
        let removed = moves.remove(i);
        assert(removed.drop_last() =~= shorter.remove(i));
        assert(removed.last() == last);
        if lands_in(last, mask) {
            assert(landing(shorter, mask).push(last).skip(1) =~= landing(shorter, mask).skip(
                1,
            ).push(last));
        }
    }
}

/// Nothing is handed out exactly where nothing is left to hand out.
pub proof fn lemma_exhausted(moves: Seq<Move>, mask: u64)
    ensures
        first_landing(moves, mask) == moves.len() <==> landing(moves, mask).len() == 0,
{
    lemma_first_landing_from(moves, mask, 0);
    if first_landing(moves, mask) == moves.len() {
        lemma_landing_none(moves, mask);
    } else {
        lemma_next_is_head(moves, mask);
    }
}

/// Under the mask of all squares every move is handed out: all of them
/// land in it, and none outside.
pub proof fn lemma_full_mask(moves: Seq<Move>)
    requires
        forall|k: int| 0 <= k < moves.len() ==> (#[trigger] moves[k]).dest.on_board(),
    ensures
        landing(moves, u64::MAX) == moves,
        missing(moves, u64::MAX) == Seq::<Move>::empty(),
    decreases moves.len(),
{
    if moves.len() > 0 {
        let shorter = moves.drop_last();
        assert forall|k: int| 0 <= k < shorter.len() implies (#[trigger] shorter[k]).dest.on_board() by {
            assert(shorter[k] == moves[k]);
        }
        lemma_full_mask(shorter);
        let dest = moves.last().dest;
        assert(moves[moves.len() - 1].dest.on_board());
        dest.lemma_on_board();
        let i = dest@ as u64;
        assert(i < 64 ==> (0xffff_ffff_ffff_ffffu64 >> i) & 1 == 1) by (bit_vector);
        assert(lands_in(moves.last(), u64::MAX));
        assert(shorter.push(moves.last()) =~= moves);
    } else {
        assert(moves =~= Seq::<Move>::empty());
    }
}

/// With the mask set to a single square on which exactly one pending move
/// lands, one move is left to hand out; it is that move; and once it has
/// been handed out, nothing is left.
pub proof fn lemma_single_landing(pending: Seq<Move>, square: Square, i: int)
    requires
        square.on_board(),
        forall|k: int| 0 <= k < pending.len() ==> (#[trigger] pending[k]).dest.on_board(),
        0 <= i < pending.len(),
        pending[i].dest == square,
        forall|k: int| 0 <= k < pending.len() && k != i ==> (#[trigger] pending[k]).dest != square,
    ensures
        landing(pending, bit(square@)).len() == 1,
        first_landing(pending, bit(square@)) == i,
        landing(pending.remove(i), bit(square@)).len() == 0,
        first_landing(pending.remove(i), bit(square@)) == pending.remove(i).len(),
{
    let mask = bit(square@);
    square.lemma_on_board();
    assert forall|k: int| 0 <= k < pending.len() implies (lands_in(#[trigger] pending[k], mask)
        <==> k == i) by {
        let dest = pending[k].dest;
        dest.lemma_on_board();
        lemma_bit_has(square@, dest@);
        if dest@ == square@ {
            dest.lemma_same_index(square);
        }
    }
    lemma_first_landing_is(pending, mask, i);
    lemma_next_is_head(pending, mask);
    let rest = pending.remove(i);
    assert forall|j: int| 0 <= j < rest.len() implies !lands_in(rest[j], mask) by {
        if j < i {
            assert(rest[j] == pending[j]);
        } else {
            assert(rest[j] == pending[j + 1]);
        }
    }
    lemma_landing_none(rest, mask);
    lemma_exhausted(rest, mask);
}

/// A vector with the same moves as `moves`, which all connect squares of
/// the board.
fn copy_moves(moves: &Vec<Move>) -> (r: Vec<Move>)
    ensures
        r@ == moves@,
        forall|k: int| 0 <= k < moves@.len() ==> (#[trigger] moves@[k]).on_board(),
{
    let mut out: Vec<Move> = Vec::new();
    let n = moves.len();
    let mut i: usize = 0;
    while i < n
        invariant
            n == moves@.len(),
            i <= n,
            out@ == moves@.take(i as int),
            forall|k: int| 0 <= k < i ==> (#[trigger] moves@[k]).on_board(),
        decreases n - i,
    {
        let mv = moves[i];
        let _ = mv.source.get_index();
        let _ = mv.dest.get_index();
        out.push(mv);
        assert(moves@.take(i + 1) =~= moves@.take(i as int).push(moves@[i as int]));
        i = i + 1;
    }
    assert(moves@.take(n as int) =~= moves@);
    out
}

} // verus!
