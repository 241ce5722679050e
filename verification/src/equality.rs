//! When two games count as equal: when their positions have the same hash.
//! The counters and the histories are not compared.

use vstd::prelude::*;
use crate::game::GameState;
use crate::position::zobrist_of;

verus! {

impl PartialEq for GameState {
    fn eq(&self, other: &GameState) -> (r: bool) {
        self.get_zobrist_hash() == other.get_zobrist_hash()
    }
}

impl vstd::std_specs::cmp::PartialEqSpecImpl for GameState {
    open spec fn obeys_eq_spec() -> bool {
        true
    }

    open spec fn eq_spec(&self, other: &GameState) -> bool {
        zobrist_of(self.position()) == zobrist_of(other.position())
    }
}

} // verus!
