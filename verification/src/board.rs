//! Board state: the four home (foundation) piles and the seven play
//! (tableau) piles, holding cards by position with the top last.

use vstd::prelude::*;

use crate::card::Card;

verus! {

pub struct BoardState {
    /// The 4 foundation piles, conventionally one per suit.
    pub home_piles: Vec<Vec<Card>>,
    /// The 7 tableau columns.
    pub play_piles: Vec<Vec<Card>>,
}

impl BoardState {
    /// An empty board: 4 empty home piles, 7 empty play piles.
    pub fn new() -> (b: BoardState)
        ensures
            b.home_piles@.len() == 4,
            b.play_piles@.len() == 7,
            forall|i: int| 0 <= i < 4 ==> (#[trigger] b.home_piles@[i])@.len() == 0,
            forall|i: int| 0 <= i < 7 ==> (#[trigger] b.play_piles@[i])@.len() == 0,
    {
        let mut home_piles: Vec<Vec<Card>> = Vec::new();
        let mut i: usize = 0;
        while i < 4
            invariant
                i <= 4,
                home_piles@.len() == i as int,
                forall|k: int| 0 <= k < i as int ==> (#[trigger] home_piles@[k])@.len() == 0,
            decreases 4 - i as int,
        {
            home_piles.push(Vec::new());
            i = i + 1;
        }
        let mut play_piles: Vec<Vec<Card>> = Vec::new();
        let mut j: usize = 0;
        while j < 7
            invariant
                j <= 7,
                play_piles@.len() == j as int,
                forall|k: int| 0 <= k < j as int ==> (#[trigger] play_piles@[k])@.len() == 0,
            decreases 7 - j as int,
        {
            play_piles.push(Vec::new());
            j = j + 1;
        }
        BoardState { home_piles, play_piles }
    }
}

impl Default for BoardState {
    /// Same as `BoardState::new`: an empty board.
    fn default() -> (b: BoardState)
        ensures
            b.home_piles@.len() == 4,
            b.play_piles@.len() == 7,
            forall|i: int| 0 <= i < 4 ==> (#[trigger] b.home_piles@[i])@.len() == 0,
            forall|i: int| 0 <= i < 7 ==> (#[trigger] b.play_piles@[i])@.len() == 0,
    {
        BoardState::new()
    }
}

} // verus!
