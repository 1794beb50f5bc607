//! The registry of fault games that the agent tracks.

use crate::alphabet::{alphabet_trace, alphabet_trace_spec, AlphabetGame};
use crate::types::{has_no_parent, is_root_marker, Address, ClaimData, GameError};
use vstd::prelude::*;

verus! {

/// The games that the agent tracks.
pub struct GlobalState {
    /// The alphabet games in progress, in the order they were created.
    pub alphabet_games: Vec<AlphabetGame>,
}

impl Default for GlobalState {
    fn default() -> (r: Self)
        ensures
            r.alphabet_games@.len() == 0,
    {
        GlobalState { alphabet_games: Vec::new() }
    }
}

impl GlobalState {
    /// Every tracked game keeps its claim array's links.
    pub open spec fn wf(&self) -> bool {
        forall|i: int| 0 <= i < self.alphabet_games@.len() ==> #[trigger] self.alphabet_games@[i].wf()
    }

    /// Starts tracking a new fault game whose root claim is `root`, over the
    /// alphabet trace. A root that carries a parent is refused.
    pub fn track_fault_game(&mut self, address: Address, created_at: u128, root: ClaimData) -> (r:
        Result<(), GameError>)
        ensures
            r is Ok <==> is_root_marker(root.parent_index),
            r matches Err(e) ==> e == GameError::InvalidClaimIndex && final(self).alphabet_games@
                == old(self).alphabet_games@,
            r is Ok ==> {
                let games = final(self).alphabet_games@;
                let new_game = games.last();
                &&& games.len() == old(self).alphabet_games@.len() + 1
                &&& games.drop_last() == old(self).alphabet_games@
                &&& new_game.address == address
                &&& new_game.created_at == created_at
                &&& new_game.state@ == seq![root]
                &&& new_game.trace@ == alphabet_trace_spec()
            },
            old(self).wf() ==> final(self).wf(),
    {
        if !has_no_parent(root.parent_index) {
            return Err(GameError::InvalidClaimIndex);
        }
        let mut game = AlphabetGame::new(address, created_at, alphabet_trace());
        let pushed = game.push_claim(root);
        assert(pushed is Ok);
        assert(game.state@ =~= seq![root]);
        self.alphabet_games.push(game);
        assert(self.alphabet_games@.drop_last() =~= old(self).alphabet_games@);
        Ok(())
    }
}

} // verus!
