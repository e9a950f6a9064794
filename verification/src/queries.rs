use vstd::prelude::*;

use crate::battle::{Battle, BattleView};
use crate::ids::{zero_actor, ActorId, MessageId};
use crate::moves::turn_owner;
use crate::types::{BattleState, Pair, PairId, PairView, Player, PlayerView};

verus! {

/// The read-only queries on the contract's state.
pub struct Metawasm;

impl Metawasm {
    /// The player of `tmg_id`, or the empty player.
    pub fn player(tmg_id: ActorId, state: Battle) -> (p: Player)
        ensures
            p@ == if state@.players.contains_key(tmg_id) { state@.players[tmg_id] } else { PlayerView::empty() },
    {
        let mut state = state;
        match state.players.remove(&tmg_id) {
            Some(p) => p,
            None => Player::empty(),
        }
    }

    /// The power and health of `tmg_id`, or zeros.
    pub fn power_and_health(tmg_id: ActorId, state: Battle) -> (r: (u16, u16))
        ensures
            r == if state@.players.contains_key(tmg_id) {
                (state@.players[tmg_id].power, state@.players[tmg_id].health)
            } else {
                (0u16, 0u16)
            },
    {
        let player = Self::player(tmg_id, state);
        (player.power, player.health)
    }

    /// The battle's state.
    pub fn battle_state(state: Battle) -> (s: BattleState)
        ensures
            s == state@.state,
    {
        state.state
    }

    /// The fights of `player`'s tamagotchis, or none.
    pub fn pairs_for_player(player: ActorId, state: Battle) -> (ids: Vec<PairId>)
        ensures
            ids@ == if state@.players_to_pairs.contains_key(player) { state@.players_to_pairs[player] } else { Seq::empty() },
    {
        let mut state = state;
        match state.players_to_pairs.remove(&player) {
            Some(ids) => ids,
            None => Vec::new(),
        }
    }

    /// The ids of the current fights, in increasing order.
    pub fn pair_ids(state: Battle) -> (ids: Vec<PairId>)
        requires
            state@.wf(),
        ensures
            ids@ == Seq::new(state@.pairs.len(), |k: int| k as PairId),
    {
        let n = state.pairs.len();
        assert(n == state@.pairs.len());
        let mut ids: Vec<PairId> = Vec::new();
        let mut k: usize = 0;
        while k < n
            invariant
                k <= n <= 255,
                ids@ == Seq::new(k as nat, |j: int| j as PairId),
            decreases n - k,
        {
            ids.push(k as PairId);
            k = k + 1;
            assert(ids@ =~= Seq::new(k as nat, |j: int| j as PairId));
        }
        ids
    }

    /// The owner whose move fight `pair_id` waits for, or the zero id.
    pub fn current_turn(pair_id: PairId, state: Battle) -> (owner: ActorId)
        requires
            state@.wf(),
        ensures
            owner == if (pair_id as int) < state@.pairs.len() {
                turn_owner(state@.pairs[pair_id as int])
            } else {
                zero_actor()
            },
    {
        let idx = pair_id as usize;
        assert(state.pairs@.len() == state@.pairs.len());
        if idx < state.pairs.len() {
            assert(state@.pairs[idx as int].wf());
            let pair = &state.pairs[idx];
            return pair.owner_ids[pair.moves.len()];
        }
        ActorId::zero()
    }

    /// Whether fight `pair_id` is over; a fight that does not exist is.
    pub fn game_is_over(pair_id: PairId, state: Battle) -> (over: bool)
        ensures
            over == if (pair_id as int) < state@.pairs.len() { state@.pairs[pair_id as int].game_is_over } else { true },
    {
        let idx = pair_id as usize;
        assert(state.pairs@.len() == state@.pairs.len());
        if idx < state.pairs.len() {
            return state.pairs[idx].game_is_over;
        }
        true
    }

    /// The tamagotchis waiting for the next round.
    pub fn tmg_ids(state: Battle) -> (ids: Vec<ActorId>)
        ensures
            ids@ == state@.players_ids,
    {
        state.players_ids
    }

    /// Fight `pair_id`, or the empty fight.
    pub fn pair(pair_id: PairId, state: Battle) -> (p: Pair)
        ensures
            p@ == if (pair_id as int) < state@.pairs.len() { state@.pairs[pair_id as int] } else { PairView::empty() },
    {
        let idx = pair_id as usize;
        assert(state.pairs@.len() == state@.pairs.len());
        let mut state = state;
        if idx < state.pairs.len() {
            return state.pairs.remove(idx);
        }
        Pair::empty()
    }
}

impl Battle {
    /// Makes `msg_id`, the id of a move check sent for fight `pair_id`, the
    /// fight's latest.
    pub fn record_check_message(&mut self, pair_id: PairId, msg_id: MessageId)
        requires
            old(self)@.wf(),
        ensures
            final(self)@.wf(),
            final(self)@ == if (pair_id as int) < old(self)@.pairs.len() {
                BattleView {
                    pairs: old(self)@.pairs.update(pair_id as int, PairView { msg_id, ..old(self)@.pairs[pair_id as int] }),
                    ..old(self)@
                }
            } else {
                old(self)@
            },
    {
        let idx = pair_id as usize;
        let ghost pre = self@;
        assert(self.pairs@.len() == self@.pairs.len());
        if idx < self.pairs.len() {
            let mut pair = self.pairs[idx].duplicate();
            pair.msg_id = msg_id;
            self.pairs.set(idx, pair);
            proof {
                let np = PairView { msg_id, ..pre.pairs[pair_id as int] };
                assert(self@.pairs =~= pre.pairs.update(pair_id as int, np));
                crate::moves::lemma_count_over_update(pre.pairs, pair_id as int, np);
                assert forall|j: int| 0 <= j < self@.pairs.len() implies {
                    &&& (#[trigger] self@.pairs[j]).wf()
                    &&& self@.players.contains_key(self@.pairs[j].tmg_ids[0])
                    &&& self@.players.contains_key(self@.pairs[j].tmg_ids[1])
                } by {
                    if j != pair_id as int {
                        assert(self@.pairs[j] == pre.pairs[j]);
                    }
                }
            }
        }
    }
}

} // verus!
