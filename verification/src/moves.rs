use vstd::prelude::*;

use crate::battle::{count_over, player_wf, Battle, BattleView};
use crate::combat::{lemma_round_outcome, penalties, penalty_draws, resolve_battle, round_outcome, RoundOutcome};
use crate::ids::{zero_message, ActorId, MessageId, ReservationId};
use crate::random::{power_of, spec_power, MAX_POWER};
use crate::types::{
    BattleError, BattleEvent, BattleState, CheckFunding, Command, Context, Move, Pair, PairId, PairView,
    Player, PlayerView, CHECK_DELAY, GAS_AMOUNT, MAX_STEPS_IN_ROUND, MOVE_WINDOW_MS,
};

verus! {

/// The tamagotchi whose move a fight waits for.
pub open spec fn turn_tmg(p: PairView) -> ActorId {
    p.tmg_ids[p.moves.len() as int]
}

/// The owner whose move a fight waits for.
pub open spec fn turn_owner(p: PairView) -> ActorId {
    p.owner_ids[p.moves.len() as int]
}

pub open spec fn with_pair(b: BattleView, i: int, p: PairView) -> BattleView {
    BattleView { pairs: b.pairs.update(i, p), ..b }
}

/// A missed move: the tamagotchi's reservation, if it has one, is spent on
/// a new check and its deadline moves on; without one its health drops to 0.
pub open spec fn after_skip(b: BattleView, i: int, timestamp: u64) -> BattleView {
    let p = b.pairs[i];
    let tmg = turn_tmg(p);
    if b.reservations.contains_key(tmg) {
        BattleView {
            reservations: b.reservations.remove(tmg),
            pairs: b.pairs.update(i, PairView { move_deadline: (timestamp + MOVE_WINDOW_MS) as u64, ..p }),
            ..b
        }
    } else if b.players.contains_key(tmg) {
        BattleView { players: b.players.insert(tmg, b.players[tmg].with_health(0)), ..b }
    } else {
        b
    }
}

/// The reservation that a missed move spends, if any.
pub open spec fn skip_reservation(b: BattleView, i: int) -> Option<ReservationId> {
    let tmg = turn_tmg(b.pairs[i]);
    if b.reservations.contains_key(tmg) {
        Some(b.reservations[tmg])
    } else {
        None
    }
}

/// The move (or the miss) is written down.
pub open spec fn after_record(b: BattleView, i: int, mv: Option<Move>) -> BattleView {
    let p = b.pairs[i];
    with_pair(b, i, PairView { moves: p.moves.push(mv), ..p })
}

/// A tamagotchi's power drawn anew from `draw`, its defence following.
pub open spec fn repowered(q: PlayerView, draw: Seq<u8>) -> PlayerView {
    let power = spec_power(draw) as u16;
    PlayerView { power, defence: (MAX_POWER - power) as u16, ..q }
}

/// A fight's winner: power drawn anew and one more victory (saturating).
pub open spec fn crowned(q: PlayerView, draw: Seq<u8>) -> PlayerView {
    let r = repowered(q, draw);
    PlayerView { victories: if q.victories == u32::MAX { u32::MAX } else { (q.victories + 1) as u32 }, ..r }
}

/// The winner of a round (0 or 1) and both healths, once the last round of a
/// fight is decided in favour of the healthier side (the first on a tie).
pub open spec fn decided(o: RoundOutcome, rounds: int) -> (Option<u8>, int, int) {
    if rounds == MAX_STEPS_IN_ROUND {
        if o.health0 >= o.health1 {
            (Some(0u8), o.health0, 0)
        } else {
            (Some(1u8), 0, o.health1)
        }
    } else {
        (o.winner, o.health0, o.health1)
    }
}

/// Both moves of a round are in: the round is fought. A winner's fight is
/// over and the winner goes on to wait for the next round; the battle's state
/// moves on once all `pairs_len` fights are over. The admin is told the result.
pub open spec fn round_end(b: BattleView, i: int, draws: Seq<[u8; 32]>, powers: (Seq<u8>, Seq<u8>)) -> (BattleView, Command) {
    let p = b.pairs[i];
    let t0 = p.tmg_ids[0];
    let t1 = p.tmg_ids[1];
    let m0 = p.moves[0];
    let m1 = p.moves[1];
    let rounds = p.rounds + 1;
    let o = round_outcome(b.players[t0], b.players[t1], m0, m1, penalties(draws));
    let (winner, h0, h1) = decided(o, rounds);
    let q0 = b.players[t0].with_health(h0 as u16);
    let q1 = b.players[t1].with_health(h1 as u16);
    let r0 = if winner == Some(0u8) { crowned(q0, powers.0) } else if winner is None { repowered(q0, powers.0) } else { q0 };
    let r1 = if winner == Some(1u8) { crowned(q1, powers.1) } else if winner is None { repowered(q1, powers.1) } else { q1 };
    let base = PairView { moves: Seq::empty(), rounds: rounds as u8, ..p };
    let pair = if winner is Some {
        let w = if winner == Some(0u8) { t0 } else { t1 };
        PairView { winner: w, game_is_over: true, msg_id: zero_message(), ..base }
    } else {
        base
    };
    let ids = if winner is Some { b.players_ids.push(if winner == Some(0u8) { t0 } else { t1 }) } else { b.players_ids };
    let completed = if winner is Some { (b.completed_games + 1) as u8 } else { b.completed_games };
    let all_over = completed == b.pairs.len();
    let state = if all_over {
        if ids.len() == 1 { BattleState::GameIsOver } else { BattleState::WaitNextRound }
    } else {
        b.state
    };
    let current_winner = if all_over && ids.len() == 1 { ids[0] } else { b.current_winner };
    let nb = BattleView {
        players: b.players.insert(t0, r0).insert(t1, r1),
        players_ids: ids,
        pairs: b.pairs.update(i, pair),
        completed_games: completed,
        state,
        current_winner,
        ..b
    };
    (nb, Command::Send { to: b.admin, event: BattleEvent::RoundResult((i as PairId, o.loss0 as u16, o.loss1 as u16, m0, m1)) })
}

/// After a move (not a miss) in a fight that goes on while the battle is on,
/// the next move is due a move window from now and a check is scheduled.
pub open spec fn schedules_next(b: BattleView, i: int, mv: Option<Move>) -> bool {
    b.state != BattleState::GameIsOver && b.state != BattleState::WaitNextRound && !b.pairs[i].game_is_over && mv is Some
}

pub open spec fn gas_check(i: int) -> Command {
    Command::ScheduleCheck { pair_id: i as PairId, tmg_id: None, funding: CheckFunding::Gas(GAS_AMOUNT), delay: CHECK_DELAY, track: true }
}

/// A move `mv` (or a miss, `None`) in fight `i`, as a whole: the new state and
/// the messages to send, in order.
pub open spec fn take_turn(b: BattleView, timestamp: u64, i: int, mv: Option<Move>, draws: Seq<[u8; 32]>, powers: (Seq<u8>, Seq<u8>)) -> (BattleView, Seq<Command>) {
    let b1 = if mv is None { after_skip(b, i, timestamp) } else { b };
    let spent = if mv is None { skip_reservation(b, i) } else { None };
    let b2 = after_record(b1, i, mv);
    let round = b2.pairs[i].moves.len() == 2;
    let (b3, result) = if round { round_end(b2, i, draws, powers) } else { (b2, Command::Reply(BattleEvent::MoveMade)) };
    let next = schedules_next(b3, i, mv);
    let b4 = if next {
        with_pair(b3, i, PairView { move_deadline: (timestamp + MOVE_WINDOW_MS) as u64, ..b3.pairs[i] })
    } else {
        b3
    };
    let c1: Seq<Command> = match spent {
        Some(r) => seq![Command::ScheduleCheck {
            pair_id: i as PairId,
            tmg_id: Some(turn_tmg(b.pairs[i])),
            funding: CheckFunding::Reservation(r),
            delay: CHECK_DELAY,
            track: !b4.pairs[i].game_is_over,
        }],
        None => Seq::empty(),
    };
    let c2: Seq<Command> = if round { seq![result] } else { Seq::empty() };
    let c3: Seq<Command> = if next { seq![gas_check(i)] } else { Seq::empty() };
    (b4, c1 + c2 + c3 + seq![Command::Reply(BattleEvent::MoveMade)])
}

/// How many skip penalties the move `mv` in fight `i` draws.
pub open spec fn turn_draws(b: BattleView, i: int, mv: Option<Move>) -> nat {
    if 0 <= i < b.pairs.len() && b.pairs[i].moves.len() == 1 {
        penalty_draws(b.pairs[i].moves[0], mv)
    } else {
        0
    }
}

/// Replacing one fight changes the number of finished fights by what the
/// replacement changes in that fight.
pub proof fn lemma_count_over_update(s: Seq<PairView>, i: int, p: PairView)
    requires
        0 <= i < s.len(),
    ensures
        count_over(s.update(i, p)) + (if s[i].game_is_over { 1int } else { 0int })
            == count_over(s) + (if p.game_is_over { 1int } else { 0int }),
    decreases s.len(),
{
    let t = s.update(i, p);
    if i == s.len() - 1 {
        assert(t.drop_last() =~= s.drop_last());
    } else {
        assert(t.drop_last() =~= s.drop_last().update(i, p));
        lemma_count_over_update(s.drop_last(), i, p);
    }
}

/// No more fights are finished than there are.
pub proof fn lemma_count_over_le(s: Seq<PairView>)
    ensures
        count_over(s) <= s.len(),
    decreases s.len(),
{
    if s.len() > 0 {
        lemma_count_over_le(s.drop_last());
    }
}

/// Moves alternate: after a move or a miss in a fight that goes on, the
/// fight waits for the other side, the first side again once a round is
/// complete; a fight that ends has no pending move.
pub proof fn lemma_turns_alternate(b: BattleView, timestamp: u64, i: int, mv: Option<Move>, draws: Seq<[u8; 32]>, powers: (Seq<u8>, Seq<u8>))
    requires
        b.wf(),
        0 <= i < b.pairs.len(),
        !b.pairs[i].game_is_over,
    ensures
        ({
            let nb = take_turn(b, timestamp, i, mv, draws, powers).0;
            &&& nb.pairs.len() == b.pairs.len()
            &&& nb.pairs[i].moves.len() == (b.pairs[i].moves.len() + 1) % 2
            &&& nb.pairs[i].tmg_ids == b.pairs[i].tmg_ids
            &&& nb.pairs[i].owner_ids == b.pairs[i].owner_ids
            &&& (nb.pairs[i].moves.len() == 1 ==> nb.pairs[i].moves[0] == mv)
        }),
{
    assert(b.pairs[i].wf());
}

/// The fifth round of a fight decides it: the side with more health after
/// the round's damage wins (the first side on a tie), the loser ends at zero
/// health, the winner keeps its health and gains a victory, the fight is
/// over and the winner waits for the next round.
pub proof fn lemma_fifth_round_to_healthier(b: BattleView, i: int, draws: Seq<[u8; 32]>, powers: (Seq<u8>, Seq<u8>))
    requires
        0 <= i < b.pairs.len(),
        b.pairs[i].tmg_ids.len() == 2,
        b.pairs[i].moves.len() == 2,
        b.pairs[i].rounds + 1 == 5,
        b.pairs[i].tmg_ids[0] != b.pairs[i].tmg_ids[1],
        b.players.contains_key(b.pairs[i].tmg_ids[0]),
        b.players.contains_key(b.pairs[i].tmg_ids[1]),
        draws.len() >= penalty_draws(b.pairs[i].moves[0], b.pairs[i].moves[1]),
    ensures
        ({
            let p = b.pairs[i];
            let t0 = p.tmg_ids[0];
            let t1 = p.tmg_ids[1];
            let o = round_outcome(b.players[t0], b.players[t1], p.moves[0], p.moves[1], penalties(draws));
            let nb = round_end(b, i, draws, powers).0;
            &&& nb.pairs[i].game_is_over
            &&& if o.health0 >= o.health1 {
                &&& nb.pairs[i].winner == t0
                &&& nb.players[t0].health == o.health0
                &&& nb.players[t1].health == 0
                &&& nb.players[t0].victories == if b.players[t0].victories == u32::MAX { u32::MAX } else { (b.players[t0].victories + 1) as u32 }
                &&& nb.players[t1].victories == b.players[t1].victories
                &&& nb.players_ids == b.players_ids.push(t0)
            } else {
                &&& nb.pairs[i].winner == t1
                &&& nb.players[t1].health == o.health1
                &&& nb.players[t0].health == 0
                &&& nb.players[t1].victories == if b.players[t1].victories == u32::MAX { u32::MAX } else { (b.players[t1].victories + 1) as u32 }
                &&& nb.players[t0].victories == b.players[t0].victories
                &&& nb.players_ids == b.players_ids.push(t1)
            }
        }),
{
    let p = b.pairs[i];
    let t0 = p.tmg_ids[0];
    let t1 = p.tmg_ids[1];
    let pens = penalties(draws);
    assert forall|x: int| 0 <= x < pens.len() implies 0 <= #[trigger] pens[x] by {}
    lemma_round_outcome(b.players[t0], b.players[t1], p.moves[0], p.moves[1], pens);
}

/// A missed move is charged to the tamagotchi whose move was awaited, the
/// one at position `moves.len()` of the fight: its reservation, if it holds
/// one, is spent on a new check that names it (and only its reservation is
/// removed); otherwise, in the first half of a round, only its health drops
/// to zero. The other side's reservation is untouched.
pub proof fn lemma_miss_charges_awaited(b: BattleView, timestamp: u64, i: int, draws: Seq<[u8; 32]>, powers: (Seq<u8>, Seq<u8>))
    requires
        b.wf(),
        0 <= i < b.pairs.len(),
        !b.pairs[i].game_is_over,
    ensures
        ({
            let p = b.pairs[i];
            let t = p.tmg_ids[p.moves.len() as int];
            let other = p.tmg_ids[1 - p.moves.len()];
            let (nb, cmds) = take_turn(b, timestamp, i, None, draws, powers);
            let held = b.reservations.contains_key(t);
            &&& nb.reservations == (if held { b.reservations.remove(t) } else { b.reservations })
            &&& (held ==> cmds[0] == Command::ScheduleCheck {
                pair_id: i as PairId,
                tmg_id: Some(t),
                funding: CheckFunding::Reservation(b.reservations[t]),
                delay: CHECK_DELAY,
                track: !nb.pairs[i].game_is_over,
            })
            &&& (!held && p.moves.len() == 0 ==> nb.players == b.players.insert(t, b.players[t].with_health(0)))
            &&& (other != t ==> nb.reservations.contains_key(other) == b.reservations.contains_key(other)
                && (b.reservations.contains_key(other) ==> nb.reservations[other] == b.reservations[other]))
            &&& (other != t && p.moves.len() == 0 ==> nb.players[other] == b.players[other])
        }),
{
    assert(b.pairs[i].wf());
}

/// A state that is well formed except that fight `i` has both moves of its
/// round in.
pub open spec fn round_pending(b: BattleView, i: int) -> bool {
    let p = b.pairs[i];
    &&& 0 <= i < b.pairs.len() <= 255
    &&& forall|j: int| 0 <= j < b.players_ids.len() ==> b.players.contains_key(#[trigger] b.players_ids[j])
    &&& forall|j: int| 0 <= j < b.pairs.len() && j != i ==> {
        &&& (#[trigger] b.pairs[j]).wf()
        &&& b.players.contains_key(b.pairs[j].tmg_ids[0])
        &&& b.players.contains_key(b.pairs[j].tmg_ids[1])
    }
    &&& p.owner_ids.len() == 2
    &&& p.tmg_ids.len() == 2
    &&& p.moves.len() == 2
    &&& p.rounds < MAX_STEPS_IN_ROUND
    &&& !p.game_is_over
    &&& b.players.contains_key(p.tmg_ids[0])
    &&& b.players.contains_key(p.tmg_ids[1])
    &&& b.completed_games == count_over(b.pairs)
    &&& forall|k: ActorId| #[trigger] b.players.contains_key(k) ==> player_wf(k, b.players[k])
}

/// Fighting out a pending round gives a well-formed state.
pub proof fn lemma_round_end_wf(b: BattleView, i: int, draws: Seq<[u8; 32]>, powers: (Seq<u8>, Seq<u8>))
    requires
        round_pending(b, i),
        draws.len() >= penalty_draws(b.pairs[i].moves[0], b.pairs[i].moves[1]),
    ensures
        round_end(b, i, draws, powers).0.wf(),
{
    let p = b.pairs[i];
    let t0 = p.tmg_ids[0];
    let t1 = p.tmg_ids[1];
    let pens = penalties(draws);
    assert forall|x: int| 0 <= x < pens.len() implies 0 <= #[trigger] pens[x] by {}
    lemma_round_outcome(b.players[t0], b.players[t1], p.moves[0], p.moves[1], pens);
    crate::random::lemma_power_below_max(powers.0, 0);
    crate::random::lemma_power_below_max(powers.1, 0);
    let nb = round_end(b, i, draws, powers).0;
    let np = nb.pairs[i];
    lemma_count_over_update(b.pairs, i, np);
    lemma_count_over_le(nb.pairs);
    assert(nb.pairs.len() == b.pairs.len());
    assert(np.wf());
    assert forall|j: int| 0 <= j < nb.pairs.len() implies {
        &&& (#[trigger] nb.pairs[j]).wf()
        &&& nb.players.contains_key(nb.pairs[j].tmg_ids[0])
        &&& nb.players.contains_key(nb.pairs[j].tmg_ids[1])
    } by {
        if j != i {
            assert(nb.pairs[j] == b.pairs[j]);
        }
    }
    assert forall|j: int| 0 <= j < nb.players_ids.len() implies nb.players.contains_key(#[trigger] nb.players_ids[j]) by {
        if j < b.players_ids.len() {
            assert(nb.players_ids[j] == b.players_ids[j]);
        }
    }
    assert forall|k: ActorId| #[trigger] nb.players.contains_key(k) implies player_wf(k, nb.players[k]) by {
        assert(b.players.contains_key(k));
    }
}

impl Battle {
    /// Replaces fight `idx` by `pair`.
    fn put_pair(&mut self, idx: usize, pair: Pair)
        requires
            idx < old(self)@.pairs.len(),
        ensures
            final(self)@ == with_pair(old(self)@, idx as int, pair@),
    {
        let ghost pre = self@;
        assert(self.pairs@.len() == pre.pairs.len());
        self.pairs.set(idx, pair);
        assert(self@.pairs =~= pre.pairs.update(idx as int, pair@));
    }

    /// A copy of fight `idx`.
    fn pair_copy(&self, idx: usize) -> (p: Pair)
        requires
            idx < self@.pairs.len(),
        ensures
            p@ == self@.pairs[idx as int],
    {
        assert(self.pairs@.len() == self@.pairs.len());
        self.pairs[idx].duplicate()
    }

    /// Deals with a missed move in fight `idx`.
    fn skip_turn(&mut self, ctx: &Context, idx: usize) -> (r: Option<ReservationId>)
        requires
            idx < old(self)@.pairs.len(),
            old(self)@.pairs[idx as int].wf(),
            ctx.wf(),
        ensures
            final(self)@ == after_skip(old(self)@, idx as int, ctx.block_timestamp),
            r == skip_reservation(old(self)@, idx as int),
            ({
                let p = old(self)@.pairs[idx as int];
                let t = p.tmg_ids[p.moves.len() as int];
                let held = old(self)@.reservations.contains_key(t);
                &&& r == (if held { Some(old(self)@.reservations[t]) } else { None })
                &&& final(self)@.reservations == (if held { old(self)@.reservations.remove(t) } else { old(self)@.reservations })
                &&& final(self)@.players == (if held {
                    old(self)@.players
                } else if old(self)@.players.contains_key(t) {
                    old(self)@.players.insert(t, old(self)@.players[t].with_health(0))
                } else {
                    old(self)@.players
                })
            }),
    {
        let ghost pre = self@;
        let mut pair = self.pair_copy(idx);
        let tmg = pair.tmg_ids[pair.moves.len()];
        match self.reservations.remove(&tmg) {
            Some(rid) => {
                pair.move_deadline = ctx.block_timestamp + MOVE_WINDOW_MS;
                self.put_pair(idx, pair);
                Some(rid)
            },
            None => {
                assert(self@.reservations =~= pre.reservations);
                match self.players.remove(&tmg) {
                    Some(mut player) => {
                        player.health = 0;
                        self.players.insert(tmg, player);
                        assert(self@.players =~= pre.players.insert(tmg, pre.players[tmg].with_health(0)));
                    },
                    None => {
                        assert(self@.players =~= pre.players);
                    },
                }
                None
            },
        }
    }

    /// Writes down the move (or miss) `mv` in fight `idx`.
    fn record_move(&mut self, idx: usize, mv: Option<Move>)
        requires
            idx < old(self)@.pairs.len(),
        ensures
            final(self)@ == after_record(old(self)@, idx as int, mv),
    {
        let mut pair = self.pair_copy(idx);
        pair.moves.push(mv);
        self.put_pair(idx, pair);
    }

    /// Fights out the round of fight `idx`, both of whose moves are in.
    #[verifier::rlimit(60)]
    fn finish_round(&mut self, idx: usize, draws: &Vec<[u8; 32]>, powers: &([u8; 32], [u8; 32])) -> (cmd: Command)
        requires
            idx < old(self)@.pairs.len() <= 255,
            old(self)@.pairs[idx as int].moves.len() == 2,
            old(self)@.pairs[idx as int].tmg_ids.len() == 2,
            old(self)@.pairs[idx as int].rounds < MAX_STEPS_IN_ROUND,
            old(self)@.players.contains_key(old(self)@.pairs[idx as int].tmg_ids[0]),
            old(self)@.players.contains_key(old(self)@.pairs[idx as int].tmg_ids[1]),
            old(self)@.completed_games < 255,
            draws@.len() >= penalty_draws(old(self)@.pairs[idx as int].moves[0], old(self)@.pairs[idx as int].moves[1]),
        ensures
            (final(self)@, cmd) == round_end(old(self)@, idx as int, draws@, (powers.0@, powers.1@)),
            old(self)@.pairs[idx as int].rounds + 1 == 5 && old(self)@.pairs[idx as int].tmg_ids[0] != old(self)@.pairs[idx as int].tmg_ids[1] ==> ({
                let p = old(self)@.pairs[idx as int];
                let t0 = p.tmg_ids[0];
                let t1 = p.tmg_ids[1];
                let o = round_outcome(old(self)@.players[t0], old(self)@.players[t1], p.moves[0], p.moves[1], penalties(draws@));
                &&& final(self)@.pairs[idx as int].game_is_over
                &&& if o.health0 >= o.health1 {
                    &&& final(self)@.pairs[idx as int].winner == t0
                    &&& final(self)@.players[t0].health == o.health0
                    &&& final(self)@.players[t1].health == 0
                } else {
                    &&& final(self)@.pairs[idx as int].winner == t1
                    &&& final(self)@.players[t1].health == o.health1
                    &&& final(self)@.players[t0].health == 0
                }
            }),
    {
        let ghost pre = self@;
        proof {
            if pre.pairs[idx as int].rounds + 1 == 5 && pre.pairs[idx as int].tmg_ids[0] != pre.pairs[idx as int].tmg_ids[1] {
                lemma_fifth_round_to_healthier(pre, idx as int, draws@, (powers.0@, powers.1@));
            }
        }
        let mut pair = self.pair_copy(idx);
        let t0 = pair.tmg_ids[0];
        let t1 = pair.tmg_ids[1];
        let m0 = pair.moves[0];
        let m1 = pair.moves[1];
        let mut moves: Vec<Option<Move>> = Vec::new();
        moves.push(m0);
        moves.push(m1);
        pair.rounds = pair.rounds + 1;
        pair.moves = Vec::new();
        let mut players: Vec<Player> = Vec::new();
        players.push(self.players.get(&t0).unwrap().duplicate());
        players.push(self.players.get(&t1).unwrap().duplicate());
        let ghost o = round_outcome(pre.players[t0], pre.players[t1], m0, m1, penalties(draws@));
        proof {
            lemma_round_outcome(pre.players[t0], pre.players[t1], m0, m1, penalties(draws@));
        }
        let (mut winner, loss0, loss1) = resolve_battle(&mut players, &moves, draws);
        if pair.rounds == MAX_STEPS_IN_ROUND {
            if players[0].health >= players[1].health {
                players[1].health = 0;
                winner = Some(0);
            } else {
                players[0].health = 0;
                winner = Some(1);
            }
        }
        let ghost dec = decided(o, pair.rounds as int);
        assert(winner == dec.0);
        assert(players@[0]@ == pre.players[t0].with_health(dec.1 as u16));
        assert(players@[1]@ == pre.players[t1].with_health(dec.2 as u16));
        match winner {
            Some(w) => {
                let id: usize = if w == 0 { 0 } else { 1 };
                let victories = players[id].victories;
                players[id].victories = victories.saturating_add(1);
                let power = if id == 0 { power_of(&powers.0) } else { power_of(&powers.1) };
                players[id].power = power;
                players[id].defence = MAX_POWER - power;
                let tmg = pair.tmg_ids[id];
                self.players_ids.push(tmg);
                pair.winner = tmg;
                pair.game_is_over = true;
                pair.msg_id = MessageId::zero();
                self.completed_games = self.completed_games + 1;
            },
            None => {
                let power0 = power_of(&powers.0);
                players[0].power = power0;
                players[0].defence = MAX_POWER - power0;
                let power1 = power_of(&powers.1);
                players[1].power = power1;
                players[1].defence = MAX_POWER - power1;
            },
        }
        let ghost ps = players@;
        let p1 = players.pop().unwrap();
        let p0 = players.pop().unwrap();
        assert(p0 == ps[0]);
        assert(p1 == ps[1]);
        self.players.insert(t0, p0);
        self.players.insert(t1, p1);
        if self.completed_games as usize == self.pairs.len() {
            if self.players_ids.len() == 1 {
                self.state = BattleState::GameIsOver;
                self.current_winner = self.players_ids[0];
            } else {
                self.state = BattleState::WaitNextRound;
            }
        }
        self.put_pair(idx, pair);
        proof {
            let (nb, c) = round_end(pre, idx as int, draws@, (powers.0@, powers.1@));
            assert(pair@.moves =~= Seq::<Option<Move>>::empty());
            assert(self@.players == nb.players);
            assert(self@.pairs =~= nb.pairs);
            assert(self@ == nb);
        }
        Command::Send { to: self.admin, event: BattleEvent::RoundResult((idx as PairId, loss0, loss1, m0, m1)) }
    }

    /// After a move, schedules the check of the next one if the fight goes on.
    fn schedule_next(&mut self, ctx: &Context, idx: usize, mv: Option<Move>) -> (next: bool)
        requires
            idx < old(self)@.pairs.len(),
            ctx.wf(),
        ensures
            next == schedules_next(old(self)@, idx as int, mv),
            final(self)@ == if next {
                with_pair(old(self)@, idx as int, PairView { move_deadline: (ctx.block_timestamp + MOVE_WINDOW_MS) as u64, ..old(self)@.pairs[idx as int] })
            } else {
                old(self)@
            },
    {
        let over = self.pair_copy(idx).game_is_over;
        if self.state != BattleState::GameIsOver && self.state != BattleState::WaitNextRound && !over && mv.is_some() {
            let mut pair = self.pair_copy(idx);
            pair.move_deadline = ctx.block_timestamp + MOVE_WINDOW_MS;
            self.put_pair(idx, pair);
            true
        } else {
            false
        }
    }
}

impl Battle {
    /// Plays the move `mv` (or the miss, `None`) in fight `pair_id`.
    #[verifier::rlimit(60)]
    fn make_move_internal(
        &mut self,
        ctx: &Context,
        pair_id: PairId,
        mv: Option<Move>,
        draws: &Vec<[u8; 32]>,
        powers: &([u8; 32], [u8; 32]),
    ) -> (cmds: Vec<Command>)
        requires
            old(self)@.wf(),
            ctx.wf(),
            (pair_id as int) < old(self)@.pairs.len(),
            !old(self)@.pairs[pair_id as int].game_is_over,
            draws@.len() >= turn_draws(old(self)@, pair_id as int, mv),
        ensures
            (final(self)@, cmds@) == take_turn(old(self)@, ctx.block_timestamp, pair_id as int, mv, draws@, (powers.0@, powers.1@)),
            final(self)@.wf(),
    {
        let ghost b0 = self@;
        let ghost i = pair_id as int;
        let idx = pair_id as usize;
        let first = self.pair_copy(idx);
        let tmg = first.tmg_ids[first.moves.len()];
        let spent = if mv.is_none() {
            self.skip_turn(ctx, idx)
        } else {
            None
        };
        let ghost b1 = self@;
        proof {
            assert(b1 == if mv is None { after_skip(b0, i, ctx.block_timestamp) } else { b0 });
            assert(b1.pairs.len() == b0.pairs.len());
            assert(b1.pairs[i].moves == b0.pairs[i].moves);
            assert(forall|j: int| 0 <= j < b1.pairs.len() && j != i ==> b1.pairs[j] == b0.pairs[j]);
        }
        self.record_move(idx, mv);
        let ghost b2 = self@;
        let round = self.pair_copy(idx).moves.len() == 2;
        let result = if round {
            proof {
                assert(b2.pairs[i].moves.len() == 2);
                assert(b2.pairs[i].moves[0] == b0.pairs[i].moves[0]);
                assert(b2.pairs[i].moves[1] == mv);
                assert forall|k: ActorId| #[trigger] b2.players.contains_key(k) implies player_wf(k, b2.players[k]) by {
                    assert(b0.players.contains_key(k));
                }
                assert forall|j: int| 0 <= j < b2.pairs.len() && j != i implies {
                    &&& (#[trigger] b2.pairs[j]).wf()
                    &&& b2.players.contains_key(b2.pairs[j].tmg_ids[0])
                    &&& b2.players.contains_key(b2.pairs[j].tmg_ids[1])
                } by {
                    assert(b2.pairs[j] == b0.pairs[j]);
                }
                assert(b2.pairs =~= b0.pairs.update(i, b2.pairs[i]));
                lemma_count_over_update(b0.pairs, i, b2.pairs[i]);
                assert(b2.completed_games == count_over(b2.pairs));
                assert(round_pending(b2, i));
                lemma_round_end_wf(b2, i, draws@, (powers.0@, powers.1@));
                lemma_count_over_le(b0.pairs);
                lemma_count_over_update(b0.pairs, i, PairView { game_is_over: true, ..b0.pairs[i] });
                lemma_count_over_le(b0.pairs.update(i, PairView { game_is_over: true, ..b0.pairs[i] }));
                assert(b2.completed_games < 255);
            }
            Some(self.finish_round(idx, draws, powers))
        } else {
            None
        };
        let ghost b3 = self@;
        proof {
            if !round {
                assert forall|k: ActorId| #[trigger] b3.players.contains_key(k) implies player_wf(k, b3.players[k]) by {
                    assert(b0.players.contains_key(k));
                }
                assert forall|j: int| 0 <= j < b3.pairs.len() implies {
                    &&& (#[trigger] b3.pairs[j]).wf()
                    &&& b3.players.contains_key(b3.pairs[j].tmg_ids[0])
                    &&& b3.players.contains_key(b3.pairs[j].tmg_ids[1])
                } by {
                    if j != i {
                        assert(b3.pairs[j] == b0.pairs[j]);
                    }
                }
                assert(b3.pairs =~= b0.pairs.update(i, b3.pairs[i]));
                lemma_count_over_update(b0.pairs, i, b3.pairs[i]);
                assert(b3.wf());
            }
        }
        let next = self.schedule_next(ctx, idx, mv);
        let over = self.pair_copy(idx).game_is_over;
        let mut cmds: Vec<Command> = Vec::new();
        match spent {
            Some(rid) => {
                cmds.push(Command::ScheduleCheck {
                    pair_id,
                    tmg_id: Some(tmg),
                    funding: CheckFunding::Reservation(rid),
                    delay: CHECK_DELAY,
                    track: !over,
                });
            },
            None => {},
        }
        match result {
            Some(c) => {
                cmds.push(c);
            },
            None => {},
        }
        if next {
            cmds.push(Command::ScheduleCheck {
                pair_id,
                tmg_id: None,
                funding: CheckFunding::Gas(GAS_AMOUNT),
                delay: CHECK_DELAY,
                track: true,
            });
        }
        cmds.push(Command::Reply(BattleEvent::MoveMade));
        proof {
            let (tb, tc) = take_turn(b0, ctx.block_timestamp, i, mv, draws@, (powers.0@, powers.1@));
            assert(self@ == tb);
            assert(cmds@ =~= tc);
            let b4 = self@;
            if next {
                assert(b4.pairs =~= b3.pairs.update(i, b4.pairs[i]));
                lemma_count_over_update(b3.pairs, i, b4.pairs[i]);
                assert forall|j: int| 0 <= j < b4.pairs.len() implies {
                    &&& (#[trigger] b4.pairs[j]).wf()
                    &&& b4.players.contains_key(b4.pairs[j].tmg_ids[0])
                    &&& b4.players.contains_key(b4.pairs[j].tmg_ids[1])
                } by {
                    if j != i {
                        assert(b4.pairs[j] == b3.pairs[j]);
                    }
                }
            }
        }
        cmds
    }
}

/// Why a move in fight `pair_id` by `ctx.source` is refused, if it is.
pub open spec fn move_error(b: BattleView, ctx: Context, pair_id: PairId) -> Option<BattleError> {
    let i = pair_id as int;
    if b.state != BattleState::GameIsOn {
        Some(BattleError::GameNotOn)
    } else if !b.players_to_pairs.contains_key(ctx.source) {
        Some(BattleError::NoGames)
    } else if !b.players_to_pairs[ctx.source].contains(pair_id) {
        Some(BattleError::NotYourGame)
    } else if i >= b.pairs.len() {
        Some(BattleError::PairDoesNotExist)
    } else if b.pairs[i].game_is_over {
        Some(BattleError::PairGameOver)
    } else if turn_owner(b.pairs[i]) != ctx.source {
        Some(BattleError::NotYourTurn)
    } else {
        None
    }
}

/// The gas that a move check returns to `tmg_id`'s reservation: what is left
/// above `GAS_AMOUNT`, when the check came from a reservation.
pub open spec fn returned_gas(ctx: Context, tmg_id: Option<ActorId>) -> Option<u64> {
    if tmg_id is Some && ctx.gas_available >= GAS_AMOUNT {
        Some((ctx.gas_available - GAS_AMOUNT) as u64)
    } else {
        None
    }
}

/// The state once the reservation `returned` is recorded for `tmg_id`.
pub open spec fn with_returned(b: BattleView, ctx: Context, tmg_id: Option<ActorId>, returned: Option<ReservationId>) -> BattleView {
    match (tmg_id, returned) {
        (Some(t), Some(r)) => if ctx.gas_available >= GAS_AMOUNT {
            BattleView { reservations: b.reservations.insert(t, r), ..b }
        } else {
            b
        },
        _ => b,
    }
}

/// A move check that is stale (sent by the contract but not the fight's
/// latest) or early (before the deadline) does nothing more.
pub open spec fn check_waits(b: BattleView, ctx: Context, i: int) -> bool {
    (ctx.source == ctx.program_id && b.pairs[i].msg_id != ctx.message_id) || b.pairs[i].move_deadline > ctx.block_timestamp
}

/// Why a move check of fight `pair_id` is refused, if it is.
pub open spec fn check_error(b: BattleView, ctx: Context, pair_id: PairId) -> Option<BattleError> {
    let i = pair_id as int;
    if ctx.source != ctx.program_id && ctx.source != b.admin {
        Some(BattleError::NotProgramOrAdmin)
    } else if i >= b.pairs.len() {
        Some(BattleError::PairDoesNotExist)
    } else if !check_waits(b, ctx, i) && b.pairs[i].game_is_over {
        Some(BattleError::PairGameOver)
    } else {
        None
    }
}

/// An accepted move check: the returned gas is recorded; unless the check
/// waits, the awaited move counts as missed.
pub open spec fn check_outcome(
    b: BattleView,
    ctx: Context,
    pair_id: PairId,
    tmg_id: Option<ActorId>,
    returned: Option<ReservationId>,
    draws: Seq<[u8; 32]>,
    powers: (Seq<u8>, Seq<u8>),
) -> (BattleView, Seq<Command>) {
    let b1 = with_returned(b, ctx, tmg_id, returned);
    if check_waits(b, ctx, pair_id as int) {
        (b1, Seq::empty())
    } else {
        take_turn(b1, ctx.block_timestamp, pair_id as int, None, draws, powers)
    }
}

fn contains_pair_id(v: &Vec<PairId>, id: PairId) -> (r: bool)
    ensures
        r == v@.contains(id),
{
    let mut i: usize = 0;
    while i < v.len()
        invariant
            i <= v@.len(),
            forall|j: int| 0 <= j < i ==> v@[j] != id,
        decreases v@.len() - i,
    {
        if v[i] == id {
            assert(v@[i as int] == id);
            return true;
        }
        i = i + 1;
    }
    false
}

impl Battle {
    /// How many values of the random source for skip penalties the move (or
    /// miss) `mv` in fight `pair_id` takes.
    pub fn move_draws(&self, pair_id: PairId, mv: Option<Move>) -> (n: usize)
        ensures
            n == turn_draws(self@, pair_id as int, mv),
    {
        let idx = pair_id as usize;
        if idx >= self.pairs.len() {
            return 0;
        }
        let pair = self.pair_copy(idx);
        if pair.moves.len() != 1 {
            return 0;
        }
        let first = pair.moves[0];
        let mut n: usize = 0;
        if first.is_none() {
            n = n + 1;
        }
        if mv.is_none() {
            n = n + 1;
        }
        n
    }

    /// The owner `ctx.source` makes `tmg_move` in fight `pair_id`, while the
    /// game is on and it is that owner's turn in that fight. `draws` are the
    /// values of the random source for skip penalties (`move_draws` says how
    /// many) and `powers` those drawn for the fight's two tamagotchis' ids.
    pub fn make_move_with(
        &mut self,
        ctx: &Context,
        pair_id: PairId,
        tmg_move: Move,
        draws: &Vec<[u8; 32]>,
        powers: &([u8; 32], [u8; 32]),
    ) -> (r: Result<Vec<Command>, BattleError>)
        requires
            old(self)@.wf(),
            ctx.wf(),
            draws@.len() >= turn_draws(old(self)@, pair_id as int, Some(tmg_move)),
        ensures
            final(self)@.wf(),
            (match r {
                Ok(cmds) => move_error(old(self)@, *ctx, pair_id) is None
                    && (final(self)@, cmds@) == take_turn(old(self)@, ctx.block_timestamp, pair_id as int, Some(tmg_move), draws@, (powers.0@, powers.1@)),
                Err(e) => move_error(old(self)@, *ctx, pair_id) == Some(e) && final(self)@ == old(self)@,
            }),
    {
        if self.state != BattleState::GameIsOn {
            return Err(BattleError::GameNotOn);
        }
        match self.players_to_pairs.get(&ctx.source) {
            None => {
                return Err(BattleError::NoGames);
            },
            Some(ids) => {
                if !contains_pair_id(ids, pair_id) {
                    return Err(BattleError::NotYourGame);
                }
            },
        }
        let idx = pair_id as usize;
        if idx >= self.pairs.len() {
            return Err(BattleError::PairDoesNotExist);
        }
        let pair = self.pair_copy(idx);
        if pair.game_is_over {
            return Err(BattleError::PairGameOver);
        }
        proof {
            assert(self@.pairs[idx as int].wf());
        }
        if pair.owner_ids[pair.moves.len()] != ctx.source {
            return Err(BattleError::NotYourTurn);
        }
        Ok(self.make_move_internal(ctx, pair_id, Some(tmg_move), draws, powers))
    }

    /// What a move check of fight `pair_id` needs before it is handled: the
    /// gas to reserve again for `tmg_id` (when the check came from its
    /// reservation), and how many values of the random source for skip
    /// penalties it takes.
    pub fn check_plan(&self, ctx: &Context, pair_id: PairId, tmg_id: Option<ActorId>) -> (r: Result<(Option<u64>, usize), BattleError>)
        requires
            self@.wf(),
        ensures
            (match r {
                Ok((gas, n)) => check_error(self@, *ctx, pair_id) is None
                    && gas == returned_gas(*ctx, tmg_id)
                    && n == if check_waits(self@, *ctx, pair_id as int) { 0 } else { turn_draws(self@, pair_id as int, None) },
                Err(e) => check_error(self@, *ctx, pair_id) == Some(e),
            }),
    {
        if ctx.source != ctx.program_id && ctx.source != self.admin {
            return Err(BattleError::NotProgramOrAdmin);
        }
        let idx = pair_id as usize;
        if idx >= self.pairs.len() {
            return Err(BattleError::PairDoesNotExist);
        }
        let pair = self.pair_copy(idx);
        let waits = (ctx.source == ctx.program_id && pair.msg_id != ctx.message_id) || pair.move_deadline > ctx.block_timestamp;
        if !waits && pair.game_is_over {
            return Err(BattleError::PairGameOver);
        }
        let gas = match tmg_id {
            Some(_) => if ctx.gas_available >= GAS_AMOUNT {
                Some(ctx.gas_available - GAS_AMOUNT)
            } else {
                None
            },
            None => None,
        };
        let n = if waits { 0 } else { self.move_draws(pair_id, None) };
        Ok((gas, n))
    }

    /// The contract itself (or the admin) checks whether the awaited move in
    /// fight `pair_id` was made in time; if not, it counts as missed.
    /// `returned` is the reservation made with the gas that `check_plan` says
    /// to return to `tmg_id`; `draws` and `powers` are as for `make_move`.
    pub fn check_if_move_made_with(
        &mut self,
        ctx: &Context,
        pair_id: PairId,
        tmg_id: Option<ActorId>,
        returned: Option<ReservationId>,
        draws: &Vec<[u8; 32]>,
        powers: &([u8; 32], [u8; 32]),
    ) -> (r: Result<Vec<Command>, BattleError>)
        requires
            old(self)@.wf(),
            ctx.wf(),
            !check_waits(old(self)@, *ctx, pair_id as int) ==> draws@.len() >= turn_draws(old(self)@, pair_id as int, None),
        ensures
            final(self)@.wf(),
            (match r {
                Ok(cmds) => check_error(old(self)@, *ctx, pair_id) is None
                    && (final(self)@, cmds@) == check_outcome(old(self)@, *ctx, pair_id, tmg_id, returned, draws@, (powers.0@, powers.1@)),
                Err(e) => check_error(old(self)@, *ctx, pair_id) == Some(e) && final(self)@ == old(self)@,
            }),
    {
        if ctx.source != ctx.program_id && ctx.source != self.admin {
            return Err(BattleError::NotProgramOrAdmin);
        }
        let idx = pair_id as usize;
        if idx >= self.pairs.len() {
            return Err(BattleError::PairDoesNotExist);
        }
        let pair = self.pair_copy(idx);
        let waits = (ctx.source == ctx.program_id && pair.msg_id != ctx.message_id) || pair.move_deadline > ctx.block_timestamp;
        if !waits && pair.game_is_over {
            return Err(BattleError::PairGameOver);
        }
        let ghost pre = self@;
        match (tmg_id, returned) {
            (Some(t), Some(rid)) => {
                if ctx.gas_available >= GAS_AMOUNT {
                    self.reservations.insert(t, rid);
                }
            },
            _ => {},
        }
        assert(self@ == with_returned(pre, *ctx, tmg_id, returned));
        if waits {
            return Ok(Vec::new());
        }
        Ok(self.make_move_internal(ctx, pair_id, None, draws, powers))
    }
}

} // verus!
