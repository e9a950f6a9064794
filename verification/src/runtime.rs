use vstd::prelude::*;

use crate::battle::{Battle, BattleView};
use crate::ids::{actor_subject, ActorId, ReservationId};
use crate::moves::{check_error, check_outcome, check_waits, move_error, take_turn, turn_draws};
use crate::pairing::{draws_needed, first_check, pairing, pairing_draws};
use crate::random::{runtime_random, RandomSeed};
use crate::types::{BattleError, BattleEvent, CheckFunding, Command, Context, Move, PairId, CHECK_DELAY, MAX_PARTICIPANTS};

verus! {

/// Draws `n` values from the runtime's random source, one per seed.
pub fn draw_values(seed: &mut RandomSeed, n: usize) -> (draws: Vec<[u8; 32]>)
    ensures
        draws@.len() == n,
        final(seed).value == (old(seed).value + n) % 256,
{
    let ghost start = seed.value;
    let mut draws: Vec<[u8; 32]> = Vec::new();
    let mut k: usize = 0;
    while k < n
        invariant
            k <= n,
            draws@.len() == k,
            seed.value == (start + k) % 256,
        decreases n - k,
    {
        let subject = seed.next_subject();
        draws.push(runtime_random(subject));
        k = k + 1;
    }
    draws
}

impl Battle {
    /// The runtime's random values for the ids of fight `pair_id`'s two
    /// tamagotchis (zeros when there is no such fight).
    fn fight_powers(&self, pair_id: PairId) -> (r: ([u8; 32], [u8; 32]))
        ensures
            !((pair_id as int) < self@.pairs.len() && self@.pairs[pair_id as int].tmg_ids.len() == 2) ==> {
                &&& r.0@ == Seq::new(32, |i: int| 0u8)
                &&& r.1@ == Seq::new(32, |i: int| 0u8)
            },
    {
        let idx = pair_id as usize;
        assert(self.pairs@.len() == self@.pairs.len());
        if idx < self.pairs.len() && self.pairs[idx].tmg_ids.len() == 2 {
            let t0 = self.pairs[idx].tmg_ids[0];
            let t1 = self.pairs[idx].tmg_ids[1];
            (runtime_random(actor_subject(&t0)), runtime_random(actor_subject(&t1)))
        } else {
            let zeros = [0u8; 32];
            assert(zeros@ =~= Seq::new(32, |i: int| 0u8));
            (zeros, zeros)
        }
    }

    /// Completes the registration of `tmg_id` as `register_with` does, drawing
    /// a new tamagotchi's power (for its id) and colour (for the next seed)
    /// from the runtime's random source.
    pub fn register(
        &mut self,
        ctx: &Context,
        tmg_id: &ActorId,
        info: (ActorId, String, u64),
        reservation: ReservationId,
        seed: &mut RandomSeed,
    ) -> (r: Result<Vec<Command>, BattleError>)
        requires
            old(self)@.wf(),
        ensures
            final(self)@.wf(),
            final(seed).value == if old(self)@.players.contains_key(*tmg_id) {
                old(seed).value as int
            } else {
                (old(seed).value + 1) % 256
            },
            (match r {
                Ok(cmds) => info.0 == ctx.source
                    && (old(self)@.players_ids.len() + 1) % 256 != MAX_PARTICIPANTS as int
                    && cmds@ == seq![Command::Reply(BattleEvent::Registered { tmg_id: *tmg_id })]
                    && exists|p: Seq<u8>, c: Seq<u8>| #![trigger old(self)@.registered(*tmg_id, info.0, info.1@, info.2, reservation, p, c)]
                        final(self)@ == old(self)@.registered(*tmg_id, info.0, info.1@, info.2, reservation, p, c),
                Err(e) => final(self)@ == old(self)@ && if info.0 != ctx.source {
                    e == BattleError::NotYourTamagotchi
                } else {
                    (old(self)@.players_ids.len() + 1) % 256 == MAX_PARTICIPANTS as int
                        && e == BattleError::MaxParticipantsReached
                },
            }),
    {
        let ghost pre = self@;
        let ghost name = info.1@;
        let fresh = if self.is_new_tamagotchi(tmg_id) {
            let power = runtime_random(actor_subject(tmg_id));
            let color = runtime_random(seed.next_subject());
            Some((power, color))
        } else {
            None
        };
        let r = self.register_with(ctx, tmg_id, info, reservation, fresh);
        proof {
            if r is Ok {
                let p = crate::battle::fresh_power_draw(fresh);
                let c = crate::battle::fresh_color_draw(fresh);
                assert(self@ == pre.registered(*tmg_id, info.0, name, info.2, reservation, p, c));
            }
        }
        r
    }

    /// Starts a round of fights as `start_battle_with` does, pairing the
    /// waiting tamagotchis by draws from the runtime's random source.
    pub fn start_battle(&mut self, ctx: &Context, seed: &mut RandomSeed) -> (r: Result<Vec<Command>, BattleError>)
        requires
            old(self)@.wf(),
            ctx.wf(),
            old(self)@.players_ids.len() <= 511,
        ensures
            final(self)@.wf(),
            final(seed).value == (old(seed).value + draws_needed(old(self)@.players_ids.len())) % 256,
            (match r {
                Ok(cmds) => old(self)@.completed_games == old(self)@.pairs.len()
                    && old(self)@.admin == ctx.source
                    && old(self)@.players_ids.len() != 1
                    && exists|draws: Seq<[u8; 32]>| #![trigger old(self)@.battle_started(ctx.block_timestamp, draws)]
                        draws.len() == draws_needed(old(self)@.players_ids.len())
                        && final(self)@ == old(self)@.battle_started(ctx.block_timestamp, draws)
                        && cmds@ == Seq::new(pairing(old(self)@.players_ids, draws).0.len(), |k: int| first_check(k))
                            .push(Command::Reply(BattleEvent::BattleStarted)),
                Err(e) => final(self)@ == old(self)@ && e == (if old(self)@.completed_games != old(self)@.pairs.len() {
                    BattleError::BattleNotOver
                } else if old(self)@.admin != ctx.source {
                    BattleError::NotAdmin
                } else {
                    BattleError::LonePlayer
                }) && (old(self)@.completed_games != old(self)@.pairs.len() || old(self)@.admin != ctx.source
                    || old(self)@.players_ids.len() == 1),
            }),
            r matches Ok(cmds) ==> cmds@.len() == final(self)@.pairs.len() + 1
                && (forall|k: int| 0 <= k < final(self)@.pairs.len() ==> #[trigger] cmds@[k] == (Command::ScheduleCheck {
                    pair_id: k as PairId,
                    tmg_id: None,
                    funding: CheckFunding::Plain,
                    delay: CHECK_DELAY,
                    track: true,
                }))
                && cmds@[final(self)@.pairs.len() as int] == Command::Reply(BattleEvent::BattleStarted),
    {
        let ghost pre = self@;
        let n = pairing_draws(self.players_ids.len());
        let draws = draw_values(seed, n);
        let r = self.start_battle_with(ctx, &draws);
        proof {
            if r is Ok {
                assert(self@ == pre.battle_started(ctx.block_timestamp, draws@));
            }
        }
        r
    }

    /// The owner `ctx.source` makes `tmg_move` in fight `pair_id`, as
    /// `make_move_with` says, with skip penalties drawn from the runtime's
    /// random source and new powers drawn for the fight's tamagotchis' ids.
    pub fn make_move(&mut self, ctx: &Context, pair_id: PairId, tmg_move: Move, seed: &mut RandomSeed) -> (r: Result<Vec<Command>, BattleError>)
        requires
            old(self)@.wf(),
            ctx.wf(),
        ensures
            final(self)@.wf(),
            final(seed).value == (old(seed).value + turn_draws(old(self)@, pair_id as int, Some(tmg_move))) % 256,
            (match r {
                Ok(cmds) => move_error(old(self)@, *ctx, pair_id) is None
                    && exists|draws: Seq<[u8; 32]>, p0: Seq<u8>, p1: Seq<u8>|
                        #![trigger take_turn(old(self)@, ctx.block_timestamp, pair_id as int, Some(tmg_move), draws, (p0, p1))]
                        draws.len() == turn_draws(old(self)@, pair_id as int, Some(tmg_move))
                        && (final(self)@, cmds@) == take_turn(old(self)@, ctx.block_timestamp, pair_id as int, Some(tmg_move), draws, (p0, p1)),
                Err(e) => move_error(old(self)@, *ctx, pair_id) == Some(e) && final(self)@ == old(self)@,
            }),
    {
        let ghost pre = self@;
        let n = self.move_draws(pair_id, Some(tmg_move));
        let draws = draw_values(seed, n);
        let powers = self.fight_powers(pair_id);
        let r = self.make_move_with(ctx, pair_id, tmg_move, &draws, &powers);
        proof {
            if r is Ok {
                assert((self@, r->Ok_0@) == take_turn(pre, ctx.block_timestamp, pair_id as int, Some(tmg_move), draws@, (powers.0@, powers.1@)));
            }
        }
        r
    }

    /// The contract itself (or the admin) checks whether the awaited move in
    /// fight `pair_id` was made in time, as `check_if_move_made_with` says,
    /// with skip penalties and new powers drawn from the runtime's random
    /// source. `returned` is the reservation made with the gas that
    /// `check_plan` says to return to `tmg_id`.
    pub fn check_if_move_made(
        &mut self,
        ctx: &Context,
        pair_id: PairId,
        tmg_id: Option<ActorId>,
        returned: Option<ReservationId>,
        seed: &mut RandomSeed,
    ) -> (r: Result<Vec<Command>, BattleError>)
        requires
            old(self)@.wf(),
            ctx.wf(),
        ensures
            final(self)@.wf(),
            final(seed).value == if check_error(old(self)@, *ctx, pair_id) is None && !check_waits(old(self)@, *ctx, pair_id as int) {
                (old(seed).value + turn_draws(old(self)@, pair_id as int, None)) % 256
            } else {
                old(seed).value as int
            },
            (match r {
                Ok(cmds) => check_error(old(self)@, *ctx, pair_id) is None
                    && exists|draws: Seq<[u8; 32]>, p0: Seq<u8>, p1: Seq<u8>|
                        #![trigger check_outcome(old(self)@, *ctx, pair_id, tmg_id, returned, draws, (p0, p1))]
                        draws.len() == (if check_waits(old(self)@, *ctx, pair_id as int) { 0 } else { turn_draws(old(self)@, pair_id as int, None) })
                        && (final(self)@, cmds@) == check_outcome(old(self)@, *ctx, pair_id, tmg_id, returned, draws, (p0, p1)),
                Err(e) => check_error(old(self)@, *ctx, pair_id) == Some(e) && final(self)@ == old(self)@,
            }),
    {
        let ghost pre = self@;
        let n = match self.check_plan(ctx, pair_id, tmg_id) {
            Ok((_, n)) => n,
            Err(e) => {
                return Err(e);
            },
        };
        let draws = draw_values(seed, n);
        let powers = self.fight_powers(pair_id);
        let r = self.check_if_move_made_with(ctx, pair_id, tmg_id, returned, &draws, &powers);
        proof {
            if r is Ok {
                assert((self@, r->Ok_0@) == check_outcome(pre, *ctx, pair_id, tmg_id, returned, draws@, (powers.0@, powers.1@)));
            }
        }
        r
    }
}

} // verus!
