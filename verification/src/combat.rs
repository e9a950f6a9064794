use vstd::prelude::*;

use crate::random::{damage_of, spec_damage};
use crate::types::{Move, Player, PlayerView};

verus! {

/// `a - b`, or 0 when `b` is larger.
pub open spec fn sat(a: int, b: int) -> int {
    if a > b {
        a - b
    } else {
        0
    }
}

/// How a round ends: the winner, if any (0 or 1), the health that each side
/// is reported to lose, and each side's health afterwards.
pub struct RoundOutcome {
    pub winner: Option<u8>,
    pub loss0: int,
    pub loss1: int,
    pub health0: int,
    pub health1: int,
}

/// How many skip penalties a round with these moves draws: one per skipped move.
pub open spec fn penalty_draws(m0: Option<Move>, m1: Option<Move>) -> nat {
    (if m0 is None { 1nat } else { 0nat }) + (if m1 is None { 1nat } else { 0nat })
}

/// The outcome of a round in which the first side makes `m0` and the second `m1`,
/// with `pens` the skip penalties drawn, in order.
///
/// An attack deals a sixth of the attacker's power; against a defence only the
/// part of the power above the defender's defence counts. Both attacking: the
/// first strikes first and the second strikes back only if still alive. A
/// skipped move against an attack costs the skipper the attack plus a penalty;
/// against a defence, or against another skip, only a penalty.
pub open spec fn round_outcome(a: PlayerView, b: PlayerView, m0: Option<Move>, m1: Option<Move>, pens: Seq<int>) -> RoundOutcome {
    let h0 = a.health as int;
    let h1 = b.health as int;
    let hit0 = a.power as int / 6;
    let hit1 = b.power as int / 6;
    match (m0, m1) {
        (Some(Move::Attack), Some(Move::Attack)) => {
            let n1 = sat(h1, hit0);
            if n1 == 0 {
                RoundOutcome { winner: Some(0), loss0: 0, loss1: h1 - n1, health0: h0, health1: n1 }
            } else {
                let n0 = sat(h0, hit1);
                RoundOutcome {
                    winner: if n0 == 0 { Some(1) } else { None },
                    loss0: h0 - n0,
                    loss1: h1 - n1,
                    health0: n0,
                    health1: n1,
                }
            }
        },
        (Some(Move::Attack), Some(Move::Defence)) => {
            let n1 = sat(h1, sat(a.power as int, b.defence as int) / 6);
            RoundOutcome { winner: if n1 == 0 { Some(0) } else { None }, loss0: 0, loss1: h1 - n1, health0: h0, health1: n1 }
        },
        (Some(Move::Defence), Some(Move::Attack)) => {
            let n0 = sat(h0, sat(b.power as int, a.defence as int) / 6);
            RoundOutcome { winner: if n0 == 0 { Some(1) } else { None }, loss0: h0 - n0, loss1: 0, health0: n0, health1: h1 }
        },
        (Some(Move::Attack), None) => {
            let n1 = sat(sat(h1, hit0), pens[0]);
            RoundOutcome { winner: if n1 == 0 { Some(0) } else { None }, loss0: 0, loss1: h1 - n1, health0: h0, health1: n1 }
        },
        (None, Some(Move::Attack)) => {
            let n0 = sat(sat(h0, hit1), pens[0]);
            RoundOutcome { winner: if n0 == 0 { Some(1) } else { None }, loss0: h0 - n0, loss1: 0, health0: n0, health1: h1 }
        },
        (None, Some(Move::Defence)) => {
            let n0 = sat(h0, pens[0]);
            RoundOutcome { winner: if n0 == 0 { Some(1) } else { None }, loss0: pens[0], loss1: 0, health0: n0, health1: h1 }
        },
        (Some(Move::Defence), None) => {
            let n1 = sat(h1, pens[0]);
            RoundOutcome { winner: if n1 == 0 { Some(0) } else { None }, loss0: 0, loss1: pens[0], health0: h0, health1: n1 }
        },
        (None, None) => {
            let n0 = sat(h0, pens[0]);
            let n1 = sat(h1, pens[1]);
            RoundOutcome {
                winner: if n0 == 0 { Some(1) } else if n1 == 0 { Some(0) } else { None },
                loss0: pens[0],
                loss1: pens[1],
                health0: n0,
                health1: n1,
            }
        },
        (Some(Move::Defence), Some(Move::Defence)) => {
            RoundOutcome { winner: None, loss0: 0, loss1: 0, health0: h0, health1: h1 }
        },
    }
}

/// The penalties that the random values `draws` give, in order.
pub open spec fn penalties(draws: Seq<[u8; 32]>) -> Seq<int> {
    Seq::new(draws.len(), |i: int| spec_damage(draws[i]@))
}

/// Plays one round between `players[0]` (who moved `moves[0]`) and
/// `players[1]` (who moved `moves[1]`), lowering their health; `draws` are the
/// values of the random source for the skip penalties, one per skipped move.
/// Gives the winner's index, if any, and the health lost by each side.
pub fn resolve_battle(players: &mut Vec<Player>, moves: &Vec<Option<Move>>, draws: &Vec<[u8; 32]>) -> (r: (Option<u8>, u16, u16))
    requires
        old(players)@.len() == 2,
        moves@.len() == 2,
        draws@.len() >= penalty_draws(moves@[0], moves@[1]),
    ensures
        ({
            let o = round_outcome(old(players)@[0]@, old(players)@[1]@, moves@[0], moves@[1], penalties(draws@));
            &&& r.0 == o.winner
            &&& r.1 == o.loss0
            &&& r.2 == o.loss1
            &&& final(players)@.len() == 2
            &&& final(players)@[0]@ == old(players)@[0]@.with_health(o.health0 as u16)
            &&& final(players)@[1]@ == old(players)@[1]@.with_health(o.health1 as u16)
        }),
        moves@[0] == Some(Move::Defence) && moves@[1] == Some(Move::Attack) ==> ({
            let h0 = old(players)@[0].health as int;
            let p1 = old(players)@[1].power as int;
            let d0 = old(players)@[0].defence as int;
            let hit = if p1 > d0 { (p1 - d0) / 6 } else { 0 };
            let n0 = if h0 > hit { h0 - hit } else { 0 };
            &&& final(players)@[0].health == n0
            &&& r.1 == h0 - n0
            &&& r.2 == 0
            &&& final(players)@[1].health == old(players)@[1].health
            &&& r.0 == (if n0 == 0 { Some(1u8) } else { None })
        }),
        moves@[0] == Some(Move::Attack) && moves@[1] == Some(Move::Defence) ==> ({
            let h1 = old(players)@[1].health as int;
            let p0 = old(players)@[0].power as int;
            let d1 = old(players)@[1].defence as int;
            let hit = if p0 > d1 { (p0 - d1) / 6 } else { 0 };
            let n1 = if h1 > hit { h1 - hit } else { 0 };
            &&& final(players)@[1].health == n1
            &&& r.2 == h1 - n1
            &&& r.1 == 0
            &&& final(players)@[0].health == old(players)@[0].health
            &&& r.0 == (if n1 == 0 { Some(0u8) } else { None })
        }),
{
    proof {
        lemma_defence_against_attack(old(players)@[0]@, old(players)@[1]@, penalties(draws@));
        lemma_attack_against_defence(old(players)@[0]@, old(players)@[1]@, penalties(draws@));
    }
    let ghost pens = penalties(draws@);
    let h0 = players[0].health;
    let h1 = players[1].health;
    let p0 = players[0].power;
    let p1 = players[1].power;
    let d0 = players[0].defence;
    let d1 = players[1].defence;
    let mut loss0: u16 = 0;
    let mut loss1: u16 = 0;
    let mut n0 = h0;
    let mut n1 = h1;
    let mut winner: Option<u8> = None;
    match (moves[0], moves[1]) {
        (Some(Move::Attack), Some(Move::Attack)) => {
            n1 = h1.saturating_sub(p0 / 6);
            loss1 = h1 - n1;
            if n1 == 0 {
                winner = Some(0);
            } else {
                n0 = h0.saturating_sub(p1 / 6);
                loss0 = h0 - n0;
                if n0 == 0 {
                    winner = Some(1);
                }
            }
        },
        (Some(Move::Attack), Some(Move::Defence)) => {
            let hit = p0.saturating_sub(d1) / 6;
            n1 = h1.saturating_sub(hit);
            loss1 = h1.saturating_sub(n1);
            if n1 == 0 {
                winner = Some(0);
            }
        },
        (Some(Move::Defence), Some(Move::Attack)) => {
            let hit = p1.saturating_sub(d0) / 6;
            n0 = h0.saturating_sub(hit);
            loss0 = h0.saturating_sub(n0);
            if n0 == 0 {
                winner = Some(1);
            }
        },
        (Some(Move::Attack), None) => {
            let penalty = damage_of(&draws[0]);
            n1 = h1.saturating_sub(p0 / 6).saturating_sub(penalty);
            loss1 = h1.saturating_sub(n1);
            if n1 == 0 {
                winner = Some(0);
            }
        },
        (None, Some(Move::Attack)) => {
            let penalty = damage_of(&draws[0]);
            n0 = h0.saturating_sub(p1 / 6).saturating_sub(penalty);
            loss0 = h0.saturating_sub(n0);
            if n0 == 0 {
                winner = Some(1);
            }
        },
        (None, Some(Move::Defence)) => {
            loss0 = damage_of(&draws[0]);
            n0 = h0.saturating_sub(loss0);
            if n0 == 0 {
                winner = Some(1);
            }
        },
        (Some(Move::Defence), None) => {
            loss1 = damage_of(&draws[0]);
            n1 = h1.saturating_sub(loss1);
            if n1 == 0 {
                winner = Some(0);
            }
        },
        (None, None) => {
            loss0 = damage_of(&draws[0]);
            loss1 = damage_of(&draws[1]);
            n0 = h0.saturating_sub(loss0);
            n1 = h1.saturating_sub(loss1);
            if n0 == 0 {
                winner = Some(1);
            } else if n1 == 0 {
                winner = Some(0);
            }
        },
        (Some(Move::Defence), Some(Move::Defence)) => {},
    }
    players[0].health = n0;
    players[1].health = n1;
    (winner, loss0, loss1)
}

/// A round never raises health; each side's health afterwards is its health
/// before less the loss reported for it, floored at zero; a winner's opponent
/// ends at zero health; and when both sides start alive and no one wins,
/// both end alive.
pub proof fn lemma_round_outcome(a: PlayerView, b: PlayerView, m0: Option<Move>, m1: Option<Move>, pens: Seq<int>)
    requires
        pens.len() >= penalty_draws(m0, m1),
        forall|i: int| 0 <= i < pens.len() ==> 0 <= #[trigger] pens[i],
    ensures
        ({
            let o = round_outcome(a, b, m0, m1, pens);
            &&& 0 <= o.health0 <= a.health
            &&& 0 <= o.health1 <= b.health
            &&& o.health0 == sat(a.health as int, o.loss0)
            &&& o.health1 == sat(b.health as int, o.loss1)
            &&& (o.winner == Some(0u8) ==> o.health1 == 0)
            &&& (o.winner == Some(1u8) ==> o.health0 == 0)
            &&& (o.winner is None && a.health > 0 && b.health > 0 ==> o.health0 > 0 && o.health1 > 0)
            &&& (o.winner is Some ==> o.winner == Some(0u8) || o.winner == Some(1u8))
        }),
{
    if m0 is None {
        assert(0 <= pens[0]);
    }
    if m0 is None && m1 is None {
        assert(0 <= pens[1]);
    }
    if m0 is Some && m1 is None {
        assert(0 <= pens[0]);
    }
}

/// When the first side defends and the second attacks, only the part of the
/// attacker's power above the defender's defence counts, a sixth of it comes
/// off the defender's health (floored at zero), the reported loss is that
/// drop, the attacker is untouched, and the attacker wins exactly when the
/// defender ends at zero.
pub proof fn lemma_defence_against_attack(a: PlayerView, b: PlayerView, pens: Seq<int>)
    ensures
        ({
            let o = round_outcome(a, b, Some(Move::Defence), Some(Move::Attack), pens);
            let h0 = a.health as int;
            let hit = if b.power > a.defence { (b.power - a.defence) / 6 } else { 0 };
            let n0 = if h0 > hit { h0 - hit } else { 0 };
            &&& o.health0 == n0
            &&& o.loss0 == h0 - n0
            &&& o.health1 == b.health
            &&& o.loss1 == 0
            &&& o.winner == (if n0 == 0 { Some(1u8) } else { None })
            &&& (b.power <= a.defence ==> o.health0 == a.health && o.loss0 == 0)
        }),
{
}

/// When the first side attacks and the second defends, only the part of the
/// attacker's power above the defender's defence counts, a sixth of it comes
/// off the defender's health (floored at zero), the reported loss is that
/// drop, the attacker is untouched, and the attacker wins exactly when the
/// defender ends at zero.
pub proof fn lemma_attack_against_defence(a: PlayerView, b: PlayerView, pens: Seq<int>)
    ensures
        ({
            let o = round_outcome(a, b, Some(Move::Attack), Some(Move::Defence), pens);
            let h1 = b.health as int;
            let hit = if a.power > b.defence { (a.power - b.defence) / 6 } else { 0 };
            let n1 = if h1 > hit { h1 - hit } else { 0 };
            &&& o.health1 == n1
            &&& o.loss1 == h1 - n1
            &&& o.health0 == a.health
            &&& o.loss0 == 0
            &&& o.winner == (if n1 == 0 { Some(0u8) } else { None })
            &&& (a.power <= b.defence ==> o.health1 == b.health && o.loss1 == 0)
        }),
{
}

} // verus!
