use vstd::multiset::Multiset;
use vstd::prelude::*;

use crate::actor_map::ActorMap;
use crate::battle::{count_over, player_wf, Battle, BattleView};
use crate::ids::{zero_actor, zero_message, ActorId, MessageId};
use crate::random::{random_value_of, spec_random_value};
use crate::types::{
    BattleError, BattleEvent, BattleState, CheckFunding, Command, Context, Pair, PairId, PairView,
    PlayerView, CHECK_DELAY, HEALTH, MOVE_WINDOW_MS,
};

verus! {

/// The range of the draw that picks among `len` waiting tamagotchis: `len`
/// as a byte (so 256 waiting ones give an empty range, which picks the first
/// without a draw).
pub open spec fn pick_range(len: nat) -> u8 {
    (len % 256) as u8
}

/// The position picked among `len` waiting tamagotchis, and the draws left.
pub open spec fn pick(len: nat, draws: Seq<[u8; 32]>) -> (int, Seq<[u8; 32]>) {
    let r = pick_range(len);
    if r == 0 {
        (0, draws)
    } else {
        (spec_random_value(r, draws[0]@), draws.drop_first())
    }
}

/// How many draws a pick among `len` takes.
pub open spec fn pick_cost(len: nat) -> nat {
    if pick_range(len) == 0 { 0 } else { 1 }
}

/// How many draws pairing `n` waiting tamagotchis takes.
pub open spec fn draws_needed(n: nat) -> nat
    decreases n,
{
    if n < 2 {
        0
    } else {
        pick_cost(n) + pick_cost((n - 1) as nat) + draws_needed((n - 2) as nat)
    }
}

/// Pairs off the waiting tamagotchis `ids`: while two or more wait, a draw
/// picks the first of a pair, which leaves the queue, then another draw picks
/// the second among the rest. Gives the pairs in order and who is left.
pub open spec fn pairing(ids: Seq<ActorId>, draws: Seq<[u8; 32]>) -> (Seq<(ActorId, ActorId)>, Seq<ActorId>)
    decreases ids.len(),
{
    if ids.len() < 2 {
        (Seq::empty(), ids)
    } else {
        let (i, d1) = pick(ids.len(), draws);
        let rest = ids.remove(i);
        let (j, d2) = pick(rest.len(), d1);
        let rest2 = rest.remove(j);
        let (later, left) = pairing(rest2, d2);
        (seq![(ids[i], rest[j])] + later, left)
    }
}

/// The tamagotchis of `made`, pair by pair.
pub open spec fn paired_ids(made: Seq<(ActorId, ActorId)>) -> Seq<ActorId>
    decreases made.len(),
{
    if made.len() == 0 {
        Seq::empty()
    } else {
        seq![made[0].0, made[0].1] + paired_ids(made.drop_first())
    }
}

/// Whether `k` fights in one of `made`.
pub open spec fn in_pairs(made: Seq<(ActorId, ActorId)>, k: ActorId) -> bool {
    exists|i: int| 0 <= i < made.len() && ((#[trigger] made[i]).0 == k || made[i].1 == k)
}

/// The players after the paired ones got their full health back.
pub open spec fn refreshed(players: Map<ActorId, PlayerView>, made: Seq<(ActorId, ActorId)>) -> Map<ActorId, PlayerView> {
    Map::new(
        |k: ActorId| players.contains_key(k),
        |k: ActorId| if in_pairs(made, k) { players[k].with_health(HEALTH) } else { players[k] },
    )
}

/// The fight of `tmgs`, owned as `players` says, with its first move due by `deadline`.
pub open spec fn new_pair(players: Map<ActorId, PlayerView>, tmgs: (ActorId, ActorId), deadline: u64) -> PairView {
    PairView {
        owner_ids: seq![players[tmgs.0].owner, players[tmgs.1].owner],
        tmg_ids: seq![tmgs.0, tmgs.1],
        moves: Seq::empty(),
        rounds: 0,
        game_is_over: false,
        winner: zero_actor(),
        move_deadline: deadline,
        msg_id: zero_message(),
    }
}

/// `owner`'s list of fights with `k` added at the end.
pub open spec fn add_pair(m: Map<ActorId, Seq<PairId>>, owner: ActorId, k: PairId) -> Map<ActorId, Seq<PairId>> {
    m.insert(owner, if m.contains_key(owner) { m[owner].push(k) } else { seq![k] })
}

/// Each owner's fights among `made`, in order; a fight appears twice for an
/// owner who owns both sides.
pub open spec fn owners_pairs(players: Map<ActorId, PlayerView>, made: Seq<(ActorId, ActorId)>) -> Map<ActorId, Seq<PairId>>
    decreases made.len(),
{
    if made.len() == 0 {
        Map::empty()
    } else {
        let k = (made.len() - 1) as PairId;
        let m = owners_pairs(players, made.drop_last());
        add_pair(add_pair(m, players[made.last().0].owner, k), players[made.last().1].owner, k)
    }
}

/// The delayed move check scheduled for a new fight `k`.
pub open spec fn first_check(k: int) -> Command {
    Command::ScheduleCheck { pair_id: k as PairId, tmg_id: None, funding: CheckFunding::Plain, delay: CHECK_DELAY, track: true }
}

/// Every new fight gets its own first move check: the check scheduled for
/// new fight `k` is for fight `k`, sent plainly after the check delay and
/// tracked as the fight's latest.
pub proof fn lemma_each_fight_checked()
    ensures
        forall|k: int| 0 <= k < 256 ==> #[trigger] first_check(k) == (Command::ScheduleCheck {
            pair_id: k as PairId,
            tmg_id: None,
            funding: CheckFunding::Plain,
            delay: CHECK_DELAY,
            track: true,
        }),
{
}

impl BattleView {
    /// A new round of fights: the waiting tamagotchis are paired off by the
    /// draws, get full health, and each fight's first move is due a move
    /// window after `timestamp`.
    pub open spec fn battle_started(self, timestamp: u64, draws: Seq<[u8; 32]>) -> BattleView {
        let (made, left) = pairing(self.players_ids, draws);
        BattleView {
            players: refreshed(self.players, made),
            players_ids: left,
            state: BattleState::GameIsOn,
            pairs: Seq::new(made.len(), |k: int| new_pair(self.players, made[k], (timestamp + MOVE_WINDOW_MS) as u64)),
            players_to_pairs: owners_pairs(self.players, made),
            completed_games: 0,
            ..self
        }
    }
}

/// Pairing off `n` waiting tamagotchis (other than one alone) makes `n / 2`
/// fights, leaves `n % 2` waiting, and puts every one of them either in
/// exactly one fight or among those left.
pub proof fn lemma_pairing_permutation(ids: Seq<ActorId>, draws: Seq<[u8; 32]>)
    requires
        ids.len() != 1,
    ensures
        ({
            let (made, left) = pairing(ids, draws);
            &&& made.len() == ids.len() / 2
            &&& left.len() == ids.len() % 2
            &&& paired_ids(made).len() == 2 * made.len()
            &&& ids.to_multiset() == paired_ids(made).to_multiset().add(left.to_multiset())
        }),
    decreases ids.len(),
{
    broadcast use vstd::seq_lib::group_to_multiset_ensures, vstd::seq_lib::lemma_multiset_commutative;
    broadcast use vstd::multiset::group_multiset_axioms, vstd::multiset::lemma_multiset_empty_len;

    if ids.len() < 2 {
        assert(paired_ids(Seq::<(ActorId, ActorId)>::empty()) =~= Seq::<ActorId>::empty());
        assert(Seq::<ActorId>::empty().to_multiset().len() == 0);
        assert(Seq::<ActorId>::empty().to_multiset() =~= Multiset::empty());
        assert(ids.to_multiset() =~= Seq::<ActorId>::empty().to_multiset().add(ids.to_multiset()));
    } else {
        let (i, d1) = pick(ids.len(), draws);
        let rest = ids.remove(i);
        let (j, d2) = pick(rest.len(), d1);
        let rest2 = rest.remove(j);
        let (later, left) = pairing(rest2, d2);
        let made = seq![(ids[i], rest[j])] + later;
        if rest2.len() == 1 {
            assert(ids.len() == 3);
            let one = rest2;
            assert(pairing(rest2, d2) == (Seq::<(ActorId, ActorId)>::empty(), rest2));
            assert(paired_ids(later) =~= Seq::<ActorId>::empty());
            assert(later =~= Seq::<(ActorId, ActorId)>::empty());
            assert(Seq::<ActorId>::empty().to_multiset().len() == 0);
            assert(Seq::<ActorId>::empty().to_multiset() =~= Multiset::empty());
            assert(rest2.to_multiset() =~= paired_ids(later).to_multiset().add(left.to_multiset()));
        } else {
            lemma_pairing_permutation(rest2, d2);
        }
        assert(made.drop_first() =~= later);
        assert(made[0] == (ids[i], rest[j]));
        assert(paired_ids(made) == seq![ids[i], rest[j]] + paired_ids(later));
        let pl = paired_ids(later);
        assert(rest2.to_multiset() == pl.to_multiset().add(left.to_multiset()));
        assert(rest.to_multiset() == ids.to_multiset().remove(ids[i]));
        assert(rest2.to_multiset() == rest.to_multiset().remove(rest[j]));
        assert(ids.to_multiset().count(ids[i]) > 0);
        assert(rest.to_multiset().count(rest[j]) > 0) by {
            assert(rest.contains(rest[j]));
        }
        assert(ids.contains(ids[i]));
        let two = seq![ids[i], rest[j]];
        assert(two.to_multiset() =~= Multiset::singleton(ids[i]).insert(rest[j])) by {
            assert(two =~= seq![ids[i]].push(rest[j]));
            assert(seq![ids[i]] =~= Seq::<ActorId>::empty().push(ids[i]));
        }
        assert(ids.to_multiset() =~= paired_ids(made).to_multiset().add(left.to_multiset()));
    }
}

/// After pairing, each owner's list of fights holds exactly the fights of its
/// tamagotchis: every fight is listed for the owners of both sides, and
/// every listed fight exists and has a tamagotchi of that owner.
pub proof fn lemma_owners_pairs(players: Map<ActorId, PlayerView>, made: Seq<(ActorId, ActorId)>)
    requires
        made.len() <= 256,
    ensures
        forall|k: int| 0 <= k < made.len() ==> {
            let m = owners_pairs(players, made);
            &&& m.contains_key(players[(#[trigger] made[k]).0].owner)
            &&& m[players[made[k].0].owner].contains(k as PairId)
            &&& m.contains_key(players[made[k].1].owner)
            &&& m[players[made[k].1].owner].contains(k as PairId)
        },
        forall|o: ActorId, x: PairId| owners_pairs(players, made).contains_key(o)
            && #[trigger] owners_pairs(players, made)[o].contains(x) ==> {
            &&& (x as int) < made.len()
            &&& (players[made[x as int].0].owner == o || players[made[x as int].1].owner == o)
        },
    decreases made.len(),
{
    if made.len() > 0 {
        let prev = made.drop_last();
        lemma_owners_pairs(players, prev);
        let n = made.len() - 1;
        let k = n as PairId;
        let m = owners_pairs(players, prev);
        let o1 = players[made.last().0].owner;
        let o2 = players[made.last().1].owner;
        let m1 = add_pair(m, o1, k);
        let m2 = add_pair(m1, o2, k);
        assert(owners_pairs(players, made) == m2);
        assert forall|o: ActorId, x: PairId| m.contains_key(o) && m[o].contains(x) implies
            m2.contains_key(o) && m2[o].contains(x) by {
            let w = choose|w: int| 0 <= w < m[o].len() && m[o][w] == x;
            assert(m1[o][w] == x);
            assert(m1[o].contains(x));
            assert(m2[o][w] == x);
        }
        assert(m2.contains_key(o1) && m2[o1].contains(k)) by {
            assert(m1[o1].last() == k);
            assert(m1[o1].contains(k));
            if o2 == o1 {
                assert(m2[o1][m1[o1].len() as int] == k);
            } else {
                assert(m2[o1] == m1[o1]);
            }
        }
        assert(m2[o2].last() == k);
        assert(m2[o2].contains(k));
        assert forall|kk: int| 0 <= kk < made.len() implies {
            &&& m2.contains_key(players[(#[trigger] made[kk]).0].owner)
            &&& m2[players[made[kk].0].owner].contains(kk as PairId)
            &&& m2.contains_key(players[made[kk].1].owner)
            &&& m2[players[made[kk].1].owner].contains(kk as PairId)
        } by {
            if kk < n {
                assert(made[kk] == prev[kk]);
            }
        }
        assert forall|o: ActorId, x: PairId| m2.contains_key(o) && #[trigger] m2[o].contains(x) implies {
            &&& (x as int) < made.len()
            &&& (players[made[x as int].0].owner == o || players[made[x as int].1].owner == o)
        } by {
            let w = choose|w: int| 0 <= w < m2[o].len() && m2[o][w] == x;
            if x == k {
                assert(made[n] == made.last());
            } else {
                let in1 = m1.contains_key(o) && m1[o].contains(x);
                assert(in1) by {
                    if o == o2 {
                        if m1.contains_key(o2) {
                            assert(m2[o] == m1[o].push(k));
                            assert(w < m1[o].len());
                            assert(m1[o][w] == x);
                        } else {
                            assert(m2[o] == seq![k]);
                        }
                    } else {
                        assert(m2[o] == m1[o]);
                    }
                }
                let w1 = choose|w1: int| 0 <= w1 < m1[o].len() && m1[o][w1] == x;
                if o == o1 {
                    if m.contains_key(o1) {
                        assert(m1[o] == m[o].push(k));
                        assert(w1 < m[o].len());
                        assert(m[o][w1] == x);
                    } else {
                        assert(m1[o] == seq![k]);
                    }
                } else {
                    assert(m1[o] == m[o]);
                }
                assert(m.contains_key(o) && m[o].contains(x));
                assert(made[x as int] == prev[x as int]);
            }
        }
    }
}

impl Battle {
    /// Gives `tmg_id` full health back and tells its owner.
    fn refresh_player(&mut self, tmg_id: &ActorId) -> (owner: ActorId)
        requires
            old(self)@.players.contains_key(*tmg_id),
        ensures
            owner == old(self)@.players[*tmg_id].owner,
            final(self)@ == (BattleView {
                players: old(self)@.players.insert(*tmg_id, old(self)@.players[*tmg_id].with_health(HEALTH)),
                ..old(self)@
            }),
    {
        let mut player = self.players.remove(tmg_id).unwrap();
        player.health = HEALTH;
        let owner = player.owner;
        self.players.insert(*tmg_id, player);
        assert(self@.players =~= old(self)@.players.insert(*tmg_id, old(self)@.players[*tmg_id].with_health(HEALTH)));
        owner
    }

    /// Adds fight `k` to `owner`'s list.
    fn add_owner_pair(&mut self, owner: ActorId, k: PairId)
        ensures
            final(self)@ == (BattleView { players_to_pairs: add_pair(old(self)@.players_to_pairs, owner, k), ..old(self)@ }),
    {
        match self.players_to_pairs.remove(&owner) {
            Some(mut ids) => {
                ids.push(k);
                self.players_to_pairs.insert(owner, ids);
            },
            None => {
                let mut ids: Vec<PairId> = Vec::new();
                ids.push(k);
                assert(ids@ =~= seq![k]);
                self.players_to_pairs.insert(owner, ids);
            },
        }
        assert(self@.players_to_pairs =~= add_pair(old(self)@.players_to_pairs, owner, k));
    }
}

/// How many draws pairing off `n` waiting tamagotchis takes.
pub fn pairing_draws(n: usize) -> (r: usize)
    requires
        n <= 511,
    ensures
        r == draws_needed(n as nat),
{
    let mut m: usize = n;
    let mut total: usize = 0;
    while m >= 2
        invariant
            m <= n <= 511,
            total <= n - m,
            total + draws_needed(m as nat) == draws_needed(n as nat),
        decreases m,
    {
        let c1: usize = if m % 256 == 0 { 0 } else { 1 };
        let c2: usize = if (m - 1) % 256 == 0 { 0 } else { 1 };
        total = total + c1 + c2;
        m = m - 2;
    }
    total
}

/// The position picked among `n` waiting tamagotchis by the draws from `d`
/// on, and the position of the first draw left.
fn pick_position(n: usize, draws: &Vec<[u8; 32]>, d: usize) -> (r: (usize, usize))
    requires
        1 <= n,
        d <= draws@.len(),
        draws@.len() - d >= pick_cost(n as nat),
    ensures
        r.0 < n,
        d <= r.1 <= draws@.len(),
        r.1 - d == pick_cost(n as nat),
        r.0 as int == pick(n as nat, draws@.skip(d as int)).0,
        draws@.skip(r.1 as int) == pick(n as nat, draws@.skip(d as int)).1,
{
    let range: u8 = (n % 256) as u8;
    assert(range == pick_range(n as nat));
    if range == 0 {
        (0, d)
    } else {
        assert(draws@.skip(d as int)[0] == draws@[d as int]);
        assert(draws@.skip(d as int).drop_first() =~= draws@.skip(d + 1));
        let total = draws.len();
        assert(d < total);
        let v = random_value_of(range, &draws[d]);
        (v as usize, d + 1)
    }
}

proof fn lemma_count_over_none(s: Seq<PairView>)
    requires
        forall|i: int| 0 <= i < s.len() ==> !(#[trigger] s[i]).game_is_over,
    ensures
        count_over(s) == 0,
    decreases s.len(),
{
    if s.len() > 0 {
        lemma_count_over_none(s.drop_last());
    }
}

/// Where pairing off `orig`'s waiting tamagotchis stands once the fights
/// `made` exist, `now` is the state and draws up to `d` are spent.
spec fn split_progress(
    orig: BattleView,
    now: BattleView,
    made: Seq<(ActorId, ActorId)>,
    draws: Seq<[u8; 32]>,
    d: int,
    cmds: Seq<Command>,
    deadline: u64,
) -> bool {
    &&& orig.players_ids.len() <= 511
    &&& 2 * made.len() + now.players_ids.len() == orig.players_ids.len()
    &&& 0 <= d <= draws.len()
    &&& draws.len() - d >= draws_needed(now.players_ids.len())
    &&& pairing(orig.players_ids, draws).0 == made + pairing(now.players_ids, draws.skip(d)).0
    &&& pairing(orig.players_ids, draws).1 == pairing(now.players_ids, draws.skip(d)).1
    &&& forall|i: int| 0 <= i < now.players_ids.len() ==> orig.players.contains_key(#[trigger] now.players_ids[i])
    &&& forall|i: int| 0 <= i < made.len() ==> orig.players.contains_key((#[trigger] made[i]).0)
        && orig.players.contains_key(made[i].1)
    &&& now.players == refreshed(orig.players, made)
    &&& now.pairs == Seq::new(made.len(), |k: int| new_pair(orig.players, made[k], deadline))
    &&& now.players_to_pairs == owners_pairs(orig.players, made)
    &&& cmds == Seq::new(made.len(), |k: int| first_check(k))
    &&& now.admin == orig.admin
    &&& now.state == orig.state
    &&& now.current_winner == orig.current_winner
    &&& now.completed_games == orig.completed_games
    &&& now.reservations == orig.reservations
}

proof fn lemma_pairing_step(cur: Seq<ActorId>, dcur: Seq<[u8; 32]>, i: int, j: int, d2: Seq<[u8; 32]>)
    requires
        cur.len() >= 2,
        i == pick(cur.len(), dcur).0,
        j == pick((cur.len() - 1) as nat, pick(cur.len(), dcur).1).0,
        d2 == pick((cur.len() - 1) as nat, pick(cur.len(), dcur).1).1,
    ensures
        pairing(cur, dcur).0 == seq![(cur[i], cur.remove(i)[j])] + pairing(cur.remove(i).remove(j), d2).0,
        pairing(cur, dcur).1 == pairing(cur.remove(i).remove(j), d2).1,
{
}

proof fn lemma_refreshed_push(players: Map<ActorId, PlayerView>, made: Seq<(ActorId, ActorId)>, a: ActorId, b: ActorId)
    requires
        players.contains_key(a),
        players.contains_key(b),
    ensures
        ({
            let m1 = refreshed(players, made);
            let m2 = m1.insert(a, m1[a].with_health(HEALTH));
            let m3 = m2.insert(b, m2[b].with_health(HEALTH));
            m3 == refreshed(players, made.push((a, b)))
        }),
{
    let made2 = made.push((a, b));
    assert forall|x: ActorId| in_pairs(made2, x) == (in_pairs(made, x) || x == a || x == b) by {
        if in_pairs(made, x) {
            let w = choose|w: int| 0 <= w < made.len() && ((#[trigger] made[w]).0 == x || made[w].1 == x);
            assert(made2[w] == made[w]);
        }
        if x == a || x == b {
            assert(made2[made.len() as int] == (a, b));
        }
        if in_pairs(made2, x) {
            let w = choose|w: int| 0 <= w < made2.len() && ((#[trigger] made2[w]).0 == x || made2[w].1 == x);
            if w < made.len() {
                assert(made2[w] == made[w]);
            }
        }
    }
    let m1 = refreshed(players, made);
    let m2 = m1.insert(a, m1[a].with_health(HEALTH));
    let m3 = m2.insert(b, m2[b].with_health(HEALTH));
    assert(m3 =~= refreshed(players, made2));
}

impl Battle {
    /// Makes the next fight out of the waiting tamagotchis.
    #[verifier::rlimit(40)]
    fn pair_next(
        &mut self,
        Ghost(orig): Ghost<BattleView>,
        Ghost(made): Ghost<Seq<(ActorId, ActorId)>>,
        draws: &Vec<[u8; 32]>,
        d: usize,
        deadline: u64,
        cmds: &mut Vec<Command>,
    ) -> (r: (usize, Ghost<(ActorId, ActorId)>))
        requires
            split_progress(orig, old(self)@, made, draws@, d as int, old(cmds)@, deadline),
            old(self)@.players_ids.len() >= 2,
        ensures
            split_progress(orig, final(self)@, made.push(r.1@), draws@, r.0 as int, final(cmds)@, deadline),
            final(self)@.players_ids.len() < old(self)@.players_ids.len(),
    {
        let ghost cur = self.players_ids@;
        let ghost dcur = draws@.skip(d as int);
        let k: usize = self.pairs.len();
        assert(self@.pairs.len() == self.pairs@.len());
        assert(k == made.len());
        let n = self.players_ids.len();
        let (i, d1) = pick_position(n, draws, d);
        let a = self.players_ids.remove(i);
        let (j, d2) = pick_position(n - 1, draws, d1);
        let b = self.players_ids.remove(j);
        let ghost rest = cur.remove(i as int);
        proof {
            lemma_pairing_step(cur, dcur, i as int, j as int, draws@.skip(d2 as int));
            assert(a == cur[i as int]);
            assert(b == rest[j as int]);
            assert(rest[j as int] == cur[if j < i { j as int } else { j + 1 }]);
            assert(orig.players.contains_key(a));
            assert(orig.players.contains_key(b));
            assert forall|x: int| 0 <= x < self.players_ids@.len() implies orig.players.contains_key(#[trigger] self.players_ids@[x]) by {
                let x1 = if x < j { x } else { x + 1 };
                assert(self.players_ids@[x] == rest[x1]);
                let x2 = if x1 < i { x1 } else { x1 + 1 };
                assert(rest[x1] == cur[x2]);
            }
        }
        let ghost p0 = self@.players;
        let owner_a = self.refresh_player(&a);
        let owner_b = self.refresh_player(&b);
        proof {
            lemma_refreshed_push(orig.players, made, a, b);
            assert(owner_a == orig.players[a].owner);
            assert(owner_b == orig.players[b].owner);
        }
        self.add_owner_pair(owner_a, k as PairId);
        self.add_owner_pair(owner_b, k as PairId);
        let mut owner_ids: Vec<ActorId> = Vec::new();
        owner_ids.push(owner_a);
        owner_ids.push(owner_b);
        let mut tmg_ids: Vec<ActorId> = Vec::new();
        tmg_ids.push(a);
        tmg_ids.push(b);
        let pair = Pair {
            owner_ids,
            tmg_ids,
            moves: Vec::new(),
            rounds: 0,
            game_is_over: false,
            winner: ActorId::zero(),
            move_deadline: deadline,
            msg_id: MessageId::zero(),
        };
        proof {
            assert(pair@.owner_ids =~= seq![owner_a, owner_b]);
            assert(pair@.tmg_ids =~= seq![a, b]);
            assert(pair@.moves =~= Seq::<Option<crate::types::Move>>::empty());
            assert(pair@ == new_pair(orig.players, (a, b), deadline));
        }
        let ghost pairs_before = self@.pairs;
        self.pairs.push(pair);
        cmds.push(Command::ScheduleCheck {
            pair_id: k as PairId,
            tmg_id: None,
            funding: CheckFunding::Plain,
            delay: CHECK_DELAY,
            track: true,
        });
        proof {
            let made2 = made.push((a, b));
            assert(made2.drop_last() =~= made);
            assert(made2.last() == (a, b));
            assert(self@.pairs =~= pairs_before.push(new_pair(orig.players, (a, b), deadline)));
            assert forall|w: int| 0 <= w < made.len() implies #[trigger] made2[w] == made[w] by {}
            assert(made2[made.len() as int] == (a, b));
            assert(made2 + pairing(self.players_ids@, draws@.skip(d2 as int)).0 =~= made + (seq![(a, b)]
                + pairing(self.players_ids@, draws@.skip(d2 as int)).0));
            assert(self@.pairs =~= Seq::new(made2.len(), |k: int| new_pair(orig.players, made2[k], deadline)));
            assert(self@.players_to_pairs =~= owners_pairs(orig.players, made2));
            assert(cmds@ =~= Seq::new(made2.len(), |k: int| first_check(k)));
        }
        (d2, Ghost((a, b)))
    }

    /// Pairs off the waiting tamagotchis into new fights, as `pairing` says.
    fn split_into_pairs(&mut self, ctx: &Context, draws: &Vec<[u8; 32]>) -> (cmds: Vec<Command>)
        requires
            old(self)@.wf(),
            ctx.wf(),
            old(self)@.pairs.len() == 0,
            old(self)@.players_to_pairs == Map::<ActorId, Seq<PairId>>::empty(),
            old(self)@.players_ids.len() != 1,
            old(self)@.players_ids.len() <= 511,
            draws@.len() >= draws_needed(old(self)@.players_ids.len()),
        ensures
            final(self)@ == (BattleView {
                state: old(self)@.state,
                completed_games: old(self)@.completed_games,
                ..old(self)@.battle_started(ctx.block_timestamp, draws@)
            }),
            cmds@ == Seq::new(pairing(old(self)@.players_ids, draws@).0.len(), |k: int| first_check(k)),
            2 * pairing(old(self)@.players_ids, draws@).0.len() <= old(self)@.players_ids.len(),
            forall|x: int| 0 <= x < final(self)@.players_ids.len() ==> old(self)@.players.contains_key(#[trigger] final(self)@.players_ids[x]),
            forall|i: int| 0 <= i < pairing(old(self)@.players_ids, draws@).0.len() ==>
                old(self)@.players.contains_key((#[trigger] pairing(old(self)@.players_ids, draws@).0[i]).0)
                && old(self)@.players.contains_key(pairing(old(self)@.players_ids, draws@).0[i].1),
    {
        let ghost orig = self@;
        let ghost mut made: Seq<(ActorId, ActorId)> = Seq::empty();
        let deadline: u64 = ctx.block_timestamp + MOVE_WINDOW_MS;
        let mut d: usize = 0;
        let mut cmds: Vec<Command> = Vec::new();
        proof {
            assert(draws@.skip(0) =~= draws@);
            assert(made + pairing(self.players_ids@, draws@.skip(0)).0 =~= pairing(orig.players_ids, draws@).0);
            assert forall|x: ActorId| !in_pairs(made, x) by {}
            assert(self@.players =~= refreshed(orig.players, made));
            assert(self@.pairs =~= Seq::new(made.len(), |k: int| new_pair(orig.players, made[k], deadline)));
            assert(cmds@ =~= Seq::new(made.len(), |k: int| first_check(k)));
        }
        while self.players_ids.len() >= 2
            invariant
                split_progress(orig, self@, made, draws@, d as int, cmds@, deadline),
            decreases self.players_ids@.len(),
        {
            let (d2, Ghost(next)) = self.pair_next(Ghost(orig), Ghost(made), draws, d, deadline, &mut cmds);
            d = d2;
            proof {
                made = made.push(next);
            }
        }
        proof {
            assert(pairing(self.players_ids@, draws@.skip(d as int)).0 =~= Seq::<(ActorId, ActorId)>::empty());
            assert(made =~= pairing(orig.players_ids, draws@).0);
            assert(self@ =~= (BattleView {
                state: orig.state,
                completed_games: orig.completed_games,
                ..orig.battle_started(ctx.block_timestamp, draws@)
            }));
        }
        cmds
    }

    /// Starts a round of fights once every fight of the previous one is over;
    /// only the admin may. `draws` are the values of the random source that
    /// the pairing takes (`pairing_draws` says how many).
    pub fn start_battle_with(&mut self, ctx: &Context, draws: &Vec<[u8; 32]>) -> (r: Result<Vec<Command>, BattleError>)
        requires
            old(self)@.wf(),
            ctx.wf(),
            old(self)@.players_ids.len() <= 511,
            draws@.len() >= draws_needed(old(self)@.players_ids.len()),
        ensures
            final(self)@.wf(),
            (match r {
                Ok(cmds) => old(self)@.completed_games == old(self)@.pairs.len()
                    && old(self)@.admin == ctx.source
                    && old(self)@.players_ids.len() != 1
                    && final(self)@ == old(self)@.battle_started(ctx.block_timestamp, draws@)
                    && cmds@ == Seq::new(pairing(old(self)@.players_ids, draws@).0.len(), |k: int| first_check(k))
                        .push(Command::Reply(BattleEvent::BattleStarted)),
                Err(e) => final(self)@ == old(self)@ && e == (if old(self)@.completed_games != old(self)@.pairs.len() {
                    BattleError::BattleNotOver
                } else if old(self)@.admin != ctx.source {
                    BattleError::NotAdmin
                } else {
                    BattleError::LonePlayer
                }) && (old(self)@.completed_games != old(self)@.pairs.len() || old(self)@.admin != ctx.source
                    || old(self)@.players_ids.len() == 1),
            }),
            r matches Ok(cmds) ==> cmds@.len() == final(self)@.pairs.len() + 1
                && (forall|k: int| 0 <= k < final(self)@.pairs.len() ==> #[trigger] cmds@[k] == (Command::ScheduleCheck {
                    pair_id: k as PairId,
                    tmg_id: None,
                    funding: CheckFunding::Plain,
                    delay: CHECK_DELAY,
                    track: true,
                }))
                && cmds@[final(self)@.pairs.len() as int] == Command::Reply(BattleEvent::BattleStarted),
    {
        if self.completed_games as usize != self.pairs.len() {
            return Err(BattleError::BattleNotOver);
        }
        if self.admin != ctx.source {
            return Err(BattleError::NotAdmin);
        }
        if self.players_ids.len() == 1 {
            return Err(BattleError::LonePlayer);
        }
        let ghost orig = self@;
        self.pairs = Vec::new();
        self.players_to_pairs = ActorMap::new();
        self.completed_games = 0;
        proof {
            assert(self@.pairs =~= Seq::<PairView>::empty());
            lemma_count_over_none(self@.pairs);
        }
        let mut cmds = self.split_into_pairs(ctx, draws);
        let ghost after_split = self@;
        self.state = BattleState::GameIsOn;
        cmds.push(Command::Reply(BattleEvent::BattleStarted));
        proof {
            let (made, left) = pairing(orig.players_ids, draws@);
            assert(self@ == orig.battle_started(ctx.block_timestamp, draws@));
            lemma_count_over_none(self@.pairs);
            assert forall|i: int| 0 <= i < self@.pairs.len() implies {
                &&& (#[trigger] self@.pairs[i]).wf()
                &&& self@.players.contains_key(self@.pairs[i].tmg_ids[0])
                &&& self@.players.contains_key(self@.pairs[i].tmg_ids[1])
            } by {
                assert(self@.pairs[i] == new_pair(orig.players, made[i], (ctx.block_timestamp + MOVE_WINDOW_MS) as u64));
            }
            assert forall|x: ActorId| #[trigger] self@.players.contains_key(x) implies player_wf(x, self@.players[x]) by {
                assert(orig.players.contains_key(x));
                assert(player_wf(x, orig.players[x]));
            }
            assert(self@.pairs.len() <= 255);
            assert(self@.completed_games == count_over(self@.pairs));
            assert forall|i: int| 0 <= i < self@.players_ids.len() implies self@.players.contains_key(#[trigger] self@.players_ids[i]) by {
                assert(self@.players_ids[i] == after_split.players_ids[i]);
                assert(orig.players.contains_key(after_split.players_ids[i]));
            }
        }
        Ok(cmds)
    }
}

} // verus!
