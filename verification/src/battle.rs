use vstd::prelude::*;

use crate::actor_map::ActorMap;
use crate::ids::{ActorId, ReservationId, zero_actor};
use crate::random::{power_of, random_value_of, spec_power, spec_random_value, MAX_POWER};
use crate::types::{
    color, color_name, BattleError, BattleEvent, BattleState, Command, Context, Pair, PairId, PairView,
    Player, PlayerView, COLOR_COUNT, HEALTH, MAX_PARTICIPANTS,
};

verus! {

/// The contract's state.
pub struct Battle {
    pub admin: ActorId,
    /// Every tamagotchi ever registered, by id.
    pub players: ActorMap<Player>,
    /// The tamagotchis waiting for the next round (registered ones, winners, a bye).
    pub players_ids: Vec<ActorId>,
    pub state: BattleState,
    pub current_winner: ActorId,
    /// The fights of the current round; a fight's id is its position.
    pub pairs: Vec<Pair>,
    /// For each owner, the ids of the fights of its tamagotchis.
    pub players_to_pairs: ActorMap<Vec<PairId>>,
    /// How many fights of the current round are over.
    pub completed_games: u8,
    /// Each tamagotchi's gas reservation, spent when it misses a move.
    pub reservations: ActorMap<ReservationId>,
}

pub struct BattleView {
    pub admin: ActorId,
    pub players: Map<ActorId, PlayerView>,
    pub players_ids: Seq<ActorId>,
    pub state: BattleState,
    pub current_winner: ActorId,
    pub pairs: Seq<PairView>,
    pub players_to_pairs: Map<ActorId, Seq<PairId>>,
    pub completed_games: u8,
    pub reservations: Map<ActorId, ReservationId>,
}

impl View for Battle {
    type V = BattleView;

    open spec fn view(&self) -> BattleView {
        BattleView {
            admin: self.admin,
            players: self.players@,
            players_ids: self.players_ids@,
            state: self.state,
            current_winner: self.current_winner,
            pairs: self.pairs@.map_values(|p: Pair| p@),
            players_to_pairs: self.players_to_pairs@,
            completed_games: self.completed_games,
            reservations: self.reservations@,
        }
    }
}

/// How many fights in `pairs` are over.
pub open spec fn count_over(pairs: Seq<PairView>) -> nat
    decreases pairs.len(),
{
    if pairs.len() == 0 {
        0
    } else {
        count_over(pairs.drop_last()) + if pairs.last().game_is_over { 1nat } else { 0nat }
    }
}

/// A player's fighting values are consistent.
pub open spec fn player_wf(k: ActorId, p: PlayerView) -> bool {
    &&& p.tmg_id == k
    &&& p.power < MAX_POWER
    &&& p.power + p.defence == MAX_POWER
    &&& p.health <= HEALTH
}

/// A new tamagotchi: its power from the random value for its id, its colour
/// from a draw, full health and no victories.
pub open spec fn new_player(owner: ActorId, name: Seq<char>, date_of_birth: u64, tmg_id: ActorId, power_draw: Seq<u8>, color_draw: Seq<u8>) -> PlayerView {
    let power = spec_power(power_draw) as u16;
    PlayerView {
        owner,
        name,
        date_of_birth,
        tmg_id,
        defence: (MAX_POWER - power) as u16,
        power,
        health: HEALTH,
        color: color_name(spec_random_value(COLOR_COUNT, color_draw)),
        victories: 0,
    }
}

impl BattleView {
    /// The invariant that every step keeps.
    pub open spec fn wf(self) -> bool {
        &&& forall|i: int| 0 <= i < self.players_ids.len() ==> self.players.contains_key(#[trigger] self.players_ids[i])
        &&& self.pairs.len() <= 255
        &&& forall|i: int| 0 <= i < self.pairs.len() ==> {
            &&& (#[trigger] self.pairs[i]).wf()
            &&& self.players.contains_key(self.pairs[i].tmg_ids[0])
            &&& self.players.contains_key(self.pairs[i].tmg_ids[1])
        }
        &&& self.completed_games == count_over(self.pairs)
        &&& forall|k: ActorId| #[trigger] self.players.contains_key(k) ==> player_wf(k, self.players[k])
    }

    /// The state right after the contract is created by `admin`.
    pub open spec fn initial(admin: ActorId) -> BattleView {
        BattleView {
            admin,
            players: Map::empty(),
            players_ids: Seq::empty(),
            state: BattleState::Registration,
            current_winner: zero_actor(),
            pairs: Seq::empty(),
            players_to_pairs: Map::empty(),
            completed_games: 0,
            reservations: Map::empty(),
        }
    }

    /// Registration reopened: no entrants, fights or winner; players and
    /// reservations are kept.
    pub open spec fn registration_started(self) -> BattleView {
        BattleView {
            state: BattleState::Registration,
            current_winner: zero_actor(),
            players_ids: Seq::empty(),
            completed_games: 0,
            players_to_pairs: Map::empty(),
            pairs: Seq::empty(),
            ..self
        }
    }

    /// Tamagotchi `tmg_id` registered: a known one gets full health back, a new
    /// one is created; it joins the entrants and gets `reservation`.
    pub open spec fn registered(self, tmg_id: ActorId, owner: ActorId, name: Seq<char>, date_of_birth: u64, reservation: ReservationId, power_draw: Seq<u8>, color_draw: Seq<u8>) -> BattleView {
        let player = if self.players.contains_key(tmg_id) {
            self.players[tmg_id].with_health(HEALTH)
        } else {
            new_player(owner, name, date_of_birth, tmg_id, power_draw, color_draw)
        };
        BattleView {
            players: self.players.insert(tmg_id, player),
            players_ids: self.players_ids.push(tmg_id),
            reservations: self.reservations.insert(tmg_id, reservation),
            ..self
        }
    }
}

/// The random value for a new tamagotchi's power, if given.
pub open spec fn fresh_power_draw(fresh: Option<([u8; 32], [u8; 32])>) -> Seq<u8> {
    match fresh {
        Some((p, _)) => p@,
        None => Seq::empty(),
    }
}

/// The random value for a new tamagotchi's colour, if given.
pub open spec fn fresh_color_draw(fresh: Option<([u8; 32], [u8; 32])>) -> Seq<u8> {
    match fresh {
        Some((_, c)) => c@,
        None => Seq::empty(),
    }
}

fn contains_id(v: &Vec<ActorId>, id: &ActorId) -> (r: bool)
    ensures
        r == v@.contains(*id),
{
    let mut i: usize = 0;
    while i < v.len()
        invariant
            i <= v@.len(),
            forall|j: int| 0 <= j < i ==> v@[j] != *id,
        decreases v@.len() - i,
    {
        if v[i] == *id {
            assert(v@[i as int] == *id);
            return true;
        }
        i = i + 1;
    }
    false
}

impl Battle {
    /// The contract as created by `admin`.
    pub fn new(admin: ActorId) -> (b: Battle)
        ensures
            b@ == BattleView::initial(admin),
            b@.wf(),
    {
        let b = Battle {
            admin,
            players: ActorMap::new(),
            players_ids: Vec::new(),
            state: BattleState::Registration,
            current_winner: ActorId::zero(),
            pairs: Vec::new(),
            players_to_pairs: ActorMap::new(),
            completed_games: 0,
            reservations: ActorMap::new(),
        };
        assert(b@.pairs =~= Seq::<PairView>::empty());
        b
    }

    /// Opens registration for a new game, once the previous one is over.
    pub fn start_registration(&mut self) -> (r: Result<Vec<Command>, BattleError>)
        requires
            old(self)@.wf(),
        ensures
            final(self)@.wf(),
            (match r {
                Ok(cmds) => old(self)@.state == BattleState::GameIsOver
                    && final(self)@ == old(self)@.registration_started()
                    && cmds@ == seq![Command::Reply(BattleEvent::RegistrationStarted)],
                Err(e) => old(self)@.state != BattleState::GameIsOver
                    && e == BattleError::PreviousGameNotOver
                    && final(self)@ == old(self)@,
            }),
    {
        if self.state != BattleState::GameIsOver {
            return Err(BattleError::PreviousGameNotOver);
        }
        self.state = BattleState::Registration;
        self.current_winner = ActorId::zero();
        self.players_ids = Vec::new();
        self.completed_games = 0;
        self.players_to_pairs = ActorMap::new();
        self.pairs = Vec::new();
        assert(self@.pairs =~= Seq::<PairView>::empty());
        assert(self@ =~= old(self)@.registration_started());
        let mut cmds: Vec<Command> = Vec::new();
        cmds.push(Command::Reply(BattleEvent::RegistrationStarted));
        Ok(cmds)
    }

    /// Hands the admin role to `new_admin`; only the admin may.
    pub fn update_admin(&mut self, ctx: &Context, new_admin: &ActorId) -> (r: Result<Vec<Command>, BattleError>)
        requires
            old(self)@.wf(),
        ensures
            final(self)@.wf(),
            (match r {
                Ok(cmds) => old(self)@.admin == ctx.source
                    && final(self)@ == (BattleView { admin: *new_admin, ..old(self)@ })
                    && cmds@ == seq![Command::Reply(BattleEvent::AdminUpdated)],
                Err(e) => old(self)@.admin != ctx.source && e == BattleError::NotAdmin
                    && final(self)@ == old(self)@,
            }),
    {
        if self.admin != ctx.source {
            return Err(BattleError::NotAdmin);
        }
        self.admin = *new_admin;
        let mut cmds: Vec<Command> = Vec::new();
        cmds.push(Command::Reply(BattleEvent::AdminUpdated));
        Ok(cmds)
    }

    /// The checks made on a registration before the tamagotchi is asked for
    /// its owner: registration is open, the limit is not reached, and the
    /// tamagotchi is not entered yet.
    pub fn check_registration(&self, tmg_id: &ActorId) -> (r: Result<(), BattleError>)
        ensures
            r == (if self@.state != BattleState::Registration {
                Err(BattleError::NotRegistrationStage)
            } else if self@.players_ids.len() >= MAX_PARTICIPANTS {
                Err(BattleError::MaxPlayersReached)
            } else if self@.players_ids.contains(*tmg_id) {
                Err(BattleError::AlreadyInGame)
            } else {
                Ok(())
            }),
    {
        if self.state != BattleState::Registration {
            return Err(BattleError::NotRegistrationStage);
        }
        if self.players_ids.len() >= MAX_PARTICIPANTS as usize {
            return Err(BattleError::MaxPlayersReached);
        }
        if contains_id(&self.players_ids, tmg_id) {
            return Err(BattleError::AlreadyInGame);
        }
        Ok(())
    }

    /// Whether registering `tmg_id` creates a new player, which takes the two
    /// random values that `register` asks for.
    pub fn is_new_tamagotchi(&self, tmg_id: &ActorId) -> (r: bool)
        ensures
            r == !self@.players.contains_key(*tmg_id),
    {
        !self.players.contains_key(tmg_id)
    }

    /// Completes the registration of `tmg_id`, whose tamagotchi reported
    /// `info` (owner, name, date of birth). `reservation` is the gas reserved
    /// for it; for a new tamagotchi `fresh` holds the random values for its
    /// power (drawn for its id) and for its colour.
    pub fn register_with(
        &mut self,
        ctx: &Context,
        tmg_id: &ActorId,
        info: (ActorId, String, u64),
        reservation: ReservationId,
        fresh: Option<([u8; 32], [u8; 32])>,
    ) -> (r: Result<Vec<Command>, BattleError>)
        requires
            old(self)@.wf(),
            !old(self)@.players.contains_key(*tmg_id) ==> fresh is Some,
        ensures
            final(self)@.wf(),
            (match r {
                Ok(cmds) => info.0 == ctx.source
                    && (old(self)@.players_ids.len() + 1) % 256 != MAX_PARTICIPANTS as int
                    && final(self)@ == old(self)@.registered(*tmg_id, info.0, info.1@, info.2, reservation,
                        fresh_power_draw(fresh), fresh_color_draw(fresh))
                    && cmds@ == seq![Command::Reply(BattleEvent::Registered { tmg_id: *tmg_id })],
                Err(e) => final(self)@ == old(self)@ && if info.0 != ctx.source {
                    e == BattleError::NotYourTamagotchi
                } else {
                    (old(self)@.players_ids.len() + 1) % 256 == MAX_PARTICIPANTS as int
                        && e == BattleError::MaxParticipantsReached
                },
            }),
    {
        let (owner, name, date_of_birth) = info;
        if owner != ctx.source {
            return Err(BattleError::NotYourTamagotchi);
        }
        if (self.players_ids.len() % 256) + 1 == MAX_PARTICIPANTS as usize {
            return Err(BattleError::MaxParticipantsReached);
        }
        let ghost pre = self@;
        match self.players.remove(tmg_id) {
            Some(mut player) => {
                player.health = HEALTH;
                self.players.insert(*tmg_id, player);
                assert(self@.players =~= pre.players.insert(*tmg_id, pre.players[*tmg_id].with_health(HEALTH)));
            },
            None => {
                let (power_draw, color_draw) = match fresh {
                    Some(f) => f,
                    None => {
                        assert(false);
                        ([0u8; 32], [0u8; 32])
                    },
                };
                let power = power_of(&power_draw);
                let color_index = random_value_of(COLOR_COUNT, &color_draw);
                let player = Player {
                    owner,
                    name,
                    date_of_birth,
                    tmg_id: *tmg_id,
                    defence: MAX_POWER - power,
                    power,
                    health: HEALTH,
                    color: color(color_index),
                    victories: 0,
                };
                self.players.insert(*tmg_id, player);
                assert(self@.players =~= pre.players.insert(*tmg_id, new_player(owner, info.1@, date_of_birth, *tmg_id, power_draw@, color_draw@)));
            },
        }
        self.players_ids.push(*tmg_id);
        self.reservations.insert(*tmg_id, reservation);
        assert(self@ =~= pre.registered(*tmg_id, info.0, info.1@, info.2, reservation,
            fresh_power_draw(fresh), fresh_color_draw(fresh)));
        let mut cmds: Vec<Command> = Vec::new();
        cmds.push(Command::Reply(BattleEvent::Registered { tmg_id: *tmg_id }));
        Ok(cmds)
    }
}

} // verus!
