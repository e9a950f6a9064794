use vstd::prelude::*;

use crate::ids::{ActorId, MessageId, ReservationId, zero_actor, zero_message};

verus! {

/// Health of a tamagotchi at the start of each fight.
pub const HEALTH: u16 = 2_500;
/// Registration closes below this number of participants.
pub const MAX_PARTICIPANTS: u8 = 50;
/// After this many rounds a fight is decided by health.
pub const MAX_STEPS_IN_ROUND: u8 = 5;
/// Seconds a player has for a move.
pub const TIME_FOR_MOVE: u32 = 60;
/// Gas attached to the delayed check after a move.
pub const GAS_AMOUNT: u64 = 10_000_000_000;
/// Gas reserved for a player at registration.
pub const RESERVATION_AMOUNT: u64 = 200_000_000_000;
/// Blocks a reservation lasts.
pub const RESERVATION_DURATION: u32 = 86_400;
/// Milliseconds a player has for a move.
pub const MOVE_WINDOW_MS: u64 = 60_000;
/// Blocks after which the delayed move check arrives.
pub const CHECK_DELAY: u32 = 61;
/// Number of tamagotchi colours.
pub const COLOR_COUNT: u8 = 6;

/// Identifies a fight between two tamagotchis.
pub type PairId = u8;

#[derive(Clone, Copy, Debug, PartialEq, Eq, Structural)]
pub enum Move {
    Attack,
    Defence,
}

#[derive(Clone, Copy, Debug, PartialEq, Eq, Structural)]
pub enum BattleState {
    Registration,
    GameIsOn,
    WaitNextRound,
    GameIsOver,
}

/// A registered tamagotchi.
#[derive(Debug)]
pub struct Player {
    pub owner: ActorId,
    pub name: String,
    pub date_of_birth: u64,
    pub tmg_id: ActorId,
    pub defence: u16,
    pub power: u16,
    pub health: u16,
    pub color: String,
    pub victories: u32,
}

pub struct PlayerView {
    pub owner: ActorId,
    pub name: Seq<char>,
    pub date_of_birth: u64,
    pub tmg_id: ActorId,
    pub defence: u16,
    pub power: u16,
    pub health: u16,
    pub color: Seq<char>,
    pub victories: u32,
}

impl View for Player {
    type V = PlayerView;

    open spec fn view(&self) -> PlayerView {
        PlayerView {
            owner: self.owner,
            name: self.name@,
            date_of_birth: self.date_of_birth,
            tmg_id: self.tmg_id,
            defence: self.defence,
            power: self.power,
            health: self.health,
            color: self.color@,
            victories: self.victories,
        }
    }
}

impl PlayerView {
    pub open spec fn with_health(self, health: u16) -> PlayerView {
        PlayerView { health, ..self }
    }

    /// The player of all-zero fields and empty strings.
    pub open spec fn empty() -> PlayerView {
        PlayerView {
            owner: zero_actor(),
            name: Seq::empty(),
            date_of_birth: 0,
            tmg_id: zero_actor(),
            defence: 0,
            power: 0,
            health: 0,
            color: Seq::empty(),
            victories: 0,
        }
    }
}

impl Player {
    /// A copy of the player.
    pub fn duplicate(&self) -> (p: Player)
        ensures
            p@ == self@,
    {
        Player {
            owner: self.owner,
            name: self.name.clone(),
            date_of_birth: self.date_of_birth,
            tmg_id: self.tmg_id,
            defence: self.defence,
            power: self.power,
            health: self.health,
            color: self.color.clone(),
            victories: self.victories,
        }
    }

    /// The player of all-zero fields and empty strings.
    pub fn empty() -> (p: Player)
        ensures
            p@ == PlayerView::empty(),
    {
        Player {
            owner: ActorId::zero(),
            name: String::new(),
            date_of_birth: 0,
            tmg_id: ActorId::zero(),
            defence: 0,
            power: 0,
            health: 0,
            color: String::new(),
            victories: 0,
        }
    }
}

/// A fight between two tamagotchis, the first of whom moves first in each round.
#[derive(Debug)]
pub struct Pair {
    pub owner_ids: Vec<ActorId>,
    pub tmg_ids: Vec<ActorId>,
    pub moves: Vec<Option<Move>>,
    pub rounds: u8,
    pub game_is_over: bool,
    pub winner: ActorId,
    pub move_deadline: u64,
    pub msg_id: MessageId,
}

pub struct PairView {
    pub owner_ids: Seq<ActorId>,
    pub tmg_ids: Seq<ActorId>,
    pub moves: Seq<Option<Move>>,
    pub rounds: u8,
    pub game_is_over: bool,
    pub winner: ActorId,
    pub move_deadline: u64,
    pub msg_id: MessageId,
}

impl View for Pair {
    type V = PairView;

    open spec fn view(&self) -> PairView {
        PairView {
            owner_ids: self.owner_ids@,
            tmg_ids: self.tmg_ids@,
            moves: self.moves@,
            rounds: self.rounds,
            game_is_over: self.game_is_over,
            winner: self.winner,
            move_deadline: self.move_deadline,
            msg_id: self.msg_id,
        }
    }
}

impl PairView {
    /// The pair of no owners, no tamagotchis and no moves.
    pub open spec fn empty() -> PairView {
        PairView {
            owner_ids: Seq::empty(),
            tmg_ids: Seq::empty(),
            moves: Seq::empty(),
            rounds: 0,
            game_is_over: false,
            winner: zero_actor(),
            move_deadline: 0,
            msg_id: zero_message(),
        }
    }

    /// A well-formed fight: two sides, and at most one move of the current round made.
    pub open spec fn wf(self) -> bool {
        &&& self.owner_ids.len() == 2
        &&& self.tmg_ids.len() == 2
        &&& self.moves.len() < 2
        &&& self.rounds <= MAX_STEPS_IN_ROUND
        &&& (self.rounds == MAX_STEPS_IN_ROUND ==> self.game_is_over)
        &&& (self.game_is_over ==> self.moves.len() == 0)
    }
}

fn copy_ids(v: &Vec<ActorId>) -> (r: Vec<ActorId>)
    ensures
        r@ == v@,
{
    let mut r: Vec<ActorId> = Vec::new();
    let mut i: usize = 0;
    while i < v.len()
        invariant
            i <= v@.len(),
            r@ == v@.subrange(0, i as int),
        decreases v@.len() - i,
    {
        r.push(v[i]);
        i = i + 1;
        assert(r@ =~= v@.subrange(0, i as int));
    }
    assert(v@.subrange(0, v@.len() as int) =~= v@);
    r
}

fn copy_moves(v: &Vec<Option<Move>>) -> (r: Vec<Option<Move>>)
    ensures
        r@ == v@,
{
    let mut r: Vec<Option<Move>> = Vec::new();
    let mut i: usize = 0;
    while i < v.len()
        invariant
            i <= v@.len(),
            r@ == v@.subrange(0, i as int),
        decreases v@.len() - i,
    {
        r.push(v[i]);
        i = i + 1;
        assert(r@ =~= v@.subrange(0, i as int));
    }
    assert(v@.subrange(0, v@.len() as int) =~= v@);
    r
}

impl Pair {
    /// A copy of the pair.
    pub fn duplicate(&self) -> (p: Pair)
        ensures
            p@ == self@,
    {
        Pair {
            owner_ids: copy_ids(&self.owner_ids),
            tmg_ids: copy_ids(&self.tmg_ids),
            moves: copy_moves(&self.moves),
            rounds: self.rounds,
            game_is_over: self.game_is_over,
            winner: self.winner,
            move_deadline: self.move_deadline,
            msg_id: self.msg_id,
        }
    }

    /// The pair of no owners, no tamagotchis and no moves.
    pub fn empty() -> (p: Pair)
        ensures
            p@ == PairView::empty(),
    {
        Pair {
            owner_ids: Vec::new(),
            tmg_ids: Vec::new(),
            moves: Vec::new(),
            rounds: 0,
            game_is_over: false,
            winner: ActorId::zero(),
            move_deadline: 0,
            msg_id: MessageId::zero(),
        }
    }
}

/// What the contract tells its callers.
#[derive(Clone, Copy, Debug, PartialEq, Eq)]
pub enum BattleEvent {
    RegistrationStarted,
    Registered { tmg_id: ActorId },
    MoveMade,
    BattleStarted,
    AdminUpdated,
    /// Pair, health lost by the first and by the second tamagotchi, and their moves.
    RoundResult((PairId, u16, u16, Option<Move>, Option<Move>)),
}

/// How the delayed move check is paid for.
#[derive(Clone, Copy, Debug, PartialEq, Eq, Structural)]
pub enum CheckFunding {
    /// Sent with no gas of its own.
    Plain,
    /// Sent with this much gas.
    Gas(u64),
    /// Sent from this gas reservation.
    Reservation(ReservationId),
}

/// A message that the contract sends as the outcome of a step.
#[derive(Clone, Copy, Debug, PartialEq, Eq)]
pub enum Command {
    /// Reply to the message being handled.
    Reply(BattleEvent),
    /// Send an event to an account.
    Send { to: ActorId, event: BattleEvent },
    /// Send `CheckIfMoveMade { pair_id, tmg_id }` to the contract itself after
    /// `delay` blocks; when `track` holds, the id of the sent message becomes
    /// the pair's `msg_id`.
    ScheduleCheck { pair_id: PairId, tmg_id: Option<ActorId>, funding: CheckFunding, delay: u32, track: bool },
}

/// Why a message is refused; a refused message changes nothing.
#[derive(Clone, Copy, Debug, PartialEq, Eq, Structural)]
pub enum BattleError {
    /// Registration can only start once the previous game is over.
    PreviousGameNotOver,
    /// Registration is closed.
    NotRegistrationStage,
    /// The participant limit is reached.
    MaxPlayersReached,
    /// The tamagotchi is registered already.
    AlreadyInGame,
    /// The sender does not own the tamagotchi.
    NotYourTamagotchi,
    /// Registering would reach the participant limit.
    MaxParticipantsReached,
    /// Some fight of the current battle is still going on.
    BattleNotOver,
    /// Only the admin may do this.
    NotAdmin,
    /// A single tamagotchi cannot be paired.
    LonePlayer,
    /// Moves are only taken while the game is on.
    GameNotOn,
    /// The sender has no fights.
    NoGames,
    /// The fight is not the sender's.
    NotYourGame,
    /// Only the contract itself or the admin may check moves.
    NotProgramOrAdmin,
    /// There is no such fight.
    PairDoesNotExist,
    /// The fight is over.
    PairGameOver,
    /// The other side is to move.
    NotYourTurn,
}

/// What the runtime tells the contract about the message being handled.
#[derive(Clone, Copy, Debug)]
pub struct Context {
    /// The sender.
    pub source: ActorId,
    /// The contract's own id.
    pub program_id: ActorId,
    /// The id of the message being handled.
    pub message_id: MessageId,
    /// The block's timestamp, in milliseconds.
    pub block_timestamp: u64,
    /// Gas left for the message.
    pub gas_available: u64,
}

impl Context {
    /// The timestamp leaves room for a move window after it.
    pub open spec fn wf(self) -> bool {
        self.block_timestamp <= u64::MAX - MOVE_WINDOW_MS
    }
}

/// The name of colour `i`.
pub open spec fn color_name(i: int) -> Seq<char> {
    if i == 0 {
        "Green"@
    } else if i == 1 {
        "Red"@
    } else if i == 2 {
        "Blue"@
    } else if i == 3 {
        "Purple"@
    } else if i == 4 {
        "Orange"@
    } else {
        "Yellow"@
    }
}

/// The name of colour `i`, for `i` below `COLOR_COUNT`.
pub fn color(i: u8) -> (c: String)
    requires
        i < COLOR_COUNT,
    ensures
        c@ == color_name(i as int),
{
    if i == 0 {
        "Green".to_owned()
    } else if i == 1 {
        "Red".to_owned()
    } else if i == 2 {
        "Blue".to_owned()
    } else if i == 3 {
        "Purple".to_owned()
    } else if i == 4 {
        "Orange".to_owned()
    } else {
        "Yellow".to_owned()
    }
}

} // verus!
