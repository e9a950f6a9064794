use tamagotchi_battle::battle::Battle;
use tamagotchi_battle::combat::resolve_battle;
use tamagotchi_battle::ids::{ActorId, MessageId, ReservationId};
use tamagotchi_battle::pairing::pairing_draws;
use tamagotchi_battle::queries::Metawasm;
use tamagotchi_battle::random::{damage_of, power_of, random_value_of, RandomSeed};
use tamagotchi_battle::types::{
    BattleError, BattleEvent, BattleState, CheckFunding, Command, Context, Move, Player, HEALTH,
};

fn actor(n: u64) -> ActorId {
    ActorId { w0: n, w1: 0, w2: 0, w3: 0 }
}

fn reservation(n: u64) -> ReservationId {
    ReservationId { w0: n, w1: 0, w2: 0, w3: 0 }
}

fn message(n: u64) -> MessageId {
    MessageId { w0: n, w1: 0, w2: 0, w3: 0 }
}

const ADMIN: u64 = 1;
const PROGRAM: u64 = 2;
const OWNER_A: u64 = 10;
const OWNER_B: u64 = 11;
const TMG_A: u64 = 20;
const TMG_B: u64 = 21;

fn ctx(source: u64, timestamp: u64) -> Context {
    Context {
        source: actor(source),
        program_id: actor(PROGRAM),
        message_id: message(99),
        block_timestamp: timestamp,
        gas_available: 0,
    }
}

/// A random value whose first two bytes read, big-endian, as `v`.
fn random_with(v: u16) -> [u8; 32] {
    let mut r = [0u8; 32];
    r[0] = (v >> 8) as u8;
    r[1] = (v & 0xff) as u8;
    r
}

fn player(power: u16, health: u16) -> Player {
    Player {
        owner: actor(OWNER_A),
        name: "t".to_string(),
        date_of_birth: 0,
        tmg_id: actor(TMG_A),
        defence: 10_000 - power,
        power,
        health,
        color: "Red".to_string(),
        victories: 0,
    }
}

fn register(b: &mut Battle, owner: u64, tmg: u64, power: u16, res: u64) {
    let id = actor(tmg);
    assert_eq!(b.check_registration(&id), Ok(()));
    let fresh = if b.is_new_tamagotchi(&id) { Some((random_with(power), [1u8; 32])) } else { None };
    let cmds = b
        .register_with(&ctx(owner, 0), &id, (actor(owner), format!("tmg{}", tmg), 7), reservation(res), fresh)
        .unwrap();
    assert_eq!(cmds, vec![Command::Reply(BattleEvent::Registered { tmg_id: id })]);
}

/// Two registered tamagotchis: A (power 6000) and B (power 3000), paired in
/// fight 0 with A moving first.
fn started_battle() -> Battle {
    let mut b = Battle::new(actor(ADMIN));
    register(&mut b, OWNER_A, TMG_A, 6000, 100);
    register(&mut b, OWNER_B, TMG_B, 3000, 101);
    assert_eq!(pairing_draws(2), 2);
    let cmds = b.start_battle_with(&ctx(ADMIN, 1000), &vec![[0u8; 32], [0u8; 32]]).unwrap();
    assert_eq!(
        cmds,
        vec![
            Command::ScheduleCheck { pair_id: 0, tmg_id: None, funding: CheckFunding::Plain, delay: 61, track: true },
            Command::Reply(BattleEvent::BattleStarted),
        ]
    );
    b
}

fn powers() -> ([u8; 32], [u8; 32]) {
    (random_with(6000), random_with(3000))
}

#[test]
fn random_value_picks_by_first_byte() {
    assert_eq!(random_value_of(0, &[13u8; 32]), 0);
    assert_eq!(random_value_of(6, &[13u8; 32]), 1);
    assert_eq!(random_value_of(5, &[7u8; 32]), 2);
}

#[test]
fn damage_reads_two_bytes_below_500() {
    assert_eq!(damage_of(&random_with(258)), 258);
    assert_eq!(damage_of(&random_with(1234)), 234);
    assert_eq!(damage_of(&[0xffu8; 32]), 65535 % 500);
}

#[test]
fn power_takes_first_candidate_in_range() {
    let mut r = [0u8; 32];
    r[1] = 19;
    r[2] = 136;
    // candidates: 19, then 19 * 256 + 136 = 5000
    assert_eq!(power_of(&r), 5000);
    assert_eq!(power_of(&random_with(6000)), 6000);
    assert_eq!(power_of(&random_with(13000)), 3000);
}

#[test]
fn power_falls_back_to_last_candidate() {
    assert_eq!(power_of(&[0u8; 32]), 0);
    let mut r = [0u8; 32];
    r[30] = 0;
    r[31] = 5;
    assert_eq!(power_of(&r), 5);
}

#[test]
fn seed_advances_and_wraps() {
    let mut seed = RandomSeed::new();
    assert_eq!(seed.next_subject(), [0u8; 32]);
    assert_eq!(seed.next_subject(), [1u8; 32]);
    seed.value = 255;
    assert_eq!(seed.next_subject(), [255u8; 32]);
    assert_eq!(seed.value, 0);
    assert_eq!(seed.subject_for_range(0), None);
    assert_eq!(seed.value, 0);
    assert_eq!(seed.subject_for_range(4), Some([0u8; 32]));
    assert_eq!(seed.value, 1);
}

#[test]
fn both_attack() {
    let mut ps = vec![player(6000, 2500), player(3000, 2500)];
    let r = resolve_battle(&mut ps, &vec![Some(Move::Attack), Some(Move::Attack)], &vec![]);
    assert_eq!(r, (None, 500, 1000));
    assert_eq!(ps[0].health, 2000);
    assert_eq!(ps[1].health, 1500);
}

#[test]
fn first_strike_wins_before_counter() {
    let mut ps = vec![player(6000, 100), player(3000, 900)];
    let r = resolve_battle(&mut ps, &vec![Some(Move::Attack), Some(Move::Attack)], &vec![]);
    assert_eq!(r, (Some(0), 0, 900));
    assert_eq!(ps[0].health, 100);
    assert_eq!(ps[1].health, 0);
}

#[test]
fn attack_against_stronger_defence_does_nothing() {
    let mut ps = vec![player(6000, 2500), player(3000, 2500)];
    let r = resolve_battle(&mut ps, &vec![Some(Move::Attack), Some(Move::Defence)], &vec![]);
    assert_eq!(r, (None, 0, 0));
    let mut ps = vec![player(9000, 2500), player(3000, 2500)];
    // 9000 - 7000 = 2000, a sixth of it is 333
    let r = resolve_battle(&mut ps, &vec![Some(Move::Attack), Some(Move::Defence)], &vec![]);
    assert_eq!(r, (None, 0, 333));
    assert_eq!(ps[1].health, 2167);
}

#[test]
fn skipped_moves_cost_penalties() {
    let mut ps = vec![player(6000, 2500), player(3000, 2500)];
    let r = resolve_battle(&mut ps, &vec![None, None], &vec![random_with(258), random_with(100)]);
    assert_eq!(r, (None, 258, 100));
    assert_eq!((ps[0].health, ps[1].health), (2242, 2400));
    let mut ps = vec![player(6000, 2500), player(3000, 2500)];
    let r = resolve_battle(&mut ps, &vec![Some(Move::Attack), None], &vec![random_with(258)]);
    assert_eq!(r, (None, 0, 1258));
    assert_eq!(ps[1].health, 1242);
    let mut ps = vec![player(6000, 2500), player(3000, 100)];
    let r = resolve_battle(&mut ps, &vec![Some(Move::Defence), None], &vec![random_with(300)]);
    // the reported loss is the penalty even though less health was left
    assert_eq!(r, (Some(0), 0, 300));
    assert_eq!(ps[1].health, 0);
}

#[test]
fn both_defend() {
    let mut ps = vec![player(6000, 2500), player(3000, 2500)];
    let r = resolve_battle(&mut ps, &vec![Some(Move::Defence), Some(Move::Defence)], &vec![]);
    assert_eq!(r, (None, 0, 0));
    assert_eq!((ps[0].health, ps[1].health), (2500, 2500));
}

#[test]
fn new_battle_is_open_for_registration() {
    let b = Battle::new(actor(ADMIN));
    assert_eq!(b.state, BattleState::Registration);
    assert_eq!(b.admin, actor(ADMIN));
    assert!(b.players_ids.is_empty());
    assert!(b.pairs.is_empty());
}

#[test]
fn registration_creates_player() {
    let mut b = Battle::new(actor(ADMIN));
    register(&mut b, OWNER_A, TMG_A, 6000, 100);
    let p = b.players.get(&actor(TMG_A)).unwrap();
    assert_eq!(p.owner, actor(OWNER_A));
    assert_eq!(p.name, "tmg20");
    assert_eq!(p.date_of_birth, 7);
    assert_eq!((p.power, p.defence, p.health, p.victories), (6000, 4000, HEALTH, 0));
    // colour draw [1; 32] picks 1 % 6 = 1
    assert_eq!(p.color, "Red");
    assert_eq!(b.players_ids, vec![actor(TMG_A)]);
    assert_eq!(b.reservations.get(&actor(TMG_A)), Some(&reservation(100)));
    assert_eq!(b.check_registration(&actor(TMG_A)), Err(BattleError::AlreadyInGame));
}

#[test]
fn registration_refusals() {
    let mut b = Battle::new(actor(ADMIN));
    let r = b.register_with(&ctx(OWNER_B, 0), &actor(TMG_A), (actor(OWNER_A), "x".to_string(), 0), reservation(1), Some(([0u8; 32], [0u8; 32])));
    assert_eq!(r, Err(BattleError::NotYourTamagotchi));
    assert!(b.players_ids.is_empty());
    assert!(!b.players.contains_key(&actor(TMG_A)));
    for i in 0..49u64 {
        register(&mut b, 1000 + i, 2000 + i, 5000, i);
    }
    assert_eq!(b.players_ids.len(), 49);
    let r = b.register_with(&ctx(OWNER_A, 0), &actor(TMG_A), (actor(OWNER_A), "x".to_string(), 0), reservation(1), Some(([0u8; 32], [0u8; 32])));
    assert_eq!(r, Err(BattleError::MaxParticipantsReached));
    assert_eq!(b.players_ids.len(), 49);
    assert_eq!(b.start_registration(), Err(BattleError::PreviousGameNotOver));
}

#[test]
fn registration_closed_while_game_is_on() {
    let b = started_battle();
    assert_eq!(b.check_registration(&actor(77)), Err(BattleError::NotRegistrationStage));
}

#[test]
fn start_battle_pairs_players() {
    let b = started_battle();
    assert_eq!(b.state, BattleState::GameIsOn);
    assert_eq!(b.pairs.len(), 1);
    let p = &b.pairs[0];
    assert_eq!(p.owner_ids, vec![actor(OWNER_A), actor(OWNER_B)]);
    assert_eq!(p.tmg_ids, vec![actor(TMG_A), actor(TMG_B)]);
    assert_eq!(p.move_deadline, 61_000);
    assert!(b.players_ids.is_empty());
    assert_eq!(b.players_to_pairs.get(&actor(OWNER_A)), Some(&vec![0u8]));
    assert_eq!(b.players_to_pairs.get(&actor(OWNER_B)), Some(&vec![0u8]));
}

#[test]
fn start_battle_refusals() {
    let mut b = Battle::new(actor(ADMIN));
    register(&mut b, OWNER_A, TMG_A, 6000, 100);
    assert_eq!(b.start_battle_with(&ctx(OWNER_A, 0), &vec![]), Err(BattleError::NotAdmin));
    assert_eq!(b.start_battle_with(&ctx(ADMIN, 0), &vec![[0u8; 32]]), Err(BattleError::LonePlayer));
    assert_eq!(b.state, BattleState::Registration);
    let mut b = started_battle();
    assert_eq!(b.start_battle_with(&ctx(ADMIN, 0), &vec![]), Err(BattleError::BattleNotOver));
}

#[test]
fn pairing_keeps_everyone_once() {
    let mut b = Battle::new(actor(ADMIN));
    for i in 0..5u64 {
        register(&mut b, 100 + i, 200 + i, 5000, i);
    }
    let n = pairing_draws(5);
    assert_eq!(n, 4);
    let draws: Vec<[u8; 32]> = (0..n).map(|k| [(3 * k + 1) as u8; 32]).collect();
    b.start_battle_with(&ctx(ADMIN, 0), &draws).unwrap();
    assert_eq!(b.pairs.len(), 2);
    assert_eq!(b.players_ids.len(), 1);
    let mut seen: Vec<u64> = b.players_ids.iter().map(|a| a.w0).collect();
    for p in &b.pairs {
        seen.extend(p.tmg_ids.iter().map(|a| a.w0));
    }
    seen.sort();
    assert_eq!(seen, vec![200, 201, 202, 203, 204]);
    // draws: 1 % 5 = 1 -> 201; 4 % 4 = 0 -> 200; 7 % 3 = 1 -> 203; 10 % 2 = 0 -> 202
    assert_eq!(b.pairs[0].tmg_ids, vec![actor(201), actor(200)]);
    assert_eq!(b.pairs[1].tmg_ids, vec![actor(203), actor(202)]);
    assert_eq!(b.players_ids, vec![actor(204)]);
}

#[test]
fn first_move_schedules_check() {
    let mut b = started_battle();
    let cmds = b.make_move_with(&ctx(OWNER_A, 5000), 0, Move::Attack, &vec![], &powers()).unwrap();
    assert_eq!(
        cmds,
        vec![
            Command::ScheduleCheck { pair_id: 0, tmg_id: None, funding: CheckFunding::Gas(10_000_000_000), delay: 61, track: true },
            Command::Reply(BattleEvent::MoveMade),
        ]
    );
    assert_eq!(b.pairs[0].moves, vec![Some(Move::Attack)]);
    assert_eq!(b.pairs[0].move_deadline, 65_000);
}

#[test]
fn move_refusals() {
    let mut b = started_battle();
    assert_eq!(b.make_move_with(&ctx(OWNER_B, 0), 0, Move::Attack, &vec![], &powers()), Err(BattleError::NotYourTurn));
    assert_eq!(b.make_move_with(&ctx(77, 0), 0, Move::Attack, &vec![], &powers()), Err(BattleError::NoGames));
    assert_eq!(b.make_move_with(&ctx(OWNER_A, 0), 3, Move::Attack, &vec![], &powers()), Err(BattleError::NotYourGame));
    assert!(b.pairs[0].moves.is_empty());
    let mut fresh = Battle::new(actor(ADMIN));
    assert_eq!(fresh.make_move_with(&ctx(OWNER_A, 0), 0, Move::Attack, &vec![], &powers()), Err(BattleError::GameNotOn));
}

#[test]
fn fight_to_victory() {
    let mut b = started_battle();
    let p = powers();
    let mv = Some(Move::Attack);
    // round 1: A hits for 1000, B for 500
    b.make_move_with(&ctx(OWNER_A, 0), 0, Move::Attack, &vec![], &p).unwrap();
    let cmds = b.make_move_with(&ctx(OWNER_B, 0), 0, Move::Attack, &vec![], &p).unwrap();
    assert_eq!(cmds[0], Command::Send { to: actor(ADMIN), event: BattleEvent::RoundResult((0, 500, 1000, mv, mv)) });
    assert_eq!(b.pairs[0].rounds, 1);
    assert!(b.pairs[0].moves.is_empty());
    assert_eq!(Metawasm::power_and_health(actor(TMG_B), b), (3000, 1500));
    let mut b = started_battle();
    for _ in 0..2 {
        b.make_move_with(&ctx(OWNER_A, 0), 0, Move::Attack, &vec![], &p).unwrap();
        b.make_move_with(&ctx(OWNER_B, 0), 0, Move::Attack, &vec![], &p).unwrap();
    }
    b.make_move_with(&ctx(OWNER_A, 0), 0, Move::Attack, &vec![], &p).unwrap();
    let cmds = b.make_move_with(&ctx(OWNER_B, 0), 0, Move::Attack, &vec![], &p).unwrap();
    assert_eq!(
        cmds,
        vec![
            Command::Send { to: actor(ADMIN), event: BattleEvent::RoundResult((0, 0, 500, mv, mv)) },
            Command::Reply(BattleEvent::MoveMade),
        ]
    );
    assert!(b.pairs[0].game_is_over);
    assert_eq!(b.pairs[0].winner, actor(TMG_A));
    assert_eq!(b.completed_games, 1);
    assert_eq!(b.state, BattleState::GameIsOver);
    assert_eq!(b.current_winner, actor(TMG_A));
    assert_eq!(b.players_ids, vec![actor(TMG_A)]);
    assert_eq!(b.players.get(&actor(TMG_A)).unwrap().victories, 1);
    assert_eq!(b.make_move_with(&ctx(OWNER_A, 0), 0, Move::Attack, &vec![], &p), Err(BattleError::GameNotOn));
    assert_eq!(b.start_registration().unwrap(), vec![Command::Reply(BattleEvent::RegistrationStarted)]);
    assert_eq!(b.state, BattleState::Registration);
    assert!(b.pairs.is_empty());
    assert!(b.players_ids.is_empty());
    assert_eq!(b.current_winner, ActorId::zero());
}

#[test]
fn fifth_round_goes_to_healthier() {
    let mut b = started_battle();
    let p = powers();
    for _ in 0..4 {
        b.make_move_with(&ctx(OWNER_A, 0), 0, Move::Defence, &vec![], &p).unwrap();
        b.make_move_with(&ctx(OWNER_B, 0), 0, Move::Defence, &vec![], &p).unwrap();
    }
    assert!(!b.pairs[0].game_is_over);
    b.make_move_with(&ctx(OWNER_A, 0), 0, Move::Defence, &vec![], &p).unwrap();
    b.make_move_with(&ctx(OWNER_B, 0), 0, Move::Defence, &vec![], &p).unwrap();
    assert!(b.pairs[0].game_is_over);
    assert_eq!(b.pairs[0].rounds, 5);
    // equal health: the first side wins, the other drops to zero
    assert_eq!(b.pairs[0].winner, actor(TMG_A));
    assert_eq!(b.players.get(&actor(TMG_B)).unwrap().health, 0);
}

#[test]
fn check_spends_reservation_of_late_player() {
    let mut b = started_battle();
    b.record_check_message(0, message(5));
    assert_eq!(b.pairs[0].msg_id, message(5));
    // a check that is not the pair's latest does nothing
    let mut c = ctx(PROGRAM, 100_000);
    c.message_id = message(6);
    assert_eq!(b.check_plan(&c, 0, None), Ok((None, 0)));
    assert_eq!(b.check_if_move_made_with(&c, 0, None, None, &vec![], &powers()), Ok(vec![]));
    // an early check does nothing
    let mut c = ctx(PROGRAM, 1_000);
    c.message_id = message(5);
    assert_eq!(b.check_if_move_made_with(&c, 0, None, None, &vec![], &powers()), Ok(vec![]));
    // the latest check after the deadline: A missed its move
    let mut c = ctx(PROGRAM, 100_000);
    c.message_id = message(5);
    let cmds = b.check_if_move_made_with(&c, 0, None, None, &vec![], &powers()).unwrap();
    assert_eq!(
        cmds,
        vec![
            Command::ScheduleCheck {
                pair_id: 0,
                tmg_id: Some(actor(TMG_A)),
                funding: CheckFunding::Reservation(reservation(100)),
                delay: 61,
                track: true,
            },
            Command::Reply(BattleEvent::MoveMade),
        ]
    );
    assert_eq!(b.pairs[0].moves, vec![None]);
    assert_eq!(b.pairs[0].move_deadline, 160_000);
    assert!(!b.reservations.contains_key(&actor(TMG_A)));
}

#[test]
fn miss_without_reservation_costs_all_health() {
    let mut b = started_battle();
    b.reservations.remove(&actor(TMG_A));
    let c = ctx(ADMIN, 100_000);
    let cmds = b.check_if_move_made_with(&c, 0, None, None, &vec![], &powers()).unwrap();
    assert_eq!(cmds, vec![Command::Reply(BattleEvent::MoveMade)]);
    assert_eq!(b.players.get(&actor(TMG_A)).unwrap().health, 0);
    // B defends: A's miss costs a penalty and A, at zero health, loses
    assert_eq!(b.move_draws(0, Some(Move::Defence)), 1);
    let cmds = b.make_move_with(&ctx(OWNER_B, 0), 0, Move::Defence, &vec![random_with(42)], &powers()).unwrap();
    assert_eq!(
        cmds[0],
        Command::Send { to: actor(ADMIN), event: BattleEvent::RoundResult((0, 42, 0, None, Some(Move::Defence))) }
    );
    assert_eq!(b.pairs[0].winner, actor(TMG_B));
    assert_eq!(b.current_winner, actor(TMG_B));
}

#[test]
fn returned_gas_is_reserved_again() {
    let mut b = started_battle();
    let mut c = ctx(PROGRAM, 1_000);
    c.gas_available = 25_000_000_000;
    assert_eq!(b.check_plan(&c, 0, Some(actor(TMG_B))), Ok((Some(15_000_000_000), 0)));
    let r = b.check_if_move_made_with(&c, 0, Some(actor(TMG_B)), Some(reservation(555)), &vec![], &powers());
    assert_eq!(r, Ok(vec![]));
    assert_eq!(b.reservations.get(&actor(TMG_B)), Some(&reservation(555)));
}

#[test]
fn check_refusals() {
    let mut b = started_battle();
    assert_eq!(b.check_if_move_made_with(&ctx(OWNER_A, 0), 0, None, None, &vec![], &powers()), Err(BattleError::NotProgramOrAdmin));
    assert_eq!(b.check_if_move_made_with(&ctx(ADMIN, 0), 9, None, None, &vec![], &powers()), Err(BattleError::PairDoesNotExist));
}

#[test]
fn admin_update() {
    let mut b = Battle::new(actor(ADMIN));
    assert_eq!(b.update_admin(&ctx(OWNER_A, 0), &actor(OWNER_A)), Err(BattleError::NotAdmin));
    assert_eq!(b.admin, actor(ADMIN));
    assert_eq!(b.update_admin(&ctx(ADMIN, 0), &actor(OWNER_A)), Ok(vec![Command::Reply(BattleEvent::AdminUpdated)]));
    assert_eq!(b.admin, actor(OWNER_A));
}

#[test]
fn state_queries() {
    let b = started_battle();
    assert_eq!(Metawasm::battle_state(started_battle()), BattleState::GameIsOn);
    assert_eq!(Metawasm::pair_ids(started_battle()), vec![0u8]);
    assert_eq!(Metawasm::current_turn(0, started_battle()), actor(OWNER_A));
    assert_eq!(Metawasm::current_turn(4, started_battle()), ActorId::zero());
    assert!(!Metawasm::game_is_over(0, started_battle()));
    assert!(Metawasm::game_is_over(4, started_battle()));
    assert_eq!(Metawasm::pairs_for_player(actor(OWNER_B), started_battle()), vec![0u8]);
    assert!(Metawasm::pairs_for_player(actor(77), started_battle()).is_empty());
    assert!(Metawasm::tmg_ids(started_battle()).is_empty());
    assert_eq!(Metawasm::pair(0, started_battle()).tmg_ids, vec![actor(TMG_A), actor(TMG_B)]);
    assert!(Metawasm::pair(3, started_battle()).tmg_ids.is_empty());
    assert_eq!(Metawasm::player(actor(TMG_B), started_battle()).power, 3000);
    assert_eq!(Metawasm::player(actor(77), started_battle()).power, 0);
    assert_eq!(Metawasm::power_and_health(actor(TMG_A), b), (6000, HEALTH));
}
