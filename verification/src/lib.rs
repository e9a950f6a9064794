//! Verified core of a tamagotchi battle contract: registration, pairing,
//! turn-based combat and the state queries, as state transitions that take
//! the message context and the runtime's random values (drawn by the steps of
//! `runtime`, or given) and hand back the messages the contract has to send.

pub mod ids;
pub mod random;
pub mod actor_map;
pub mod types;
pub mod combat;
pub mod battle;
pub mod pairing;
pub mod moves;
pub mod queries;
pub mod runtime;
