//! A challenge agent's core for an optimistic rollup's dispute games: the
//! generalized-index algebra of the game tree, the fault-game player, and the
//! decisions taken on the settlement chain's events.

pub mod position;
pub mod encoding;
pub mod types;
pub mod game;
pub mod alphabet;
pub mod events;
pub mod output;
pub mod watcher;
pub mod state;
pub mod config;
