//! Sorting of Slippi replay files into two output folders: games with a
//! computer-controlled player, and low-damage "handwarmer" games.
//!
//! The library holds the decisions: which scanned paths are replays to look
//! at, how much damage a decoded game saw, where a game is routed and what
//! path a moved file gets. Walking the disk, decoding replays and moving files
//! are left to the caller.

pub mod config;
pub mod collect;
pub mod game;
pub mod damage;
pub mod classify;
pub mod relocate;
pub mod batch;
