//! A rock-paper-scissors tournament engine: season lifecycle, signups,
//! rounds, random pairing, match resolution, scoring and announcements.

pub mod admin;
pub mod commands;
pub mod error;
pub mod hand;
pub mod leaderboard;
pub mod moves;
pub mod pairing;
pub mod parse;
pub mod phase;
pub mod registration;
pub mod resolver;
pub mod round;
pub mod scoring;
pub mod season;
pub mod store;
pub mod text;
