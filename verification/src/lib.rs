//! Core of a tick-driven, multi-client game server played on a toroidal grid.
//!
//! The crate holds the world model, the event scheduler, the command grammars
//! and the wire encodings. Every function carries a contract that is proved.
pub mod cell;
pub mod connection;
pub mod constant;
pub mod egg;
pub mod event;
pub mod formater;
pub mod handler;
pub mod map;
pub mod observer;
pub mod player;
pub mod protocol;
pub mod random;
pub mod resources;
pub mod server;
pub mod sound;
pub mod team;
pub mod text;
pub mod vec2;
