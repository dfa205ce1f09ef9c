//! The world and its rules: what the server does with each request and on each tick.
pub mod actions;
pub mod config;
pub mod incantation;
pub mod laws;
pub mod requests;
pub mod tick;
pub mod world;

pub use self::config::ServerConfig;
pub use self::world::Server;
