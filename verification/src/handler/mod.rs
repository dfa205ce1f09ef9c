//! The command grammars of the three kinds of connection, and how each kind spells
//! the answers of the server.
pub mod ai;
pub mod command;
pub mod graphics;
pub mod login;
