//! A terminal client for a chess server: the session state, the commands the
//! user types, where each request goes, and how a board is drawn as text.
//! The network and the terminal are left to the caller, which hands the
//! library plain values and carries out what it answers.

mod game_id;
pub mod text;
pub mod board;
pub mod request;
pub mod response;
pub mod client;
pub mod laws;
