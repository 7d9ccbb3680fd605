//! Matchmaking coordination engine: a pool of waiting players and game
//! servers, a deterministic scoring rule that pairs players and places each
//! pair on a server, and the per-connection session state machine; beside
//! it, the records and sign-in logic of the identity service.
pub mod model;
pub mod matcher;
pub mod pool;
pub mod matchmaker;
pub mod session;
pub mod auth;
pub mod models;
pub mod discord;
