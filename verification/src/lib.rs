//! Core of a terminal arithmetic-practice game: constrained-random question
//! generation, the round state machine with scoring and timing, and the
//! persisted history of past rounds together with its on-disk text format.
pub mod codec;
pub mod config;
pub mod event_handlers;
pub mod game;
pub mod history;
pub mod numfmt;
pub mod question;
pub mod roundtrip;
pub mod util;
