//! Rolling keyboard-usage statistics.
//!
//! The heart of the crate is [`processor::Processor`], a single-owner
//! aggregator that folds discrete keypress events into rolling state
//! (a 60-tick activity window, an hour-long throughput history, a
//! cumulative key-frequency table) and, once per logical tick, produces
//! an immutable snapshot for a display layer together with an optional
//! milestone alert.  All of that logic is verified; reading the input
//! device, rendering, persistence and notification delivery are left to
//! the surrounding program, which talks to this crate in plain values.

pub mod grabber;
pub mod keydata;
pub mod numfmt;
pub mod processor;
pub mod rank;
