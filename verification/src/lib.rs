//! Core engine of a terminal step sequencer (drum machine).
//!
//! The library models the engine as plain, sequential data: a rectangular
//! pattern grid of boolean steps, a playhead-driven sequencer state machine,
//! a broadcast event bus with per-subscriber delivery queues, and an audio
//! player model that tracks loaded samples, per-track voices, gains and
//! effect chains.  Every operation carries a contract; timing threads,
//! channels, terminal rendering and sound output live outside the library
//! and drive it through these verified entry points.
//!
//! Volumes and other unit-interval quantities are fixed point, in
//! thousandths (permille): `0` is silence, `1000` is full scale.

pub mod events;
pub mod fxkey;
pub mod model;
pub mod names;
pub mod sequencer;
pub mod effects;
pub mod audio;
pub mod connector;
pub mod app_state;
pub mod integration;
