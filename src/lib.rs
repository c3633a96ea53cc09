//! Rhythm judgment and hazard engine of a lane-based rhythm game.
//!
//! Time is measured in whole microseconds and musical time in microbeats
//! (millionths of a beat); the combo multiplier is held in millionths.
pub mod lane;
pub mod scoring;
pub mod tally;
pub mod song;
pub mod health;
pub mod notes;
pub mod holds;
pub mod hazards;
pub mod planner;
pub mod clock;
pub mod engine;
pub mod display;
pub mod settings;
