//! Salvage tables for a Numenera campaign: dice notation, the items a salvage
//! can turn up, and the engine that decides what a salvage roll yields.

pub mod error;
pub mod notation;
pub mod utils;
pub mod item;
pub mod salvage;
