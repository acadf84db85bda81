//! A bordered grid-drop game for two players (milk and cookie), together
//! with small address arithmetic helpers.

pub mod board;
pub mod cell;
pub mod error;
pub mod ip;
pub mod laws;
pub mod render;
pub mod win;
