//! Supervision core of a desktop front end for the Aether tunnel.

pub mod aether;
pub mod error;
pub mod events;
pub mod state;
pub mod text;
