//! Game rules of a small cooperative climbing game: keyboard state, scene
//! flow, surface contacts, grabbing, timers and the networked session, all
//! on integers, booleans, strings and identifiers.

pub mod entity;
pub mod frame;
pub mod hold;
pub mod ids;
pub mod input;
pub mod levels;
pub mod lines;
pub mod motion;
pub mod scene;
pub mod session;
pub mod table;
pub mod timers;
