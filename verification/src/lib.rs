//! TinyConnect: the decision logic of a compact terminal controller for a
//! local Spotify Connect device, with its contracts.

pub mod naming;
pub mod audio;
pub mod connect;
pub mod keys;
pub mod launch;
pub mod player;
pub mod text;
pub mod ui;
