//! Helpers for planning the layout of a room.

pub mod api;
pub mod blueprint;
pub mod link;
pub mod pathfinder;
pub mod room_data;
