//! Tile-based spatial memory, route planning and per-tick decision stages
//! for autonomous agents that only know what they have sensed.

pub mod chance;
pub mod grid;
pub mod kind;
pub mod tables;
pub mod model;
pub mod laws;
pub mod knowledge;
pub mod score;
pub mod frontier;
pub mod search;
pub mod trail;
pub mod route;
pub mod events;
pub mod stages;
pub mod select;
pub mod queues;
pub mod side;
pub mod merge;
