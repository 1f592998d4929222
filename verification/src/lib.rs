//! Runtime core of a tile-based roguelike: an entity-component data store,
//! a deterministic per-frame update pass, and a layered draw-command composer
//! over a rectangular tile grid.
//!
//! Windowing, input polling, font rasterisation and the event loop are external
//! collaborators; this crate holds the verified data model, storage, query and
//! per-frame state transition.

pub mod components;
pub mod entity;
pub mod game;
pub mod grid;
pub mod join;
pub mod render;
pub mod storage;
pub mod world;
