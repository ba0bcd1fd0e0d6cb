//! Core of a turn-based tactical combat simulation: a generational entity
//! arena, bounded resource stats, a layered probabilistic damage model, a
//! faction turn scheduler, a directed area-movement graph, and a menu-driven
//! command dispatcher that keeps displayed actions in step with the legal
//! state transitions.

pub mod clip;
pub mod combat;
pub mod commands;
pub mod faction;
pub mod game;
pub mod grid;
pub mod grid2d;
pub mod input;
pub mod gid;
pub mod logger;
pub mod menu;
pub mod messages;
pub mod scenario;
pub mod colour;
pub mod text;
pub mod tile;
pub mod unit;
pub mod world;
pub mod weapon;
