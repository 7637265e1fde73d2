//! Spatial model of modular structures: a cell grid per structure, hull-breach
//! detection by flood fill, and the destruction and control rules built on them.

pub mod cells;
pub mod control;
pub mod exposure;
pub mod grid;
pub mod inputs;
pub mod layout;
pub mod lifetime;
pub mod modules;
pub mod player;
pub mod plugin_groups;
pub mod roster;
pub mod structures;
pub mod structures_combat;
