//! An emulator for a grid of small compute nodes that talk to their four neighbours
//! through blocking single-value ports, advancing in three-phase global ticks.
//!
//! `number` holds the saturating integers; `node` the port protocol and the node kinds;
//! `tis` the grid and its tick; `parse_tis` the grammar of program files over tokens.

pub mod direction;
pub mod instruction;
pub mod node;
pub mod number;
pub mod parse_tis;
pub mod position;
pub mod register;
pub mod tis;
pub mod utils;
