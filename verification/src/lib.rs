//! Verified save-game codec for a trilogy of role-playing games.
//!
//! The crate decodes proprietary, length-prefixed binary save files into a
//! typed in-memory tree, lets a caller mutate plot flags, re-encodes the tree
//! byte-for-byte, and diffs the plot tables of two decoded saves.

pub mod codec;
pub mod compare;
pub mod cursor;
pub mod index_map;
pub mod mass_effect_2;
pub mod mass_effect_3;
pub mod plot;
pub mod save_game;
pub mod shared;
