//! Document model and map format engine of a tile-map editor.
//!
//! The crate keeps the registry of open map documents consistent under
//! explorer and workspace commands, decodes the legacy line-oriented map text
//! and the structured map record, builds the bounded, ordered snapshot of a
//! project directory, and makes the choices of picking a tile. Every function
//! is verified against a contract stated over sequences of characters and
//! plain mathematical models. Nothing here touches the disk: a caller reads
//! and writes, and hands over what it found.

pub mod document;
pub mod editor;
pub mod error;
pub mod events;
pub mod grid;
pub mod layout;
pub mod legacy;
pub mod map_data;
pub mod parser;
pub mod path_set;
pub mod paths;
pub mod project;
pub mod text;
pub mod tree;
