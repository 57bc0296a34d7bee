//! An in-memory editor engine for a recursive card composition tree: a deck
//! of cooldowns, abilities, projectile behaviour, status effects and
//! multicast behaviour. Nodes are addressed by flat integer paths; the
//! engine locates, detaches, inserts (with merging), and prunes nodes while
//! preserving the tree's structural invariants, and drives the one-per-frame
//! drag-and-drop transaction protocol.
//!
//! `cards` holds the executable tree types and `model` their mathematical
//! counterparts; `semantics` defines what each path-addressed operation
//! means over the model; `modify`, `take`, `insert` and `cleanup` implement
//! the four operations against those definitions; `editor` runs the
//! drag-and-drop protocol over them; and `laws` states and proves the
//! properties the engine keeps.

pub mod arith;
pub mod cards;
pub mod cleanup;
pub mod cloning;
pub mod editor;
pub mod insert;
pub mod laws;
pub mod model;
pub mod modify;
pub mod semantics;
pub mod settings;
pub mod take;
