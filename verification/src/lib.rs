use vstd::prelude::*;

pub mod text;
pub mod models;
pub mod keys;
pub mod selection;
pub mod shell;
pub mod theme;
pub mod terminal;
pub mod session;
pub mod editors;
pub mod persistence;
pub mod labels;
pub mod shortcuts;
pub mod interaction;
pub mod tabs;
pub mod workspace;

verus! {
} // verus!
