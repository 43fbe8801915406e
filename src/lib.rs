//! Data shaping for a chat bot that reports on Komari monitoring sites.
use vstd::prelude::*;

pub mod command;
pub mod nodes;
pub mod overview;
pub mod query;
pub mod registry;
pub mod text;
pub mod totals;
pub mod utils;

verus! {

/// A chat message before MarkdownV2 escaping.
pub type MessageString = String;

} // verus!
