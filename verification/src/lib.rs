//! A modeless Markdown text editor core: text buffer, cursor, history,
//! word wrap, key mapping, overlays and Markdown highlighting, with
//! their behaviour stated as contracts.
use vstd::prelude::*;

pub mod app;
pub mod editor;
pub mod text;
pub mod ui;

verus! {

} // verus!
