//! The logic of a panel applet that gathers quick controls into one popup:
//! the tile grid and its layout, the configuration model, and the decisions
//! each control makes from the state its backend reports.
use vstd::prelude::*;

pub mod check;
pub mod config;
pub mod controls;
pub mod i18n;
pub mod modules;
pub mod panel;
pub mod text;
pub mod tile_layout;
pub mod ui;

verus! {

} // verus!
