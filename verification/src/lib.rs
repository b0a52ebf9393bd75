//! A verified core for a system-tray menu bridge.
//!
//! The library keeps a shared mapping from tray-item addresses to their
//! records consistent with a stream of update/remove events, translates
//! host-supplied menu trees into clickable elements that carry their click
//! commands by value, and decides the icon fallback chain. All I/O, the
//! host connection and the widget toolkit live outside the library and
//! exchange plain values with it.

pub mod icon;
pub mod menu;
pub mod render;
pub mod state;

use vstd::prelude::*;

verus! {

/// Display status of a tray item. `Passive` items are not rendered.
#[derive(Clone, Copy, PartialEq, Eq, Structural, Debug)]
pub enum Status {
    Passive,
    Active,
    NeedsAttention,
}

/// The view of an optional string.
pub open spec fn opt_str_view(o: Option<String>) -> Option<Seq<char>> {
    match o {
        Some(s) => Some(s@),
        None => None,
    }
}

} // verus!
