//! A legend of key bindings for a terminal multiplexer.
//!
//! Given the mode that the host is in and the bindings of that mode, the
//! library picks the bindings that matter in the mode, ranks and sorts them,
//! keeps one chord per distinct effect, and writes them out as a legend. It
//! also decides when the legend appears and disappears: a controller instance
//! asks for an overlay when the host leaves its base mode, and the overlay
//! renders the legend and ends itself when the host returns there.
//!
//! - [`mode`], [`keys`], [`action`]: the host's vocabulary, with the label,
//!   the relevance and the rank of every action.
//! - [`selection`]: from a table of bindings to the lines of the legend.
//! - [`render`]: from the lines of the legend to its text.
//! - [`config`], [`placement`], [`lifecycle`]: the settings of an instance,
//!   where its overlay floats, and what it does on every event of the host.
//! - [`text`]: numerals, widths and the order of labels.

pub mod action;
pub mod config;
pub mod keys;
pub mod lifecycle;
pub mod mode;
pub mod placement;
pub mod render;
pub mod selection;
pub mod text;
