//! Pane-swap orchestration for a terminal multiplexer's jump-to-text
//! workflow: probe the active pane, launch a picker in a hidden window,
//! swap panes, wait for a rendezvous signal, read the selection back and
//! dispatch the configured action.

pub mod executor;
pub mod options;
pub mod osc;
pub mod selection;
pub mod pane;
pub mod strutil;
pub mod swapper;

use vstd::prelude::*;

verus! {

/// A stage of the pipeline failed on malformed or missing multiplexer data.
#[derive(Clone, Copy, Debug, PartialEq, Eq, Structural)]
pub enum SwapError {
    /// No row of the pane listing carries the active marker.
    NoActivePane,
    /// A row of the pane listing reached during the scan has too few fields.
    MalformedPaneRow,
    /// Height or scroll position of a copy-mode pane is not a decimal number.
    MalformedNumber,
}

} // verus!
