//! Commands: what a dispatch ends in.

use vstd::prelude::*;

verus! {

/// A named command and its handler.
///
/// The engine never looks at the handler and never runs it: it tells the host
/// which entry was selected, and the host calls the handler with the shared
/// context. `requires_confirmation` is advice to the host; the engine does
/// not read it either.
pub struct Command<X> {
    pub name: String,
    pub requires_confirmation: bool,
    pub executor: X,
}

} // verus!
