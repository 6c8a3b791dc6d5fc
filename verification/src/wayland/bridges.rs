//! Connections between Wayland facilities and native services.

use super::clipboard::{Clipboard, ClipboardView};
use vstd::prelude::*;

verus! {

/// The state of every bridge.
pub struct Bridges {
    pub clipboard: Clipboard,
}

impl Bridges {
    /// All bridges in their first state: nothing on the clipboard.
    pub fn new() -> (b: Self)
        ensures
            b.clipboard@ == (ClipboardView {
                devices: Seq::empty(),
                mimes: Seq::empty(),
                mac_offer: None,
                active_source: None,
            }),
    {
        Bridges { clipboard: Clipboard::new() }
    }
}

} // verus!
