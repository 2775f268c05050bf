pub mod mouse_event;

use vstd::prelude::*;

verus! {

/// An event the host can deliver to a listener.
#[derive(Debug)]
pub enum Event {
    MouseEvent(mouse_event::Data),
}

} // verus!
