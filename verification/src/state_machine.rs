//! How a state answers an event: stay, hand over to full membership, or stop.

use crate::chain::section_info::{GenesisPfxInfo, GenesisPfxInfoView};
use vstd::prelude::*;

verus! {

/// What the state machine does after an event has been handled.
#[derive(Debug, PartialEq, Eq)]
pub enum Transition {
    /// Remain in the current state.
    Stay,
    /// Become a full member, starting from the agreed genesis snapshots.
    IntoNode { gen_pfx_info: GenesisPfxInfo },
    /// Stop.
    Terminate,
}

/// What a transition is.
pub enum TransitionView {
    Stay,
    IntoNode { gen_pfx_info: GenesisPfxInfoView },
    Terminate,
}

impl View for Transition {
    type V = TransitionView;

    open spec fn view(&self) -> TransitionView {
        match self {
            Transition::Stay => TransitionView::Stay,
            Transition::IntoNode { gen_pfx_info } => TransitionView::IntoNode {
                gen_pfx_info: gen_pfx_info@,
            },
            Transition::Terminate => TransitionView::Terminate,
        }
    }
}

} // verus!
