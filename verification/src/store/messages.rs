//! Sender-performed delivery: the result of a send.

use vstd::prelude::*;
use crate::envelope::Envelope;
use crate::store::hook::HookOutcome;

verus! {

/// A delivered envelope, and the outcome of the recipient's on_delivery
/// hook when it has one.
#[derive(Debug)]
pub struct Delivered {
    pub envelope: Envelope,
    pub hook: Option<HookOutcome>,
}

} // verus!
