//! A _trigger_: the input for handling one event through the handler
//! command, built from the incoming notifications. It carries
//! nothing yet; the type is kept as the seam where per-invocation
//! input would grow.

use vstd::prelude::*;
use crate::batch::Notification;

verus! {

/// The input to the handler command.
#[derive(Debug)]
pub struct Trigger {}

impl Trigger {
    /// Builds the triggers for a set of notifications; none are
    /// produced.
    pub fn from(_records: &Vec<Notification>) -> (r: Vec<Trigger>)
        ensures
            r@.len() == 0,
    {
        Vec::new()
    }
}

} // verus!
