//! The dispatcher model: the consumer of span and event data that is
//! installed as thread-active for the duration of a resume call.

use vstd::prelude::*;

verus! {

/// Identifies one subscriber/dispatcher. A value of this type stands
/// for an owned reference to the dispatcher it names.
#[derive(Clone, Copy, Debug, PartialEq, Eq)]
pub struct Dispatch {
    /// The numeric identity of the dispatcher.
    pub num: u64,
}

/// The dispatcher a thread currently reports to, if any. Like the
/// active stack, the cell is a per-thread resource; a wrapper installs
/// its own dispatcher for exactly the duration of one resume call and
/// then restores whatever was installed before.
#[derive(Clone, Copy, Debug, PartialEq, Eq)]
pub struct DispatchCell {
    /// The thread-active dispatcher, or none when only the process
    /// default applies.
    pub current: Option<Dispatch>,
}

impl DispatchCell {
    /// A cell with no thread-active dispatcher installed.
    pub fn new() -> (c: DispatchCell)
        ensures
            c.current == None::<Dispatch>,
    {
        DispatchCell { current: None }
    }
}

} // verus!
