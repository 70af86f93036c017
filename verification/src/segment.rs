//! Identity of the status-line segments provided by this crate.

use vstd::prelude::*;

verus! {

/// Which status-line segment a value belongs to.
#[derive(Clone, Copy, Debug, PartialEq, Eq, Structural)]
pub enum SegmentId {
    ContextWindow,
    Usage,
}

} // verus!
