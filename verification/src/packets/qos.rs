//! Quality of Service levels.
use vstd::prelude::*;

verus! {

/// Quality of Service of a message: at most once, or at least once.
#[derive(Debug, Clone, Copy, PartialEq, Eq, Structural)]
pub enum QoSLevel {
    QoSLevel0,
    QoSLevel1,
}

} // verus!
