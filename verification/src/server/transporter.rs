//! State of a client connection's writer.

use vstd::prelude::*;

verus! {

/// Whether a connection still accepts traffic.
#[derive(Debug, Clone, Copy, PartialEq, Eq, Structural)]
pub enum TransporterStatus {
    Active,
    Stopped,
}

impl TransporterStatus {
    /// Whether the connection still accepts traffic.
    pub fn is_active(&self) -> (b: bool)
        ensures
            b <==> *self == TransporterStatus::Active,
    {
        match self {
            TransporterStatus::Active => true,
            TransporterStatus::Stopped => false,
        }
    }
}

} // verus!
