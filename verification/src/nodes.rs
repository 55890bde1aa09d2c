use vstd::prelude::*;

verus! {

/// Stable identifier of a consensus participant, used to attribute
/// individual signatures to the key that produced them.
#[derive(Clone, Copy, PartialEq, Eq, Debug, Hash, Structural)]
pub struct NodeIndex(pub u64);

/// A value that reports the participant index it belongs to: a capability
/// reports the index it signs under, and a payload may report the index of
/// its claimed signer.
pub trait Index {
    /// The reported participant index, as seen by contracts.
    spec fn index_spec(&self) -> NodeIndex;

    /// The reported participant index.
    fn index(&self) -> (i: NodeIndex)
        ensures
            i == self.index_spec(),
    ;
}

} // verus!
