//! Type-state verification layer for signed and multi-signed messages in a
//! Byzantine-fault-tolerant consensus participant.
//!
//! A signed artifact enters the system as an [`signed::UncheckedSigned`]
//! carrier of unknown validity. Checking it against a keying capability
//! yields a proof-carrying value — [`signed::Signed`] for an individual
//! signature, [`signed::PartiallyMultisigned`] for a valid partial
//! multisignature — and a failed check returns the carrier unchanged inside
//! an error. A partial multisignature absorbs further individual signatures
//! until a completeness check promotes it to [`signed::Multisigned`], the
//! quorum certificate.

pub mod nodes;
pub mod signed;
pub mod testing;

pub use nodes::{Index, NodeIndex};
