//! The failures that the lane operations report.

use vstd::prelude::*;

verus! {

/// The class a failure belongs to, which decides how a lane's driver reacts.
#[derive(Clone, Copy, Debug, PartialEq, Eq, Structural)]
pub enum ErrorKind {
    /// The requested slot range is not acceptable; the caller must correct it.
    Range,
    /// The backing storage could not answer; the same range may be retried.
    Query,
    /// A transaction carries an account key that is not a public key.
    Decode,
    /// An update named a bridge transaction that the store does not hold.
    NotFound,
    /// The configuration handed over at start-up cannot be used.
    Configuration,
}

/// A failure together with the values that explain it.
#[derive(Clone, Copy, Debug, PartialEq, Eq, Structural)]
pub enum NodeError {
    /// The range ends below the slot it starts at.
    EndBeforeStart { start_slot: i64, end_slot: i64 },
    /// A bound of the range lies below the first slot the lane may process.
    BelowInitialSlot { start_slot: i64, end_slot: i64, initial_slot: u64 },
    /// The backing storage failed to answer a query.
    Query,
    /// The account key at `index` of a transaction at `slot` is malformed.
    MalformedAccountKey { slot: i64, index: usize },
    /// No stored bridge transaction carries the hash of the record at `slot`.
    UnknownBridgeTx { slot: i64 },
    /// The configured bridge program id is not a base58 public key.
    InvalidProgramId,
}

impl NodeError {
    /// The class of this failure.
    pub open spec fn spec_kind(self) -> ErrorKind {
        match self {
            NodeError::EndBeforeStart { .. } => ErrorKind::Range,
            NodeError::BelowInitialSlot { .. } => ErrorKind::Range,
            NodeError::Query => ErrorKind::Query,
            NodeError::MalformedAccountKey { .. } => ErrorKind::Decode,
            NodeError::UnknownBridgeTx { .. } => ErrorKind::NotFound,
            NodeError::InvalidProgramId => ErrorKind::Configuration,
        }
    }

    /// The class of this failure.
    #[verifier::when_used_as_spec(spec_kind)]
    pub fn kind(self) -> (kind: ErrorKind)
        ensures
            kind == self.spec_kind(),
    {
        match self {
            NodeError::EndBeforeStart { .. } => ErrorKind::Range,
            NodeError::BelowInitialSlot { .. } => ErrorKind::Range,
            NodeError::Query => ErrorKind::Query,
            NodeError::MalformedAccountKey { .. } => ErrorKind::Decode,
            NodeError::UnknownBridgeTx { .. } => ErrorKind::NotFound,
            NodeError::InvalidProgramId => ErrorKind::Configuration,
        }
    }

    /// Whether the lane's driver should try the same range again later.
    pub fn is_transient(self) -> (transient: bool)
        ensures
            transient == (self.spec_kind() == ErrorKind::Query),
    {
        match self {
            NodeError::Query => true,
            _ => false,
        }
    }
}

} // verus!
