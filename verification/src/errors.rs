//! The error taxonomy a session surfaces to its caller.
//!
//! A rejected non-fast-forward is not here: it is reported per mapping in the
//! plan's `Mode` and never fails the session.

use vstd::prelude::*;

use crate::apply::ApplyError;
use crate::matcher::MatchError;
use crate::shallow::ShallowError;

verus! {

/// Why a session failed.
#[derive(Clone, PartialEq, Eq, Debug)]
pub enum FetchError {
    /// A configured refspec's pattern is malformed.
    InvalidRefspecPattern {
        /// The index of the offending spec in the configured list.
        spec_index: usize,
    },
    /// Two non-force specs would write the same local ref to different targets.
    AmbiguousDestination {
        /// The contested local ref name.
        ref_name: Vec<u8>,
    },
    /// Policy forbids fetching from an already-shallow remote.
    RejectShallowRemote,
    /// A ref's current value was not the expected one; the session continues
    /// or aborts per caller policy.
    RefConflict {
        /// The ref whose check failed.
        ref_name: Vec<u8>,
    },
    /// The transport failed; its description is propagated verbatim and the
    /// session is over.
    TransportFailure {
        /// The transport's own description of the failure.
        description: Vec<u8>,
    },
    /// The pack transfer ended before satisfying all wants; terminal, and the
    /// session's cleanup runs.
    IncompletePack,
}

impl FetchError {
    /// Lift a matching failure into the session's taxonomy.
    pub fn from_match(e: MatchError) -> (r: FetchError)
        ensures
            r == (match e {
                MatchError::InvalidRefspecPattern { spec_index } => (
                FetchError::InvalidRefspecPattern { spec_index }),
                MatchError::AmbiguousDestination { ref_name } => (
                FetchError::AmbiguousDestination { ref_name }),
            }),
    {
        match e {
            MatchError::InvalidRefspecPattern { spec_index } => {
                FetchError::InvalidRefspecPattern { spec_index }
            },
            MatchError::AmbiguousDestination { ref_name } => {
                FetchError::AmbiguousDestination { ref_name }
            },
        }
    }

    /// Lift a shallow-negotiation failure into the session's taxonomy.
    pub fn from_shallow(e: ShallowError) -> (r: FetchError)
        ensures
            r == (match e {
                ShallowError::RejectShallowRemote => FetchError::RejectShallowRemote,
            }),
    {
        match e {
            ShallowError::RejectShallowRemote => FetchError::RejectShallowRemote,
        }
    }

    /// Lift an application failure into the session's taxonomy.
    pub fn from_apply(e: ApplyError) -> (r: FetchError)
        ensures
            r == (match e {
                ApplyError::RefConflict { ref_name } => FetchError::RefConflict { ref_name },
            }),
    {
        match e {
            ApplyError::RefConflict { ref_name } => FetchError::RefConflict { ref_name },
        }
    }
}

} // verus!
