//! A fetch/clone negotiation core in the style of gitoxide: refspec matching,
//! shallow-boundary negotiation, ref-update planning, and transactional
//! application of the results, together with the trust model and the
//! configuration-key tree that surround them.
//!
//! Byte-level transport, object storage and working-tree checkout are
//! collaborators: the library consumes their answers as plain values and
//! states, in each function's contract, exactly what it does with them.

pub mod apply;
pub mod bytes;
pub mod config_tree;
pub mod errors;
pub mod matcher;
pub mod object;
pub mod plan;
pub mod refspec;
pub mod sec;
pub mod session;
pub mod shallow;
