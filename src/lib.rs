//! A minimal TCP endpoint for one passively opened connection: cyclic
//! sequence-number comparison, segment acceptance, sequence-space bookkeeping,
//! the connection state machine, and the frames it emits.
use vstd::prelude::*;

pub mod seqnum;
pub mod segment;
pub mod wire;
pub mod state;
pub mod connection;

verus! {

} // verus!
