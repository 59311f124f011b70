//! Connection states.
use vstd::prelude::*;

verus! {

/// The states a passively opened connection passes through. `Listen` needs no
/// value: a connection exists only once a SYN has arrived.
#[derive(PartialEq, Eq, Structural, Clone, Copy, Debug)]
pub enum State {
    SynRcvd,
    Estab,
    FinWait1,
    FinWait2,
    Closing,
}

impl State {
    /// A state is synchronized once the three-way handshake has completed.
    pub open spec fn synchronized(self) -> bool {
        !(self is SynRcvd)
    }

    /// Whether both sides' initial sequence numbers are agreed.
    pub fn is_synchronized(&self) -> (r: bool)
        ensures
            r == self.synchronized(),
    {
        match *self {
            State::SynRcvd => false,
            State::Estab | State::FinWait1 | State::FinWait2 | State::Closing => true,
        }
    }
}

} // verus!
