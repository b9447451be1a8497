//! The device's control channel as the library sees it: a function that
//! hands a message to the channel and tells whether it was accepted, and
//! the log of every message handed to it so far, with its answer. Only
//! `ControlChannel::send` reaches the function, and every call of it is
//! logged, so a contract over the log states exactly which messages were
//! sent, in which order.

use vstd::prelude::*;
use crate::window::ControlMessage;

verus! {

/// A control channel and the log of what was handed to it.
pub struct ControlChannel<F: Fn(ControlMessage) -> bool> {
    send: F,
    log: Ghost<Seq<(ControlMessage, bool)>>,
}

impl<F: Fn(ControlMessage) -> bool> ControlChannel<F> {
    /// The sending function takes every message.
    #[verifier::type_invariant]
    spec fn takes_every_message(self) -> bool {
        forall|m: ControlMessage| self.send.requires((m,))
    }

    /// Every message handed to the channel, in order, with whether it was
    /// accepted.
    pub closed spec fn log(self) -> Seq<(ControlMessage, bool)> {
        self.log@
    }

    /// A channel over `send`, to which nothing has been handed yet.
    pub fn new(send: F) -> (c: Self)
        requires
            forall|m: ControlMessage| send.requires((m,)),
        ensures
            c.log() == Seq::<(ControlMessage, bool)>::empty(),
    {
        ControlChannel { send, log: Ghost(Seq::empty()) }
    }

    /// Hands `m` to the channel; tells whether it was accepted.
    pub fn send(&mut self, m: ControlMessage) -> (ok: bool)
        ensures
            final(self).log() == old(self).log().push((m, ok)),
    {
        proof {
            use_type_invariant(&*self);
        }
        let ok = (self.send)(m);
        self.log = Ghost(self.log@.push((m, ok)));
        ok
    }
}

} // verus!
