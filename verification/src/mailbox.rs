//! The mailbox between the timer and the main loop: one slot, and a post
//! overwrites what is in it.

use vstd::prelude::*;

verus! {

/// The slot after `token` was posted: it holds `token`, whatever it held.
pub open spec fn after_post(slot: Option<u32>, token: u32) -> Option<u32> {
    Some(token)
}

/// What a receive hands out of `slot`, and the slot after it: empty.
pub open spec fn after_receive(slot: Option<u32>) -> (Option<u32>, Option<u32>) {
    (slot, None)
}

/// A mailbox with a single slot. Tokens are not queued: a token that is
/// posted before the last one was received takes its place.
#[derive(Debug)]
pub struct Mailbox {
    slot: Option<u32>,
}

impl View for Mailbox {
    type V = Option<u32>;

    closed spec fn view(&self) -> Option<u32> {
        self.slot
    }
}

impl Mailbox {
    /// An empty mailbox.
    pub fn new() -> (made: Mailbox)
        ensures
            made@ is None,
    {
        Mailbox { slot: None }
    }

    /// Puts `token` into the slot.
    pub fn post(&mut self, token: u32)
        ensures
            final(self)@ == after_post(old(self)@, token),
    {
        self.slot = Some(token);
    }

    /// Takes the token out of the slot, if there is one. Never waits.
    pub fn try_receive(&mut self) -> (token: Option<u32>)
        ensures
            (token, final(self)@) == after_receive(old(self)@),
    {
        let token = self.slot;
        self.slot = None;
        token
    }

    /// Whether the slot is empty.
    pub fn is_empty(&self) -> (empty: bool)
        ensures
            empty == (self@ is None),
    {
        self.slot.is_none()
    }
}

/// Posts coalesce: of two tokens posted before a receive, the receive hands
/// out the second, and the receive after it finds the slot empty.
pub proof fn lemma_posts_coalesce(slot: Option<u32>, first: u32, second: u32)
    ensures
        after_receive(after_post(after_post(slot, first), second)) == (
            Some(second),
            None::<u32>,
        ),
        after_receive(after_receive(after_post(after_post(slot, first), second)).1) == (
            None::<u32>,
            None::<u32>,
        ),
{
}

} // verus!
