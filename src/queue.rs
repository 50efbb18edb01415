//! Pending inbound messages, first in first out, between the receive path
//! and the display.

use vstd::prelude::*;
use std::collections::VecDeque;
use crate::message::{Message, MessageView};

verus! {

/// The views of a sequence of messages.
pub open spec fn message_views(s: Seq<Message>) -> Seq<MessageView> {
    s.map_values(|m: Message| m@)
}

/// An unbounded FIFO of messages.
pub struct MessageQueue {
    items: VecDeque<Message>,
}

impl View for MessageQueue {
    type V = Seq<MessageView>;

    closed spec fn view(&self) -> Seq<MessageView> {
        message_views(self.items@)
    }
}

impl MessageQueue {
    pub fn new() -> (r: Self)
        ensures
            r@ == Seq::<MessageView>::empty(),
    {
        let r = MessageQueue { items: VecDeque::new() };
        assert(r@ =~= Seq::<MessageView>::empty());
        r
    }

    pub fn len(&self) -> (n: usize)
        ensures
            n == self@.len(),
    {
        self.items.len()
    }

    /// Appends `message` at the back.
    pub fn push_back(&mut self, message: Message)
        ensures
            final(self)@ == old(self)@.push(message@),
    {
        self.items.push_back(message);
        assert(final(self)@ =~= old(self)@.push(message@));
    }

    /// Removes and returns the oldest message, if any.
    pub fn pop_front(&mut self) -> (r: Option<Message>)
        ensures
            old(self)@.len() == 0 ==> r is None && final(self)@ == old(self)@,
            old(self)@.len() > 0 ==> r is Some && r->0@ == old(self)@[0] && final(self)@
                == old(self)@.drop_first(),
    {
        let r = self.items.pop_front();
        assert(final(self)@ =~= if old(self)@.len() == 0 {
            old(self)@
        } else {
            old(self)@.drop_first()
        });
        r
    }
}

} // verus!
