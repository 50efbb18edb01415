//! A chat message: its text, who sent it, and the address label it shows.

use vstd::prelude::*;
use crate::text::{push_char, push_text};
use crate::wire::FIELD_SEPARATOR;

verus! {

/// What a message holds, as character sequences.
pub ghost struct MessageView {
    pub content: Seq<char>,
    pub sender_name: Seq<char>,
    pub sender_ip: Seq<char>,
}

/// An immutable chat message.
#[derive(Clone, Debug)]
pub struct Message {
    content: String,
    sender_name: String,
    sender_ip: String,
}

impl View for Message {
    type V = MessageView;

    closed spec fn view(&self) -> MessageView {
        MessageView {
            content: self.content@,
            sender_name: self.sender_name@,
            sender_ip: self.sender_ip@,
        }
    }
}

/// `name ~ ip ~ content`: the message as it travels after the type tag.
pub open spec fn encoded(m: MessageView) -> Seq<char> {
    m.sender_name + seq![FIELD_SEPARATOR] + m.sender_ip + seq![FIELD_SEPARATOR] + m.content
}

impl Message {
    pub fn new(content: String, sender_name: String, sender_ip: String) -> (r: Self)
        ensures
            r@ == (MessageView {
                content: content@,
                sender_name: sender_name@,
                sender_ip: sender_ip@,
            }),
    {
        Self { content, sender_name, sender_ip }
    }

    pub fn content(&self) -> (r: &str)
        ensures
            r@ == self@.content,
    {
        self.content.as_str()
    }

    pub fn sender_name(&self) -> (r: &str)
        ensures
            r@ == self@.sender_name,
    {
        self.sender_name.as_str()
    }

    pub fn sender_ip(&self) -> (r: &str)
        ensures
            r@ == self@.sender_ip,
    {
        self.sender_ip.as_str()
    }

    /// The sender's name, the address label and the content, separated.
    pub fn encode_for_broadcast(&self) -> (r: String)
        ensures
            r@ == encoded(self@),
    {
        let mut r = String::new();
        push_text(&mut r, self.sender_name.as_str());
        push_char(&mut r, FIELD_SEPARATOR);
        push_text(&mut r, self.sender_ip.as_str());
        push_char(&mut r, FIELD_SEPARATOR);
        push_text(&mut r, self.content.as_str());
        r
    }
}

} // verus!
