//! Wording that is looked up in the active language when it is drawn.
use vstd::prelude::*;

use crate::text::copy;

verus! {

/// A message: the key that a translation is found under, and what it quotes.
#[derive(Debug)]
pub struct Message {
    pub key: &'static str,
    pub args: Vec<(&'static str, String)>,
}

/// What a [`Message`] says.
pub struct MessageView {
    pub key: Seq<char>,
    pub args: Seq<(Seq<char>, Seq<char>)>,
}

impl View for Message {
    type V = MessageView;

    open spec fn view(&self) -> MessageView {
        MessageView {
            key: self.key@,
            args: Seq::new(self.args@.len(), |i: int| (self.args@[i].0@, self.args@[i].1@)),
        }
    }
}

/// A message that quotes nothing.
pub open spec fn says(key: Seq<char>) -> MessageView {
    MessageView { key, args: Seq::empty() }
}

impl MessageView {
    /// The message with one more quotation.
    pub open spec fn quoting(self, name: Seq<char>, value: Seq<char>) -> MessageView {
        MessageView { key: self.key, args: self.args.push((name, value)) }
    }
}

impl Message {
    /// A message that quotes nothing.
    pub fn new(key: &'static str) -> (message: Message)
        ensures
            message@ == says(key@),
    {
        let message = Message { key, args: Vec::new() };
        assert(message@.args =~= Seq::empty());
        message
    }

    /// A copy of the message.
    pub fn copied(&self) -> (message: Message)
        ensures
            message@ == self@,
    {
        let mut args: Vec<(&'static str, String)> = Vec::new();
        let mut i: usize = 0;
        while i < self.args.len()
            invariant
                i <= self.args@.len(),
                args@.len() == i,
                forall|k: int|
                    0 <= k < i ==> (#[trigger] args@[k]).0 == self.args@[k].0 && args@[k].1@ == self.args@[k].1@,
            decreases self.args@.len() - i,
        {
            args.push((self.args[i].0, copy(self.args[i].1.as_str())));
            i += 1;
        }
        let message = Message { key: self.key, args };
        assert(message@.args =~= self@.args);
        message
    }

    /// The message with one more quotation.
    pub fn with(self, name: &'static str, value: &str) -> (message: Message)
        ensures
            message@ == self@.quoting(name@, value@),
    {
        let mut message = self;
        message.args.push((name, copy(value)));
        assert(message@.args =~= self@.quoting(name@, value@).args);
        message
    }
}

/// A message is its key and what it quotes, in the order it was quoted in.
pub proof fn messages_quote_in_order(message: MessageView, key: Seq<char>, name: Seq<char>, value: Seq<char>)
    ensures
        says(key).key == key,
        says(key).args.len() == 0,
        message.quoting(name, value).key == message.key,
        message.quoting(name, value).args == message.args + seq![(name, value)],
{
    assert(message.args.push((name, value)) =~= message.args + seq![(name, value)]);
}

} // verus!
