use vstd::prelude::*;

verus! {

/// The mathematical value of a [`Message`]: its three texts as sequences of characters.
pub struct MessageView {
    pub from: Seq<char>,
    pub to: Seq<char>,
    pub content: Seq<char>,
}

/// A message sent from one agent to another.
#[derive(Debug)]
pub struct Message {
    pub from: String,
    pub to: String,
    pub content: String,
}

impl View for Message {
    type V = MessageView;

    open spec fn view(&self) -> MessageView {
        MessageView { from: self.from@, to: self.to@, content: self.content@ }
    }
}

impl Clone for Message {
    fn clone(&self) -> (copy: Self)
        ensures
            copy@ == self@,
    {
        Message {
            from: self.from.clone(),
            to: self.to.clone(),
            content: self.content.clone(),
        }
    }
}

impl Message {
    /// Creates a message with the given sender, recipient and content.
    pub fn new(from: String, to: String, content: String) -> (message: Self)
        ensures
            message.from@ == from@,
            message.to@ == to@,
            message.content@ == content@,
    {
        Message { from, to, content }
    }
}

} // verus!
