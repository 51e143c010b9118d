//! What drives the consumer of one agent's queue for one session: the events
//! it is told of, and the actions it is asked to take in return.

use crate::message::{Message, MessageView};
use vstd::prelude::*;

verus! {

/// How long a consumer rests before it looks at its queue again, in
/// milliseconds.
pub const POLL_INTERVAL_MILLIS: u64 = 100;

/// The mathematical value of a [`ConsumerEvent`].
pub enum ConsumerEventView {
    Wake,
    Generated { message: MessageView, response: Seq<char> },
    Failed { message: MessageView, error: Seq<char> },
}

/// Something that happened to a consumer.
#[derive(Debug)]
pub enum ConsumerEvent {
    /// The consumer has started, or its rest is over.
    Wake,
    /// The language model answered the message.
    Generated { message: Message, response: String },
    /// The language model failed on the message.
    Failed { message: Message, error: String },
}

impl View for ConsumerEvent {
    type V = ConsumerEventView;

    open spec fn view(&self) -> ConsumerEventView {
        match self {
            ConsumerEvent::Wake => ConsumerEventView::Wake,
            ConsumerEvent::Generated { message, response } => ConsumerEventView::Generated {
                message: message@,
                response: response@,
            },
            ConsumerEvent::Failed { message, error } => ConsumerEventView::Failed {
                message: message@,
                error: error@,
            },
        }
    }
}

/// The mathematical value of a [`ConsumerAction`].
pub enum ConsumerActionView {
    Stop,
    Sleep { millis: u64 },
    Generate { system_prompt: Seq<char>, message: MessageView },
}

/// What a consumer has to do next.
#[derive(Debug)]
pub enum ConsumerAction {
    /// The session is gone: end the task.
    Stop,
    /// Rest for this many milliseconds, then report [`ConsumerEvent::Wake`].
    Sleep { millis: u64 },
    /// Ask the language model for a response to the message's content under
    /// the given system prompt, then report how that went.
    Generate { system_prompt: String, message: Message },
}

impl View for ConsumerAction {
    type V = ConsumerActionView;

    open spec fn view(&self) -> ConsumerActionView {
        match self {
            ConsumerAction::Stop => ConsumerActionView::Stop,
            ConsumerAction::Sleep { millis } => ConsumerActionView::Sleep { millis: *millis },
            ConsumerAction::Generate { system_prompt, message } => ConsumerActionView::Generate {
                system_prompt: system_prompt@,
                message: message@,
            },
        }
    }
}

} // verus!
