//! Sessions: a log of processed messages and a queue of pending ones.

use crate::message::{Message, MessageView};
use std::collections::VecDeque;
use std::time::SystemTime;
use tokio::task::JoinHandle;
use vstd::prelude::*;

verus! {

/// The mathematical value of a [`SessionEntry`].
pub struct EntryView {
    pub message: MessageView,
    pub response: Option<Seq<char>>,
    pub timestamp: SystemTime,
}

/// One message of a session's log, with the response to it once there is one.
#[derive(Debug)]
pub struct SessionEntry {
    pub message: Message,
    pub response: Option<String>,
    pub timestamp: SystemTime,
}

/// The view of an optional text.
pub open spec fn text_view(text: Option<String>) -> Option<Seq<char>> {
    match text {
        Some(t) => Some(t@),
        None => None,
    }
}

impl View for SessionEntry {
    type V = EntryView;

    open spec fn view(&self) -> EntryView {
        EntryView {
            message: self.message@,
            response: text_view(self.response),
            timestamp: self.timestamp,
        }
    }
}

impl Clone for SessionEntry {
    fn clone(&self) -> (copy: Self)
        ensures
            copy@ == self@,
    {
        let response = match &self.response {
            Some(text) => Some(text.clone()),
            None => None,
        };
        SessionEntry { message: self.message.clone(), response, timestamp: self.timestamp }
    }
}

impl SessionEntry {
    /// Creates an entry for a message that has no response yet, stamped with
    /// the current time.
    pub fn new(message: Message) -> (entry: Self)
        ensures
            entry@.message == message@,
            entry@.response == None::<Seq<char>>,
    {
        SessionEntry { message, response: None, timestamp: crate::clock::now() }
    }

    /// Creates an entry for a message together with its response, stamped
    /// with the current time.
    pub fn with_response(message: Message, response: String) -> (entry: Self)
        ensures
            entry@.message == message@,
            entry@.response == Some(response@),
    {
        SessionEntry { message, response: Some(response), timestamp: crate::clock::now() }
    }

    /// Sets the response, replacing an earlier one.
    pub fn set_response(&mut self, response: String)
        ensures
            final(self)@ == (EntryView { response: Some(response@), ..old(self)@ }),
    {
        self.response = Some(response);
    }
}

/// The mathematical value of a [`Session`].
pub struct SessionView {
    /// The session's id.
    pub id: Seq<char>,
    /// The log, oldest entry first.
    pub entries: Seq<EntryView>,
    /// The messages that wait to be processed, the next one first.
    pub pending: Seq<MessageView>,
    /// When the session was created.
    pub created_at: SystemTime,
    /// The handle of the consumer task, while one is held.
    pub task: Option<JoinHandle<()>>,
}

impl SessionView {
    /// A session as it is right after its creation.
    pub open spec fn fresh(id: Seq<char>, created_at: SystemTime) -> SessionView {
        SessionView {
            id,
            entries: Seq::empty(),
            pending: Seq::empty(),
            created_at,
            task: None,
        }
    }

    /// The session with one more entry at the end of its log.
    pub open spec fn log(self, entry: EntryView) -> SessionView {
        SessionView { entries: self.entries.push(entry), ..self }
    }

    /// The session with the response of its newest entry replaced; unchanged
    /// where the log is empty.
    pub open spec fn respond(self, response: Seq<char>) -> SessionView {
        if self.entries.len() == 0 {
            self
        } else {
            let last = self.entries.len() - 1;
            SessionView {
                entries: self.entries.update(
                    last,
                    EntryView { response: Some(response), ..self.entries[last] },
                ),
                ..self
            }
        }
    }

    /// The session with one more message at the back of its queue.
    pub open spec fn enqueue(self, message: MessageView) -> SessionView {
        SessionView { pending: self.pending.push(message), ..self }
    }

    /// The message at the front of the queue, where there is one.
    pub open spec fn front(self) -> Option<MessageView> {
        if self.pending.len() == 0 {
            None
        } else {
            Some(self.pending[0])
        }
    }

    /// The session without the message at the front of its queue; unchanged
    /// where the queue is empty.
    pub open spec fn dequeue(self) -> SessionView {
        if self.pending.len() == 0 {
            self
        } else {
            SessionView { pending: self.pending.drop_first(), ..self }
        }
    }

    /// The session as a copy shows it: the same data, without the task handle.
    pub open spec fn snapshot(self) -> SessionView {
        SessionView { task: None, ..self }
    }
}

/// The views of a run of entries, in order.
pub open spec fn entry_views(entries: Seq<SessionEntry>) -> Seq<EntryView> {
    entries.map_values(|e: SessionEntry| e@)
}

/// The views of a run of messages, in order.
pub open spec fn message_views(messages: Seq<Message>) -> Seq<MessageView> {
    messages.map_values(|m: Message| m@)
}

/// A log of processed messages, a queue of pending ones, and the handle of
/// the task that consumes the queue.
#[derive(Debug)]
pub struct Session {
    pub id: String,
    entries: Vec<SessionEntry>,
    message_stack: VecDeque<Message>,
    created_at: SystemTime,
    join_handle: Option<JoinHandle<()>>,
}

impl View for Session {
    type V = SessionView;

    closed spec fn view(&self) -> SessionView {
        SessionView {
            id: self.id@,
            entries: entry_views(self.entries@),
            pending: message_views(self.message_stack@),
            created_at: self.created_at,
            task: self.join_handle,
        }
    }
}

impl Clone for Session {
    /// Copies the session's data. A task handle cannot be copied: the copy
    /// holds none.
    fn clone(&self) -> (copy: Self)
        ensures
            copy@ == self@.snapshot(),
    {
        let mut entries: Vec<SessionEntry> = Vec::new();
        let mut i: usize = 0;
        while i < self.entries.len()
            invariant
                i <= self.entries.len(),
                entries.len() == i,
                forall|k: int| 0 <= k < i ==> entries[k]@ == self.entries[k]@,
            decreases self.entries.len() - i,
        {
            entries.push(self.entries[i].clone());
            i += 1;
        }
        let mut message_stack: VecDeque<Message> = VecDeque::new();
        let mut j: usize = 0;
        while j < self.message_stack.len()
            invariant
                j <= self.message_stack.len(),
                message_stack.len() == j,
                forall|k: int| 0 <= k < j ==> message_stack@[k]@ == self.message_stack@[k]@,
            decreases self.message_stack.len() - j,
        {
            message_stack.push_back(self.message_stack[j].clone());
            j += 1;
        }
        assert(entry_views(entries@) =~= entry_views(self.entries@));
        assert(message_views(message_stack@) =~= message_views(self.message_stack@));
        Session {
            id: self.id.clone(),
            entries,
            message_stack,
            created_at: self.created_at,
            join_handle: None,
        }
    }
}

impl Session {
    /// The session's id.
    pub fn id(&self) -> (id: &str)
        ensures
            id@ == self@.id,
    {
        self.id.as_str()
    }

    /// Creates an empty session with the given id, stamped with the current
    /// time.
    pub fn new(id: String) -> (session: Self)
        ensures
            session@ == SessionView::fresh(id@, session@.created_at),
    {
        let session = Session {
            id,
            entries: Vec::new(),
            message_stack: VecDeque::new(),
            created_at: crate::clock::now(),
            join_handle: None,
        };
        assert(session@.entries =~= Seq::empty());
        assert(session@.pending =~= Seq::empty());
        session
    }

    /// Appends an entry for a message that has no response yet.
    pub fn add_message(&mut self, message: Message)
        ensures
            final(self)@ == old(self)@.log(final(self)@.entries.last()),
            final(self)@.entries.last().message == message@,
            final(self)@.entries.last().response == None::<Seq<char>>,
    {
        let entry = SessionEntry::new(message);
        self.entries.push(entry);
        assert(self@.entries =~= old(self)@.entries.push(entry@));
    }

    /// Appends an entry for a message together with its response.
    pub fn add_message_with_response(&mut self, message: Message, response: String)
        ensures
            final(self)@ == old(self)@.log(final(self)@.entries.last()),
            final(self)@.entries.last().message == message@,
            final(self)@.entries.last().response == Some(response@),
    {
        let entry = SessionEntry::with_response(message, response);
        self.entries.push(entry);
        assert(self@.entries =~= old(self)@.entries.push(entry@));
    }

    /// Sets the response of the newest entry; does nothing on an empty log.
    pub fn set_last_response(&mut self, response: String)
        ensures
            final(self)@ == old(self)@.respond(response@),
    {
        let n = self.entries.len();
        if n > 0 {
            self.entries[n - 1].set_response(response);
            assert(self@.entries =~= old(self)@.respond(response@).entries);
        }
    }

    /// The log, oldest entry first.
    pub fn get_entries(&self) -> (entries: &[SessionEntry])
        ensures
            entry_views(entries@) == self@.entries,
    {
        self.entries.as_slice()
    }

    /// The number of entries in the log.
    pub fn entry_count(&self) -> (count: usize)
        ensures
            count == self@.entries.len(),
    {
        self.entries.len()
    }

    /// When the session was created.
    pub fn created_at(&self) -> (time: SystemTime)
        ensures
            time == self@.created_at,
    {
        self.created_at
    }

    /// Empties the log. The queue of pending messages stays as it is.
    pub fn clear(&mut self)
        ensures
            final(self)@ == (SessionView { entries: Seq::empty(), ..old(self)@ }),
    {
        self.entries.clear();
        assert(self@.entries =~= Seq::empty());
    }

    /// Puts a message at the back of the queue.
    pub fn push_message_to_stack(&mut self, message: Message)
        ensures
            final(self)@ == old(self)@.enqueue(message@),
    {
        self.message_stack.push_back(message);
        assert(self@.pending =~= old(self)@.pending.push(message@));
    }

    /// Takes the oldest message off the queue.
    pub fn pop_message_from_stack(&mut self) -> (message: Option<Message>)
        ensures
            final(self)@ == old(self)@.dequeue(),
            match message {
                Some(m) => old(self)@.front() == Some(m@),
                None => old(self)@.front().is_none(),
            },
    {
        let message = self.message_stack.pop_front();
        assert(self@.pending =~= old(self)@.dequeue().pending);
        message
    }

    /// Whether no message waits in the queue.
    pub fn is_message_stack_empty(&self) -> (empty: bool)
        ensures
            empty == (self@.pending.len() == 0),
    {
        self.message_stack.len() == 0
    }

    /// The number of messages that wait in the queue.
    pub fn message_stack_size(&self) -> (size: usize)
        ensures
            size == self@.pending.len(),
    {
        self.message_stack.len()
    }

    /// Whether the session holds the handle of a consumer task.
    pub fn has_join_handle(&self) -> (held: bool)
        ensures
            held == self@.task is Some,
    {
        self.join_handle.is_some()
    }

    /// Stores the handle of the consumer task, dropping one held before.
    pub fn set_join_handle(&mut self, handle: JoinHandle<()>)
        ensures
            final(self)@ == (SessionView { task: Some(handle), ..old(self)@ }),
    {
        self.join_handle = Some(handle);
    }

    /// Hands out the handle of the consumer task and leaves none behind.
    pub fn take_join_handle(&mut self) -> (handle: Option<JoinHandle<()>>)
        ensures
            handle == old(self)@.task,
            final(self)@ == old(self)@.snapshot(),
    {
        self.join_handle.take()
    }
}

} // verus!
