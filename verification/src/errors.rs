//! The errors that registry and session operations report.

use vstd::prelude::*;

verus! {

/// The mathematical value of an [`AgentError`].
pub enum AgentErrorView {
    NotFound(Seq<char>),
    Exists(Seq<char>),
    NotConnected(Seq<char>, Seq<char>),
    NoActiveSession(Seq<char>),
}

impl AgentErrorView {
    /// The text that describes the error to a reader.
    pub open spec fn text(self) -> Seq<char> {
        match self {
            AgentErrorView::NotFound(name) => "Agent "@ + name + " not found!"@,
            AgentErrorView::Exists(name) => "Agent "@ + name + " already exists!"@,
            AgentErrorView::NotConnected(from, to) => "Agent "@ + from
                + " not connected to Agent "@ + to,
            AgentErrorView::NoActiveSession(name) => "No active session for agent '"@ + name
                + "'"@,
        }
    }
}

/// A failed operation on the agent registry.
#[derive(Debug)]
pub enum AgentError {
    /// No agent of this name is registered.
    NotFound(String),
    /// An agent of this name is registered already.
    Exists(String),
    /// The first agent is not connected to the second.
    NotConnected(String, String),
    /// No session is active, so nothing can be delivered to this agent.
    NoActiveSession(String),
}

impl View for AgentError {
    type V = AgentErrorView;

    open spec fn view(&self) -> AgentErrorView {
        match self {
            AgentError::NotFound(name) => AgentErrorView::NotFound(name@),
            AgentError::Exists(name) => AgentErrorView::Exists(name@),
            AgentError::NotConnected(from, to) => AgentErrorView::NotConnected(from@, to@),
            AgentError::NoActiveSession(name) => AgentErrorView::NoActiveSession(name@),
        }
    }
}

impl AgentError {
    /// Renders the error as text.
    pub fn to_string(&self) -> (text: String)
        ensures
            text@ == self@.text(),
    {
        match self {
            AgentError::NotFound(name) => {
                let mut text = String::from_str("Agent ");
                text.append(name.as_str());
                text.append(" not found!");
                text
            },
            AgentError::Exists(name) => {
                let mut text = String::from_str("Agent ");
                text.append(name.as_str());
                text.append(" already exists!");
                text
            },
            AgentError::NotConnected(from, to) => {
                let mut text = String::from_str("Agent ");
                text.append(from.as_str());
                text.append(" not connected to Agent ");
                text.append(to.as_str());
                text
            },
            AgentError::NoActiveSession(name) => {
                let mut text = String::from_str("No active session for agent '");
                text.append(name.as_str());
                text.append("'");
                text
            },
        }
    }
}

impl From<AgentError> for String {
    /// The error rendered as text.
    fn from(value: AgentError) -> (text: String)
        ensures
            text@ == value@.text(),
    {
        value.to_string()
    }
}

/// A specification cannot name a `String` but by its text, so the conversion
/// is described by the contract of `from` and not by a value given here.
impl vstd::std_specs::convert::FromSpecImpl<AgentError> for String {
    open spec fn obeys_from_spec() -> bool {
        false
    }

    open spec fn from_spec(value: AgentError) -> String {
        arbitrary()
    }
}

/// The mathematical value of a [`SessionError`].
pub enum SessionErrorView {
    NotFound(Seq<char>),
    Stopped(Seq<char>),
    Running(Seq<char>),
    Exists(Seq<char>),
}

impl SessionErrorView {
    /// The text that describes the error to a reader.
    pub open spec fn text(self) -> Seq<char> {
        match self {
            SessionErrorView::NotFound(id) => "Session "@ + id + " not found!"@,
            SessionErrorView::Stopped(id) => "Session "@ + id + " stopped!"@,
            SessionErrorView::Running(id) => "Session "@ + id + " still running!"@,
            SessionErrorView::Exists(id) => "Session "@ + id + " already exists!"@,
        }
    }
}

/// A failed operation on a session.
#[derive(Debug)]
pub enum SessionError {
    /// No session of this id is known.
    NotFound(String),
    /// The session's consumer has stopped.
    Stopped(String),
    /// The session's consumer is still running.
    Running(String),
    /// A session of this id is known already.
    Exists(String),
}

impl View for SessionError {
    type V = SessionErrorView;

    open spec fn view(&self) -> SessionErrorView {
        match self {
            SessionError::NotFound(id) => SessionErrorView::NotFound(id@),
            SessionError::Stopped(id) => SessionErrorView::Stopped(id@),
            SessionError::Running(id) => SessionErrorView::Running(id@),
            SessionError::Exists(id) => SessionErrorView::Exists(id@),
        }
    }
}

impl SessionError {
    /// Renders the error as text.
    pub fn to_string(&self) -> (text: String)
        ensures
            text@ == self@.text(),
    {
        match self {
            SessionError::NotFound(id) => {
                let mut text = String::from_str("Session ");
                text.append(id.as_str());
                text.append(" not found!");
                text
            },
            SessionError::Stopped(id) => {
                let mut text = String::from_str("Session ");
                text.append(id.as_str());
                text.append(" stopped!");
                text
            },
            SessionError::Running(id) => {
                let mut text = String::from_str("Session ");
                text.append(id.as_str());
                text.append(" still running!");
                text
            },
            SessionError::Exists(id) => {
                let mut text = String::from_str("Session ");
                text.append(id.as_str());
                text.append(" already exists!");
                text
            },
        }
    }
}

impl From<SessionError> for String {
    /// The error rendered as text.
    fn from(value: SessionError) -> (text: String)
        ensures
            text@ == value@.text(),
    {
        value.to_string()
    }
}

/// As for [`AgentError`]: the contract of `from` describes the conversion.
impl vstd::std_specs::convert::FromSpecImpl<SessionError> for String {
    open spec fn obeys_from_spec() -> bool {
        false
    }

    open spec fn from_spec(value: SessionError) -> String {
        arbitrary()
    }
}

/// The mathematical value of a [`SendError`].
pub enum SendErrorView {
    Agent(AgentErrorView),
    Delivery(Seq<char>),
}

impl SendErrorView {
    /// The text that describes the error to a reader.
    pub open spec fn text(self) -> Seq<char> {
        match self {
            SendErrorView::Agent(error) => error.text(),
            SendErrorView::Delivery(text) => text,
        }
    }
}

/// Why a message could not be sent from one agent to another.
#[derive(Debug)]
pub enum SendError {
    /// The registry refused: an agent is missing, the two are not connected,
    /// or no session is active.
    Agent(AgentError),
    /// The recipient refused the message, with the text it gave.
    Delivery(String),
}

impl View for SendError {
    type V = SendErrorView;

    open spec fn view(&self) -> SendErrorView {
        match self {
            SendError::Agent(error) => SendErrorView::Agent(error@),
            SendError::Delivery(text) => SendErrorView::Delivery(text@),
        }
    }
}

impl SendError {
    /// Renders the error as text.
    pub fn to_string(&self) -> (text: String)
        ensures
            text@ == self@.text(),
    {
        match self {
            SendError::Agent(error) => error.to_string(),
            SendError::Delivery(text) => text.clone(),
        }
    }
}

/// The text reported when an agent has no session of the given id.
pub open spec fn session_missing_text(id: Seq<char>) -> Seq<char> {
    "Session '"@ + id + "' not found"@
}

/// The text reported when a session of the given id exists already.
pub open spec fn session_exists_text(id: Seq<char>) -> Seq<char> {
    "Session '"@ + id + "' already exists"@
}

/// The text reported when the sender of a broadcast is not registered.
pub open spec fn sender_missing_text(name: Seq<char>) -> Seq<char> {
    "Sender agent '"@ + name + "' not found"@
}

/// The text reported when no agent holds a running consumer for the session.
pub open spec fn no_tasks_text(id: Seq<char>) -> Seq<char> {
    "No active processing tasks found for session '"@ + id + "'"@
}

/// The text reported when at least one awaited consumer ended in a panic.
pub open spec fn tasks_panicked_text() -> Seq<char> {
    "Some tasks panicked"@
}

/// Builds the text of [`session_missing_text`].
pub fn session_missing(id: &str) -> (text: String)
    ensures
        text@ == session_missing_text(id@),
{
    let mut text = String::from_str("Session '");
    text.append(id);
    text.append("' not found");
    text
}

/// Builds the text of [`session_exists_text`].
pub fn session_exists(id: &str) -> (text: String)
    ensures
        text@ == session_exists_text(id@),
{
    let mut text = String::from_str("Session '");
    text.append(id);
    text.append("' already exists");
    text
}

/// Builds the text of [`sender_missing_text`].
pub fn sender_missing(name: &str) -> (text: String)
    ensures
        text@ == sender_missing_text(name@),
{
    let mut text = String::from_str("Sender agent '");
    text.append(name);
    text.append("' not found");
    text
}

/// Builds the text of [`no_tasks_text`].
pub fn no_tasks(id: &str) -> (text: String)
    ensures
        text@ == no_tasks_text(id@),
{
    let mut text = String::from_str("No active processing tasks found for session '");
    text.append(id);
    text.append("'");
    text
}

/// Builds the text of [`tasks_panicked_text`].
pub fn tasks_panicked() -> (text: String)
    ensures
        text@ == tasks_panicked_text(),
{
    String::from_str("Some tasks panicked")
}

} // verus!
