//! Agents: a name, a role, the names of the peers an agent is connected to,
//! and the agent's sessions.

use crate::consumer::{
    ConsumerAction, ConsumerActionView, ConsumerEvent, ConsumerEventView, POLL_INTERVAL_MILLIS,
};
use crate::errors::{session_exists, session_exists_text, session_missing, session_missing_text};
use crate::message::{Message, MessageView};
use crate::name_set::{with_name, without_name, NameSet};
use crate::session::{EntryView, Session, SessionView};
use std::time::SystemTime;
use tokio::task::JoinHandle;
use vstd::prelude::*;

verus! {

/// The ids of a run of sessions, in order.
pub open spec fn session_ids(sessions: Seq<SessionView>) -> Seq<Seq<char>> {
    sessions.map_values(|s: SessionView| s.id)
}

/// The mathematical value of an [`Agent`].
pub struct AgentView {
    /// The name by which the agent is addressed.
    pub name: Seq<char>,
    /// The role text, used as the system prompt of the agent's consumers.
    pub role: Seq<char>,
    /// The names of the connected peers, in the order in which they came.
    pub connections: Seq<Seq<char>>,
    /// The sessions, in the order of their creation.
    pub sessions: Seq<SessionView>,
}

impl AgentView {
    /// No peer is listed twice and no two sessions share an id.
    pub open spec fn wf(self) -> bool {
        &&& self.connections.no_duplicates()
        &&& session_ids(self.sessions).no_duplicates()
    }

    /// An agent without connections and sessions.
    pub open spec fn fresh(name: Seq<char>, role: Seq<char>) -> AgentView {
        AgentView { name, role, connections: Seq::empty(), sessions: Seq::empty() }
    }

    /// The agent as a copy shows it: the same data, every session without
    /// its task handle.
    pub open spec fn snapshot(self) -> AgentView {
        AgentView { sessions: self.sessions.map_values(|s: SessionView| s.snapshot()), ..self }
    }

    /// Whether the agent lists `other` among its connections.
    pub open spec fn is_connected_to(self, other: Seq<char>) -> bool {
        self.connections.contains(other)
    }

    /// The agent with `other` among its connections.
    pub open spec fn connect(self, other: Seq<char>) -> AgentView {
        AgentView { connections: with_name(self.connections, other), ..self }
    }

    /// The agent without `other` among its connections.
    pub open spec fn disconnect(self, other: Seq<char>) -> AgentView {
        AgentView { connections: without_name(self.connections, other), ..self }
    }

    /// Whether the agent has a session of the given id.
    pub open spec fn has_session(self, id: Seq<char>) -> bool {
        session_ids(self.sessions).contains(id)
    }

    /// The place of the session with the given id; meaningful where the
    /// agent has such a session.
    pub open spec fn session_index(self, id: Seq<char>) -> int {
        session_ids(self.sessions).index_of(id)
    }

    /// The session with the given id; meaningful where the agent has one.
    pub open spec fn session(self, id: Seq<char>) -> SessionView {
        self.sessions[self.session_index(id)]
    }

    /// The agent with one more session, the newest.
    pub open spec fn open_session(self, session: SessionView) -> AgentView {
        AgentView { sessions: self.sessions.push(session), ..self }
    }

    /// The agent with the session of the same id replaced by the given one.
    pub open spec fn put_session(self, session: SessionView) -> AgentView {
        AgentView {
            sessions: self.sessions.update(self.session_index(session.id), session),
            ..self
        }
    }

    /// The agent without the session of the given id.
    pub open spec fn close_session(self, id: Seq<char>) -> AgentView {
        AgentView { sessions: self.sessions.remove(self.session_index(id)), ..self }
    }

    /// The agent after a message has been put into the queue of one of its
    /// sessions.
    pub open spec fn deliver(self, id: Seq<char>, message: MessageView) -> AgentView {
        self.put_session(self.session(id).enqueue(message))
    }

    /// The agent after the session of the given id has been given the handle
    /// of its consumer task.
    pub open spec fn hold_task(self, id: Seq<char>, handle: JoinHandle<()>) -> AgentView {
        self.put_session(SessionView { task: Some(handle), ..self.session(id) })
    }

    /// Whether the agent has a session of the given id that holds no task
    /// handle.
    pub open spec fn awaits_consumer(self, id: Seq<char>) -> bool {
        self.has_session(id) && self.session(id).task is None
    }

    /// The task handle that the session of the given id holds, if the agent
    /// has such a session and it holds one.
    pub open spec fn task_of(self, id: Seq<char>) -> Option<JoinHandle<()>> {
        if self.has_session(id) {
            self.session(id).task
        } else {
            None
        }
    }

    /// The agent after the session of the given id has given up its task
    /// handle.
    pub open spec fn release_task(self, id: Seq<char>) -> AgentView {
        if self.has_session(id) {
            self.put_session(self.session(id).snapshot())
        } else {
            self
        }
    }

    /// What the consumer of session `id` is asked to do on an event.
    pub open spec fn consumer_action(
        self,
        id: Seq<char>,
        event: ConsumerEventView,
    ) -> ConsumerActionView {
        match event {
            ConsumerEventView::Wake => if !self.has_session(id) {
                ConsumerActionView::Stop
            } else {
                match self.session(id).front() {
                    Some(message) => ConsumerActionView::Generate {
                        system_prompt: self.role,
                        message,
                    },
                    None => ConsumerActionView::Sleep { millis: POLL_INTERVAL_MILLIS },
                }
            },
            _ => ConsumerActionView::Sleep { millis: POLL_INTERVAL_MILLIS },
        }
    }

    /// The agent after the consumer of session `id` has been told of an
    /// event. A wake-up takes the oldest pending message off the queue; a
    /// response is logged with the message it answers, stamped `stamp`; a
    /// failure leaves no trace. Where the session is gone nothing changes.
    pub open spec fn consumer_effect(
        self,
        id: Seq<char>,
        event: ConsumerEventView,
        stamp: SystemTime,
    ) -> AgentView {
        if !self.has_session(id) {
            self
        } else {
            match event {
                ConsumerEventView::Wake => self.put_session(self.session(id).dequeue()),
                ConsumerEventView::Generated { message, response } => self.put_session(
                    self.session(id).log(
                        EntryView { message, response: Some(response), timestamp: stamp },
                    ),
                ),
                ConsumerEventView::Failed { .. } => self,
            }
        }
    }
}

/// What giving up a task handle changes: nothing where there was none to
/// give, and never which sessions the agent has or what is left once the
/// session is closed.
pub proof fn lemma_release_task(agent: AgentView, id: Seq<char>)
    requires
        agent.wf(),
    ensures
        agent.task_of(id) is None ==> agent.release_task(id) == agent,
        agent.release_task(id).has_session(id) == agent.has_session(id),
        agent.release_task(id).close_session(id) == agent.close_session(id),
        agent.release_task(id).name == agent.name,
        agent.release_task(id).wf(),
{
    let released = agent.release_task(id);
    if agent.has_session(id) {
        let at = agent.session_index(id);
        assert(session_ids(released.sessions) =~= session_ids(agent.sessions));
        assert(released.sessions.remove(at) =~= agent.sessions.remove(at));
        if agent.task_of(id) is None {
            assert(released.sessions =~= agent.sessions);
        }
    }
}

/// A step of a consumer leaves the agent's name and role as they are.
pub proof fn lemma_consumer_effect_keeps_name(
    agent: AgentView,
    id: Seq<char>,
    event: ConsumerEventView,
    stamp: SystemTime,
)
    ensures
        agent.consumer_effect(id, event, stamp).name == agent.name,
        agent.consumer_effect(id, event, stamp).role == agent.role,
        agent.consumer_effect(id, event, stamp).connections == agent.connections,
{
}

/// In a run of sessions with distinct ids, a session is found at its own
/// place.
pub proof fn lemma_session_index(sessions: Seq<SessionView>, at: int)
    requires
        session_ids(sessions).no_duplicates(),
        0 <= at < sessions.len(),
    ensures
        session_ids(sessions).contains(sessions[at].id),
        session_ids(sessions).index_of(sessions[at].id) == at,
{
    let ids = session_ids(sessions);
    assert(ids[at] == sessions[at].id);
    let found = ids.index_of(sessions[at].id);
    assert(ids[found] == ids[at]);
}

/// A named participant with a role, the peers it is connected to, and its
/// sessions.
#[derive(Debug)]
pub struct Agent {
    pub name: String,
    pub role: String,
    connections: NameSet,
    sessions: Vec<Session>,
}

impl View for Agent {
    type V = AgentView;

    closed spec fn view(&self) -> AgentView {
        AgentView {
            name: self.name@,
            role: self.role@,
            connections: self.connections@,
            sessions: self.sessions@.map_values(|s: Session| s@),
        }
    }
}

impl Clone for Agent {
    /// Copies the agent as it stands: the copy has the same connections and
    /// a snapshot of every session, and shares nothing with the agent it was
    /// made from.
    fn clone(&self) -> (copy: Self)
        ensures
            copy@ == self@.snapshot(),
            self.wf() ==> copy.wf(),
    {
        let mut sessions: Vec<Session> = Vec::new();
        let mut i: usize = 0;
        while i < self.sessions.len()
            invariant
                i <= self.sessions.len(),
                sessions.len() == i,
                forall|k: int| 0 <= k < i ==> sessions[k]@ == self.sessions[k]@.snapshot(),
            decreases self.sessions.len() - i,
        {
            sessions.push(self.sessions[i].clone());
            i += 1;
        }
        let copy = Agent {
            name: self.name.clone(),
            role: self.role.clone(),
            connections: self.connections.clone(),
            sessions,
        };
        proof {
            assert(copy@.sessions =~= self@.snapshot().sessions);
            assert(session_ids(copy@.sessions) =~= session_ids(self@.sessions));
        }
        copy
    }
}

impl Agent {
    /// No peer is listed twice and no two sessions share an id.
    pub open spec fn wf(&self) -> bool {
        self@.wf()
    }

    /// Creates an agent without connections and sessions.
    pub fn new(name: String, role: String) -> (agent: Self)
        ensures
            agent@ == AgentView::fresh(name@, role@),
            agent.wf(),
    {
        let agent = Agent { name, role, connections: NameSet::new(), sessions: Vec::new() };
        assert(agent@.sessions =~= Seq::<SessionView>::empty());
        agent
    }

    /// The agent's name.
    pub fn name(&self) -> (name: &str)
        ensures
            name@ == self@.name,
    {
        self.name.as_str()
    }

    /// The agent's role text.
    pub fn role(&self) -> (role: &str)
        ensures
            role@ == self@.role,
    {
        self.role.as_str()
    }

    /// The place of the session with the given id, if the agent has one.
    fn find_session(&self, session_id: &str) -> (found: Option<usize>)
        requires
            self.wf(),
        ensures
            match found {
                Some(at) => {
                    &&& self@.has_session(session_id@)
                    &&& at == self@.session_index(session_id@)
                    &&& at < self.sessions.len()
                    &&& self.sessions[at as int]@.id == session_id@
                },
                None => !self@.has_session(session_id@),
            },
    {
        let mut i: usize = 0;
        while i < self.sessions.len()
            invariant
                self.wf(),
                i <= self.sessions.len(),
                forall|k: int| 0 <= k < i ==> self.sessions[k]@.id != session_id@,
            decreases self.sessions.len() - i,
        {
            if self.sessions[i].id().eq(session_id) {
                proof {
                    lemma_session_index(self@.sessions, i as int);
                }
                return Some(i);
            }
            i += 1;
        }
        assert(!session_ids(self@.sessions).contains(session_id@));
        None
    }

    /// Connects this agent to the agent of the given name.
    pub fn connect_to(&mut self, other_agent_name: &str)
        requires
            old(self).wf(),
        ensures
            final(self).wf(),
            final(self)@ == old(self)@.connect(other_agent_name@),
    {
        let _ = self.connections.insert(other_agent_name);
    }

    /// Disconnects this agent from the agent of the given name.
    pub fn disconnect_from(&mut self, other_agent_name: &str)
        requires
            old(self).wf(),
        ensures
            final(self).wf(),
            final(self)@ == old(self)@.disconnect(other_agent_name@),
    {
        let _ = self.connections.remove(other_agent_name);
    }

    /// Whether this agent is connected to the agent of the given name.
    pub fn is_connected_to(&self, other_agent_name: &str) -> (connected: bool)
        ensures
            connected == self@.is_connected_to(other_agent_name@),
    {
        self.connections.contains(other_agent_name)
    }

    /// The names of the connected agents, in the order in which they were
    /// connected.
    pub fn get_connections(&self) -> (names: Vec<String>)
        ensures
            crate::name_set::name_views(names@) == self@.connections,
    {
        self.connections.to_vec()
    }

    /// Puts a message into the queue of the given session.
    pub fn send_message(&mut self, session_id: &str, message: Message) -> (sent: Result<
        (),
        String,
    >)
        requires
            old(self).wf(),
        ensures
            final(self).wf(),
            sent is Ok <==> old(self)@.has_session(session_id@),
            sent is Ok ==> final(self)@ == old(self)@.deliver(session_id@, message@),
            sent matches Err(text) ==> final(self)@ == old(self)@ && text@
                == session_missing_text(session_id@),
    {
        match self.find_session(session_id) {
            Some(at) => {
                self.sessions[at].push_message_to_stack(message);
                proof {
                    assert(self@.sessions =~= old(self)@.deliver(session_id@, message@).sessions);
                    assert(session_ids(self@.sessions) =~= session_ids(old(self)@.sessions));
                }
                Ok(())
            },
            None => Err(session_missing(session_id)),
        }
    }

    /// Creates an empty session with the given id.
    pub fn create_session(&mut self, session_id: String) -> (created: Result<(), String>)
        requires
            old(self).wf(),
        ensures
            final(self).wf(),
            created is Ok <==> !old(self)@.has_session(session_id@),
            created is Ok ==> final(self)@ == old(self)@.open_session(
                SessionView::fresh(session_id@, final(self)@.sessions.last().created_at),
            ),
            created matches Err(text) ==> final(self)@ == old(self)@ && text@
                == session_exists_text(session_id@),
    {
        if self.find_session(session_id.as_str()).is_some() {
            return Err(session_exists(session_id.as_str()));
        }
        let session = Session::new(session_id);
        self.sessions.push(session);
        proof {
            assert(self@.sessions =~= old(self)@.sessions.push(session@));
            assert(session_ids(self@.sessions) =~= session_ids(old(self)@.sessions).push(
                session_id@,
            ));
        }
        Ok(())
    }

    /// A copy of the session with the given id, without its task handle.
    pub fn get_session(&self, session_id: &str) -> (session: Option<Session>)
        requires
            self.wf(),
        ensures
            session is Some <==> self@.has_session(session_id@),
            session matches Some(s) ==> s@ == self@.session(session_id@).snapshot(),
    {
        match self.find_session(session_id) {
            Some(at) => Some(self.sessions[at].clone()),
            None => None,
        }
    }

    /// The ids of the agent's sessions, in the order of their creation.
    pub fn list_sessions(&self) -> (ids: Vec<String>)
        ensures
            crate::name_set::name_views(ids@) == session_ids(self@.sessions),
    {
        let mut ids: Vec<String> = Vec::new();
        let mut i: usize = 0;
        while i < self.sessions.len()
            invariant
                i <= self.sessions.len(),
                ids.len() == i,
                forall|k: int| 0 <= k < i ==> ids[k]@ == self.sessions[k]@.id,
            decreases self.sessions.len() - i,
        {
            ids.push(self.sessions[i].id().to_owned());
            i += 1;
        }
        ids
    }

    /// Takes the session with the given id away from the agent and hands it
    /// out, its log and its task handle included.
    pub fn remove_session(&mut self, session_id: &str) -> (removed: Result<Session, String>)
        requires
            old(self).wf(),
        ensures
            final(self).wf(),
            removed is Ok <==> old(self)@.has_session(session_id@),
            removed matches Ok(session) ==> session@ == old(self)@.session(session_id@)
                && final(self)@ == old(self)@.close_session(session_id@),
            removed matches Err(text) ==> final(self)@ == old(self)@ && text@
                == session_missing_text(session_id@),
    {
        match self.find_session(session_id) {
            Some(at) => {
                let session = self.sessions.remove(at);
                proof {
                    assert(self@.sessions =~= old(self)@.sessions.remove(at as int));
                    assert(session_ids(self@.sessions) =~= session_ids(
                        old(self)@.sessions,
                    ).remove(at as int));
                }
                Ok(session)
            },
            None => Err(session_missing(session_id)),
        }
    }

    /// Stores the handle of the consumer task of the given session.
    pub fn set_session_join_handle(&mut self, session_id: &str, handle: JoinHandle<()>) -> (stored:
        Result<(), String>)
        requires
            old(self).wf(),
        ensures
            final(self).wf(),
            stored is Ok <==> old(self)@.has_session(session_id@),
            stored is Ok ==> final(self)@ == old(self)@.hold_task(session_id@, handle),
            stored matches Err(text) ==> final(self)@ == old(self)@ && text@
                == session_missing_text(session_id@),
    {
        match self.find_session(session_id) {
            Some(at) => {
                self.sessions[at].set_join_handle(handle);
                proof {
                    assert(self@.sessions =~= old(self)@.sessions.update(
                        at as int,
                        SessionView { task: Some(handle), ..old(self)@.session(session_id@) },
                    ));
                    assert(session_ids(self@.sessions) =~= session_ids(old(self)@.sessions));
                }
                Ok(())
            },
            None => Err(session_missing(session_id)),
        }
    }

    /// Whether the agent has a session of the given id for which no consumer
    /// task is on record.
    pub fn awaits_consumer(&self, session_id: &str) -> (awaits: bool)
        requires
            self.wf(),
        ensures
            awaits == self@.awaits_consumer(session_id@),
    {
        match self.find_session(session_id) {
            Some(at) => !self.sessions[at].has_join_handle(),
            None => false,
        }
    }

    /// Hands out the handle of the consumer task of the given session and
    /// leaves none behind. Gives nothing where the agent has no such session
    /// or the session holds no handle.
    pub fn take_session_join_handle(&mut self, session_id: &str) -> (handle: Option<
        JoinHandle<()>,
    >)
        requires
            old(self).wf(),
        ensures
            final(self).wf(),
            handle == old(self)@.task_of(session_id@),
            final(self)@ == old(self)@.release_task(session_id@),
    {
        match self.find_session(session_id) {
            Some(at) => {
                let handle = self.sessions[at].take_join_handle();
                proof {
                    assert(self@.sessions =~= old(self)@.release_task(session_id@).sessions);
                    assert(session_ids(self@.sessions) =~= session_ids(old(self)@.sessions));
                }
                handle
            },
            None => None,
        }
    }

    /// One step of the consumer of the given session: takes in an event,
    /// updates the session, and says what the consumer has to do next.
    ///
    /// On a wake-up the consumer stops if the session is gone, rests if the
    /// queue is empty, and otherwise takes the oldest message off the queue
    /// and asks for a response to it under the agent's role. A response is
    /// logged with its message if the session still exists; a failure is
    /// dropped. After either the consumer rests.
    pub fn consumer_step(&mut self, session_id: &str, event: ConsumerEvent) -> (action:
        ConsumerAction)
        requires
            old(self).wf(),
        ensures
            final(self).wf(),
            action@ == old(self)@.consumer_action(session_id@, event@),
            final(self)@ == old(self)@.consumer_effect(
                session_id@,
                event@,
                final(self)@.session(session_id@).entries.last().timestamp,
            ),
    {
        let found = self.find_session(session_id);
        match event {
            ConsumerEvent::Wake => match found {
                None => ConsumerAction::Stop,
                Some(at) => {
                    let next = self.sessions[at].pop_message_from_stack();
                    proof {
                        assert(self@.sessions =~= old(self)@.put_session(
                            old(self)@.session(session_id@).dequeue(),
                        ).sessions);
                        assert(session_ids(self@.sessions) =~= session_ids(old(self)@.sessions));
                    }
                    match next {
                        Some(message) => ConsumerAction::Generate {
                            system_prompt: self.role.clone(),
                            message,
                        },
                        None => ConsumerAction::Sleep { millis: POLL_INTERVAL_MILLIS },
                    }
                },
            },
            ConsumerEvent::Generated { message, response } => {
                if let Some(at) = found {
                    self.sessions[at].add_message_with_response(message, response);
                    proof {
                        let entry = self.sessions[at as int]@.entries.last();
                        assert(session_ids(self@.sessions) =~= session_ids(old(self)@.sessions));
                        lemma_session_index(self@.sessions, at as int);
                        assert(self@.sessions =~= old(self)@.put_session(
                            old(self)@.session(session_id@).log(entry),
                        ).sessions);
                    }
                }
                ConsumerAction::Sleep { millis: POLL_INTERVAL_MILLIS }
            },
            ConsumerEvent::Failed { message: _, error: _ } => ConsumerAction::Sleep {
                millis: POLL_INTERVAL_MILLIS,
            },
        }
    }
}

} // verus!
