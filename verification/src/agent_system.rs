//! The registry of agents: who is registered, who is connected to whom, which
//! sessions exist, and how messages are routed.

use crate::agent::{Agent, AgentView};
use crate::consumer::{ConsumerAction, ConsumerEvent};
use crate::errors::{
    no_tasks, no_tasks_text, sender_missing, sender_missing_text, session_exists,
    session_exists_text, session_missing_text, AgentError, AgentErrorView, SendError,
    SessionError, SessionErrorView,
};
use crate::message::{Message, MessageView};
use crate::name_set::{name_views, NameSet};
use crate::registry::{
    agent_names, awaits, holds_task, lemma_agent_index, lemma_first_holder, messages_to, tasks_of,
    SystemView,
};
use crate::session::{message_views, text_view};
use tokio::task::JoinHandle;
use vstd::prelude::*;

verus! {

/// The views of a run of agents, in order.
pub open spec fn agent_views(agents: Seq<Agent>) -> Seq<AgentView> {
    agents.map_values(|a: Agent| a@)
}

/// The views of a run of borrowed agents, in order.
pub open spec fn agent_ref_views(agents: Seq<&Agent>) -> Seq<AgentView> {
    agents.map_values(|a: &Agent| a@)
}

/// The registry that owns all agents, knows all session ids, and points at
/// the one active session.
pub struct AgentSystem {
    agents: Vec<Agent>,
    session_ids: NameSet,
    active_session: Option<String>,
}

impl View for AgentSystem {
    type V = SystemView;

    closed spec fn view(&self) -> SystemView {
        SystemView {
            agents: agent_views(self.agents@),
            session_ids: self.session_ids@,
            active_session: text_view(self.active_session),
        }
    }
}

impl Default for AgentSystem {
    fn default() -> (system: Self)
        ensures
            system@ == SystemView::empty(),
            system.wf(),
    {
        Self::new()
    }
}

impl AgentSystem {
    /// Names and session ids are unique, every agent is well formed, and the
    /// active session is a known one.
    pub open spec fn wf(&self) -> bool {
        self@.wf()
    }

    /// Creates a system without agents and sessions.
    pub fn new() -> (system: Self)
        ensures
            system@ == SystemView::empty(),
            system.wf(),
    {
        let system = AgentSystem {
            agents: Vec::new(),
            session_ids: NameSet::new(),
            active_session: None,
        };
        assert(system@.agents =~= Seq::<AgentView>::empty());
        system
    }

    /// The place of the agent of the given name, if it is registered.
    fn find_agent(&self, name: &str) -> (found: Option<usize>)
        requires
            self.wf(),
        ensures
            match found {
                Some(at) => {
                    &&& self@.has_agent(name@)
                    &&& at == self@.agent_index(name@)
                    &&& at < self.agents.len()
                    &&& self.agents[at as int]@.name == name@
                },
                None => !self@.has_agent(name@),
            },
    {
        let mut i: usize = 0;
        while i < self.agents.len()
            invariant
                self.wf(),
                i <= self.agents.len(),
                forall|k: int| 0 <= k < i ==> self.agents[k]@.name != name@,
            decreases self.agents.len() - i,
        {
            if self.agents[i].name().eq(name) {
                proof {
                    lemma_agent_index(self@.agents, i as int);
                }
                return Some(i);
            }
            i += 1;
        }
        assert(!agent_names(self@.agents).contains(name@));
        None
    }

    /// Registers an agent. Fails if its name is taken.
    pub fn add_agent(&mut self, agent: Agent) -> (added: Result<(), AgentError>)
        requires
            old(self).wf(),
            agent.wf(),
        ensures
            final(self).wf(),
            added is Ok <==> !old(self)@.has_agent(agent@.name),
            added is Ok ==> final(self)@ == old(self)@.add_agent(agent@),
            added matches Err(error) ==> final(self)@ == old(self)@ && error@
                == AgentErrorView::Exists(agent@.name),
    {
        if self.find_agent(agent.name()).is_some() {
            return Err(AgentError::Exists(agent.name().to_owned()));
        }
        self.agents.push(agent);
        proof {
            assert(self@.agents =~= old(self)@.agents.push(agent@));
            assert(agent_names(self@.agents) =~= agent_names(old(self)@.agents).push(
                agent@.name,
            ));
        }
        Ok(())
    }

    /// The agent of the given name, if it is registered.
    pub fn get_agent(&self, name: &str) -> (agent: Option<&Agent>)
        requires
            self.wf(),
        ensures
            agent is Some <==> self@.has_agent(name@),
            agent matches Some(a) ==> a@ == self@.agent(name@) && a.wf(),
    {
        match self.find_agent(name) {
            Some(at) => Some(&self.agents[at]),
            None => None,
        }
    }

    /// The registered agents, in the order of their registration.
    pub fn list_agents(&self) -> (agents: Vec<&Agent>)
        ensures
            agent_ref_views(agents@) == self@.agents,
            self.wf() ==> forall|i: int| 0 <= i < agents.len() ==> (#[trigger] agents[i]).wf(),
    {
        let mut agents: Vec<&Agent> = Vec::new();
        let mut i: usize = 0;
        while i < self.agents.len()
            invariant
                i <= self.agents.len(),
                agents.len() == i,
                forall|k: int| 0 <= k < i ==> agents[k]@ == self.agents[k]@,
            decreases self.agents.len() - i,
        {
            agents.push(&self.agents[i]);
            i += 1;
        }
        assert(self.wf() ==> forall|i: int| 0 <= i < agents.len() ==> (#[trigger] agents[i]).wf()) by {
            if self.wf() {
                assert forall|i: int| 0 <= i < agents.len() implies (#[trigger] agents[i]).wf() by {
                    assert(self@.agents[i].wf());
                }
            }
        }
        agents
    }

    /// Removes an agent from the system and hands it out. Before it leaves,
    /// every other agent forgets its connection to it.
    pub fn remove_agent(&mut self, name: &str) -> (removed: Result<Agent, AgentError>)
        requires
            old(self).wf(),
        ensures
            final(self).wf(),
            removed is Ok <==> old(self)@.has_agent(name@),
            removed matches Ok(agent) ==> agent@ == old(self)@.agent(name@) && agent.wf()
                && final(self)@ == old(self)@.remove_agent(name@),
            removed is Ok ==> !final(self)@.has_agent(name@) && forall|other: Seq<char>|
                !#[trigger] final(self)@.connected(other, name@),
            removed matches Err(error) ==> final(self)@ == old(self)@ && error@
                == AgentErrorView::NotFound(name@),
    {
        let at = match self.find_agent(name) {
            Some(at) => at,
            None => {
                return Err(AgentError::NotFound(name.to_owned()));
            },
        };
        self.remove_connections(name);
        proof {
            lemma_agent_index(old(self)@.agents, at as int);
            assert forall|k: int| 0 <= k < old(self)@.agents.len() && k != at implies old(
                self,
            )@.agents[k].name != name@ by {
                assert(agent_names(old(self)@.agents)[k] == old(self)@.agents[k].name);
            }
        }
        let ghost swept = self@;
        let agent = self.agents.remove(at);
        proof {
            assert forall|k: int| 0 <= k < self@.agents.len() implies self@.agents[k] == old(
                self,
            )@.remove_agent(name@).agents[k] by {
                if k < at {
                    assert(self@.agents[k] == swept.agents[k]);
                } else {
                    assert(self@.agents[k] == swept.agents[k + 1]);
                }
            }
            assert(self@.agents =~= old(self)@.remove_agent(name@).agents);
            crate::guarantees::lemma_remove_agent_leaves_no_trace(old(self)@, name@);
        }
        Ok(agent)
    }

    /// Strikes the given name from the connections of every agent that goes
    /// by another name.
    fn remove_connections(&mut self, agent_name: &str)
        requires
            old(self).wf(),
        ensures
            final(self).wf(),
            final(self)@.agents.len() == old(self)@.agents.len(),
            final(self)@.session_ids == old(self)@.session_ids,
            final(self)@.active_session == old(self)@.active_session,
            agent_names(final(self)@.agents) == agent_names(old(self)@.agents),
            forall|k: int|
                0 <= k < old(self)@.agents.len() ==> #[trigger] final(self)@.agents[k] == if old(
                    self,
                )@.agents[k].name != agent_name@ {
                    old(self)@.agents[k].disconnect(agent_name@)
                } else {
                    old(self)@.agents[k]
                },
    {
        let mut i: usize = 0;
        while i < self.agents.len()
            invariant
                old(self).wf(),
                self.wf(),
                i <= self.agents.len(),
                self.agents.len() == old(self).agents.len(),
                self@.session_ids == old(self)@.session_ids,
                self@.active_session == old(self)@.active_session,
                agent_names(self@.agents) == agent_names(old(self)@.agents),
                forall|k: int|
                    0 <= k < self.agents.len() ==> #[trigger] self@.agents[k] == if k < i && old(
                        self,
                    )@.agents[k].name != agent_name@ {
                        old(self)@.agents[k].disconnect(agent_name@)
                    } else {
                        old(self)@.agents[k]
                    },
            decreases self.agents.len() - i,
        {
            let ghost before = self@;
            if !self.agents[i].name().eq(agent_name) {
                proof {
                    crate::name_set::lemma_without_name(
                        before.agents[i as int].connections,
                        agent_name@,
                    );
                }
                self.agents[i].disconnect_from(agent_name);
                proof {
                    assert(self@.agents =~= before.agents.update(
                        i as int,
                        before.agents[i as int].disconnect(agent_name@),
                    ));
                    Self::lemma_put_agent(before, self@, i as int);
                }
            }
            i += 1;
        }
    }

    /// After the agent at place `at` has changed but kept its name and stayed
    /// well formed, the system is well formed as before.
    proof fn lemma_put_agent(before: SystemView, after: SystemView, at: int)
        requires
            before.wf(),
            0 <= at < before.agents.len(),
            after.agents == before.agents.update(at, after.agents[at]),
            after.agents[at].name == before.agents[at].name,
            after.agents[at].wf(),
            after.session_ids == before.session_ids,
            after.active_session == before.active_session,
        ensures
            after.wf(),
            agent_names(after.agents) == agent_names(before.agents),
            after == before.put_agent(after.agents[at]),
    {
        assert(agent_names(after.agents) =~= agent_names(before.agents));
        lemma_agent_index(before.agents, at);
    }

    /// Lets the agent at place `at` list `other` as a peer.
    fn link_at(&mut self, at: usize, other: &str)
        requires
            old(self).wf(),
            at < old(self)@.agents.len(),
        ensures
            final(self).wf(),
            final(self)@ == old(self)@.link(old(self)@.agents[at as int].name, other@),
    {
        proof {
            lemma_agent_index(self@.agents, at as int);
        }
        self.agents[at].connect_to(other);
        proof {
            assert(self@.agents =~= old(self)@.agents.update(at as int, self@.agents[at as int]));
            Self::lemma_put_agent(old(self)@, self@, at as int);
        }
    }

    /// Lets the agent at place `at` strike `other` from its peers.
    fn unlink_at(&mut self, at: usize, other: &str)
        requires
            old(self).wf(),
            at < old(self)@.agents.len(),
        ensures
            final(self).wf(),
            final(self)@ == old(self)@.unlink(old(self)@.agents[at as int].name, other@),
    {
        proof {
            lemma_agent_index(self@.agents, at as int);
        }
        self.agents[at].disconnect_from(other);
        proof {
            assert(self@.agents =~= old(self)@.agents.update(at as int, self@.agents[at as int]));
            Self::lemma_put_agent(old(self)@, self@, at as int);
        }
    }

    /// Connects two agents in both directions. Fails if either is not
    /// registered, the first one checked first.
    pub fn connect_agents(&mut self, agent1_name: &str, agent2_name: &str) -> (connected: Result<
        (),
        AgentError,
    >)
        requires
            old(self).wf(),
        ensures
            final(self).wf(),
            connected is Ok <==> old(self)@.has_agent(agent1_name@) && old(self)@.has_agent(
                agent2_name@,
            ),
            connected is Ok ==> final(self)@ == old(self)@.connect(agent1_name@, agent2_name@),
            connected is Ok ==> final(self)@.connected(agent1_name@, agent2_name@),
            connected is Ok ==> final(self)@.connected(agent2_name@, agent1_name@),
            connected matches Err(error) ==> final(self)@ == old(self)@ && error@
                == AgentErrorView::NotFound(
                if !old(self)@.has_agent(agent1_name@) {
                    agent1_name@
                } else {
                    agent2_name@
                },
            ),
    {
        let first = match self.find_agent(agent1_name) {
            Some(at) => at,
            None => {
                return Err(AgentError::NotFound(agent1_name.to_owned()));
            },
        };
        let second = match self.find_agent(agent2_name) {
            Some(at) => at,
            None => {
                return Err(AgentError::NotFound(agent2_name.to_owned()));
            },
        };
        self.link_at(first, agent2_name);
        assert(self@.agents[second as int].name == agent2_name@);
        self.link_at(second, agent1_name);
        proof {
            crate::guarantees::lemma_connect_is_mutual(old(self)@, agent1_name@, agent2_name@);
        }
        Ok(())
    }

    /// Disconnects two agents in both directions. A name that is not
    /// registered, or a connection that does not exist, is no error.
    pub fn disconnect_agents(&mut self, agent1_name: &str, agent2_name: &str) -> (disconnected:
        Result<(), String>)
        requires
            old(self).wf(),
        ensures
            final(self).wf(),
            disconnected is Ok,
            final(self)@ == old(self)@.disconnect(agent1_name@, agent2_name@),
            !final(self)@.connected(agent1_name@, agent2_name@),
            !final(self)@.connected(agent2_name@, agent1_name@),
    {
        if let Some(first) = self.find_agent(agent1_name) {
            self.unlink_at(first, agent2_name);
        }
        if let Some(second) = self.find_agent(agent2_name) {
            self.unlink_at(second, agent1_name);
        }
        proof {
            crate::guarantees::lemma_disconnect_is_mutual(old(self)@, agent1_name@, agent2_name@);
        }
        Ok(())
    }

    /// Creates a session of the given id in every registered agent and makes
    /// it known to the system; it becomes the active session if there is
    /// none. Fails if the id is known already. Fails also at the first agent
    /// that holds a session of that id already: the agents before it keep
    /// the session they were given.
    pub fn create_session(&mut self, session_id: String) -> (created: Result<(), String>)
        requires
            old(self).wf(),
        ensures
            final(self).wf(),
            created is Ok <==> old(self)@.can_create_session(session_id@),
            created is Ok ==> old(self)@.session_created(final(self)@, session_id@),
            created matches Err(text) ==> text@ == session_exists_text(session_id@) && old(
                self,
            )@.session_refused(final(self)@, session_id@),
    {
        if self.session_ids.contains(session_id.as_str()) {
            return Err(session_exists(session_id.as_str()));
        }
        let mut i: usize = 0;
        while i < self.agents.len()
            invariant
                old(self).wf(),
                self.wf(),
                i <= self.agents.len(),
                !old(self)@.session_ids.contains(session_id@),
                self@.session_ids == old(self)@.session_ids,
                self@.active_session == old(self)@.active_session,
                old(self)@.opened_in(self@, session_id@, i as int),
                forall|j: int| 0 <= j < i ==> !(#[trigger] old(self)@.agents[j]).has_session(
                    session_id@,
                ),
            decreases self.agents.len() - i,
        {
            let ghost before = self@;
            proof {
                assert(before.agents[i as int] == old(self)@.agents[i as int]);
            }
            let opened = self.agents[i].create_session(session_id.clone());
            proof {
                assert(self@.agents =~= before.agents.update(i as int, self@.agents[i as int]));
            }
            match opened {
                Ok(()) => {
                    proof {
                        Self::lemma_put_agent(before, self@, i as int);
                    }
                },
                Err(text) => {
                    proof {
                        assert(self@.agents =~= before.agents);
                        lemma_first_holder(old(self)@, session_id@, i as int);
                    }
                    return Err(text);
                },
            }
            i += 1;
        }
        let ghost opened = self@;
        let _ = self.session_ids.insert(session_id.as_str());
        if self.active_session.is_none() {
            self.active_session = Some(session_id);
        }
        proof {
            let ids = opened.session_ids.push(session_id@);
            assert(ids[ids.len() - 1] == session_id@);
            if opened.active_session is Some {
                let active = opened.active_session->0;
                let k = choose|k: int|
                    0 <= k < opened.session_ids.len() && opened.session_ids[k] == active;
                assert(ids[k] == active);
            }
        }
        Ok(())
    }

    /// Makes the given session the active one. Fails if its id is not known.
    pub fn set_active_session(&mut self, session_id: String) -> (activated: Result<
        (),
        SessionError,
    >)
        requires
            old(self).wf(),
        ensures
            final(self).wf(),
            activated is Ok <==> old(self)@.session_ids.contains(session_id@),
            activated is Ok ==> final(self)@ == old(self)@.activate(session_id@),
            activated matches Err(error) ==> final(self)@ == old(self)@ && error@
                == SessionErrorView::NotFound(session_id@),
    {
        if !self.session_ids.contains(session_id.as_str()) {
            return Err(SessionError::NotFound(session_id));
        }
        self.active_session = Some(session_id);
        Ok(())
    }

    /// The id of the active session, if there is one.
    pub fn get_active_session(&self) -> (active: Option<&String>)
        ensures
            match active {
                Some(id) => self@.active_session == Some(id@),
                None => self@.active_session is None,
            },
    {
        self.active_session.as_ref()
    }

    /// The ids of the known sessions, in the order of their creation.
    pub fn list_all_sessions(&self) -> (ids: Vec<String>)
        ensures
            crate::name_set::name_views(ids@) == self@.session_ids,
    {
        self.session_ids.to_vec()
    }

    /// Removes the session of the given id from every agent that holds it,
    /// forgets the id, and leaves no session active if this one was. The
    /// consumers of the session are not awaited: each ends when it next
    /// looks for the session.
    pub fn remove_session(&mut self, session_id: &str) -> (removed: Result<(), String>)
        requires
            old(self).wf(),
        ensures
            final(self).wf(),
            removed is Ok,
            final(self)@ == old(self)@.remove_session(session_id@),
    {
        let mut i: usize = 0;
        while i < self.agents.len()
            invariant
                old(self).wf(),
                i <= self.agents.len(),
                self.agents.len() == old(self).agents.len(),
                self@.session_ids == old(self)@.session_ids,
                self@.active_session == old(self)@.active_session,
                agent_names(self@.agents) == agent_names(old(self)@.agents),
                forall|k: int| 0 <= k < self.agents.len() ==> (#[trigger] self@.agents[k]).wf(),
                forall|k: int|
                    0 <= k < self.agents.len() ==> #[trigger] self@.agents[k] == if k < i {
                        old(self)@.remove_session(session_id@).agents[k]
                    } else {
                        old(self)@.agents[k]
                    },
            decreases self.agents.len() - i,
        {
            let ghost before = self@;
            proof {
                assert(before.agents[i as int].wf());
            }
            let _ = self.agents[i].remove_session(session_id);
            proof {
                assert(self@.agents =~= before.agents.update(i as int, self@.agents[i as int]));
            }
            i += 1;
        }
        proof {
            crate::name_set::lemma_without_name(self@.session_ids, session_id@);
            assert(self@.agents =~= old(self)@.remove_session(session_id@).agents);
        }
        let _ = self.session_ids.remove(session_id);
        let clear = match &self.active_session {
            Some(active) => active.as_str().eq(session_id),
            None => false,
        };
        if clear {
            self.active_session = None;
        }
        Ok(())
    }

    /// Puts a message into the queue that the agent at place `at` keeps for
    /// the given session.
    fn deliver_at(&mut self, at: usize, session_id: &str, message: Message) -> (delivered: Result<
        (),
        String,
    >)
        requires
            old(self).wf(),
            at < old(self)@.agents.len(),
        ensures
            final(self).wf(),
            delivered is Ok <==> old(self)@.agents[at as int].has_session(session_id@),
            delivered is Ok ==> final(self)@ == old(self)@.put_agent(
                old(self)@.agents[at as int].deliver(session_id@, message@),
            ),
            delivered matches Err(text) ==> final(self)@ == old(self)@ && text@
                == session_missing_text(session_id@),
    {
        let delivered = self.agents[at].send_message(session_id, message);
        proof {
            assert(self@.agents =~= old(self)@.agents.update(at as int, self@.agents[at as int]));
            if delivered is Ok {
                Self::lemma_put_agent(old(self)@, self@, at as int);
            } else {
                assert(self@.agents =~= old(self)@.agents);
            }
        }
        delivered
    }

    /// Sends a message from one agent to another: puts it into the
    /// recipient's queue for the active session and hands back what was
    /// sent. The response comes later, from the recipient's consumer.
    pub fn send_message(&mut self, from: &str, to: &str, content: String) -> (sent: Result<
        Message,
        SendError,
    >)
        requires
            old(self).wf(),
        ensures
            final(self).wf(),
            sent is Ok <==> old(self)@.send_error(from@, to@) is None,
            sent matches Ok(message) ==> {
                &&& old(self)@.send_error(from@, to@) is None
                &&& message@ == (MessageView { from: from@, to: to@, content: content@ })
                &&& final(self)@ == old(self)@.send(message@)
            },
            sent matches Err(error) ==> {
                &&& old(self)@.send_error(from@, to@) == Some(error@)
                &&& final(self)@ == old(self)@
            },
    {
        let sender = match self.find_agent(from) {
            Some(at) => at,
            None => {
                return Err(SendError::Agent(AgentError::NotFound(from.to_owned())));
            },
        };
        let recipient = match self.find_agent(to) {
            Some(at) => at,
            None => {
                return Err(SendError::Agent(AgentError::NotFound(to.to_owned())));
            },
        };
        if !self.agents[sender].is_connected_to(to) {
            return Err(
                SendError::Agent(AgentError::NotConnected(from.to_owned(), to.to_owned())),
            );
        }
        let session_id = match &self.active_session {
            Some(id) => id.clone(),
            None => {
                return Err(SendError::Agent(AgentError::NoActiveSession(to.to_owned())));
            },
        };
        let message = Message::new(from.to_owned(), to.to_owned(), content);
        match self.deliver_at(recipient, session_id.as_str(), message.clone()) {
            Ok(()) => Ok(message),
            Err(text) => Err(SendError::Delivery(text)),
        }
    }

    /// Sends a message of the given content from one agent to each of its
    /// connections that is registered and holds the active session, in the
    /// order in which they were connected, and hands back what was sent. A
    /// connection that cannot be reached is passed over. Fails only if the
    /// sender is not registered.
    pub fn send_broadcast(&mut self, from: &str, content: String) -> (sent: Result<
        Vec<Message>,
        String,
    >)
        requires
            old(self).wf(),
        ensures
            final(self).wf(),
            sent is Ok <==> old(self)@.has_agent(from@),
            sent matches Ok(messages) ==> {
                &&& message_views(messages@) == messages_to(
                    old(self)@.broadcast_recipients(from@),
                    from@,
                    content@,
                )
                &&& final(self)@ == old(self)@.broadcast(from@, content@)
            },
            sent matches Err(text) ==> final(self)@ == old(self)@ && text@ == sender_missing_text(
                from@,
            ),
    {
        let sender = match self.find_agent(from) {
            Some(at) => at,
            None => {
                return Err(sender_missing(from));
            },
        };
        let connections = self.agents[sender].get_connections();
        let ghost names = name_views(connections@);
        let mut sent: Vec<Message> = Vec::new();
        proof {
            reveal(Seq::filter);
            assert(old(self)@.recipients_among(names.take(0)) =~= Seq::<Seq<char>>::empty());
            assert(self@.agents =~= old(self)@.deliver_to(
                Seq::<Seq<char>>::empty(),
                from@,
                content@,
            ).agents);
        }
        let mut k: usize = 0;
        while k < connections.len()
            invariant
                old(self).wf(),
                self.wf(),
                k <= connections.len(),
                names == name_views(connections@),
                names.no_duplicates(),
                self@ == old(self)@.deliver_to(
                    old(self)@.recipients_among(names.take(k as int)),
                    from@,
                    content@,
                ),
                message_views(sent@) == messages_to(
                    old(self)@.recipients_among(names.take(k as int)),
                    from@,
                    content@,
                ),
            decreases connections.len() - k,
        {
            let ghost before = self@;
            let ghost done = old(self)@.recipients_among(names.take(k as int));
            let ghost name = names[k as int];
            let recipient_name = connections[k].as_str();
            proof {
                assert(names.take(k as int + 1) =~= names.take(k as int).push(name));
                names.take(k as int).lemma_filter_push(name, old(self)@.reach());
                assert(agent_names(before.agents) =~= agent_names(old(self)@.agents));
                // No connection is listed twice, so this one was not reached before.
                if done.contains(name) {
                    names.take(k as int).lemma_filter_contains_rev(old(self)@.reach(), name);
                }
            }
            let ghost mut reached = false;
            if let Some(at) = self.find_agent(recipient_name) {
                proof {
                    lemma_agent_index(old(self)@.agents, at as int);
                }
                let active = match &self.active_session {
                    Some(id) => Some(id.clone()),
                    None => None,
                };
                if let Some(session_id) = active {
                    let message = Message::new(
                        from.to_owned(),
                        recipient_name.to_owned(),
                        content.clone(),
                    );
                    if self.deliver_at(at, session_id.as_str(), message.clone()).is_ok() {
                        proof {
                            // The recipient has changed as the model says; every
                            // other agent goes by another name and is as before.
                            let ghost now = done.push(name);
                            assert forall|i: int| 0 <= i < self@.agents.len() implies self@.agents[i]
                                == old(self)@.deliver_to(now, from@, content@).agents[i] by {
                                let other = old(self)@.agents[i].name;
                                if i != at {
                                    assert(agent_names(old(self)@.agents)[i] == other);
                                } else {
                                    assert(now[now.len() - 1] == name);
                                }
                            }
                            assert(self@.agents =~= old(self)@.deliver_to(
                                now,
                                from@,
                                content@,
                            ).agents);
                            let earlier = message_views(sent@);
                            let later = message_views(sent@.push(message));
                            assert(earlier.len() == done.len());
                            assert forall|i: int| 0 <= i < later.len() implies later[i]
                                == messages_to(now, from@, content@)[i] by {
                                if i < done.len() {
                                    assert(earlier[i] == messages_to(done, from@, content@)[i]);
                                }
                            }
                        }
                        sent.push(message);
                        proof {
                            reached = true;
                        }
                    }
                }
            }
            proof {
                if !reached {
                    assert(!old(self)@.reachable(name));
                }
            }
            k += 1;
        }
        proof {
            assert(names.take(k as int) =~= names);
        }
        Ok(sent)
    }

    /// The names of the agents that hold the given session and have no
    /// consumer task on record for it, in the order of their registration.
    /// These are the agents for which a consumer has to be started.
    pub fn agents_awaiting_consumer(&self, session_id: &str) -> (names: Vec<String>)
        requires
            self.wf(),
        ensures
            name_views(names@) == self@.awaiting_consumer(session_id@),
    {
        let mut names: Vec<String> = Vec::new();
        let ghost agents = self@.agents;
        proof {
            reveal(Seq::filter);
        }
        let mut i: usize = 0;
        while i < self.agents.len()
            invariant
                self.wf(),
                agents == self@.agents,
                i <= self.agents.len(),
                name_views(names@) == agent_names(
                    agents.take(i as int).filter(awaits(session_id@)),
                ),
            decreases self.agents.len() - i,
        {
            proof {
                assert(agents.take(i + 1) =~= agents.take(i as int).push(agents[i as int]));
                agents.take(i as int).lemma_filter_push(agents[i as int], awaits(session_id@));
            }
            if self.agents[i].awaits_consumer(session_id) {
                let ghost earlier = agents.take(i as int).filter(awaits(session_id@));
                let ghost listed = name_views(names@);
                names.push(self.agents[i].name().to_owned());
                proof {
                    let later = agent_names(earlier.push(agents[i as int]));
                    assert(listed.len() == earlier.len());
                    assert forall|k: int| 0 <= k < later.len() implies name_views(names@)[k]
                        == later[k] by {
                        if k < earlier.len() {
                            assert(listed[k] == agent_names(earlier)[k]);
                        }
                    }
                }
            }
            i += 1;
        }
        proof {
            assert(agents.take(i as int) =~= agents);
        }
        names
    }

    /// Stores the handle of the consumer task that was started for the given
    /// agent's session. Fails if the agent is not registered or holds no
    /// such session.
    pub fn set_session_join_handle(
        &mut self,
        agent_name: &str,
        session_id: &str,
        handle: JoinHandle<()>,
    ) -> (stored: Result<(), String>)
        requires
            old(self).wf(),
        ensures
            final(self).wf(),
            stored is Ok <==> old(self)@.hold_task_error(agent_name@, session_id@) is None,
            stored is Ok ==> final(self)@ == old(self)@.hold_task(
                agent_name@,
                session_id@,
                handle,
            ),
            stored matches Err(text) ==> final(self)@ == old(self)@ && Some(text@) == old(
                self,
            )@.hold_task_error(agent_name@, session_id@),
    {
        let at = match self.find_agent(agent_name) {
            Some(at) => at,
            None => {
                return Err(AgentError::NotFound(agent_name.to_owned()).to_string());
            },
        };
        let stored = self.agents[at].set_session_join_handle(session_id, handle);
        proof {
            assert(self@.agents =~= old(self)@.agents.update(at as int, self@.agents[at as int]));
            if stored is Ok {
                Self::lemma_put_agent(old(self)@, self@, at as int);
            } else {
                assert(self@.agents =~= old(self)@.agents);
            }
        }
        stored
    }

    /// One step of the consumer of the given agent's session: takes in an
    /// event, updates the session, and says what the consumer has to do
    /// next. A consumer whose agent is gone is told to stop.
    pub fn consumer_step(&mut self, agent_name: &str, session_id: &str, event: ConsumerEvent) -> (action:
        ConsumerAction)
        requires
            old(self).wf(),
        ensures
            final(self).wf(),
            action@ == old(self)@.consumer_action(agent_name@, session_id@, event@),
            final(self)@ == old(self)@.consumer_effect(
                agent_name@,
                session_id@,
                event@,
                final(self)@.agent(agent_name@).session(session_id@).entries.last().timestamp,
            ),
    {
        let at = match self.find_agent(agent_name) {
            Some(at) => at,
            None => {
                return ConsumerAction::Stop;
            },
        };
        let action = self.agents[at].consumer_step(session_id, event);
        proof {
            assert(self@.agents =~= old(self)@.agents.update(at as int, self@.agents[at as int]));
            crate::agent::lemma_consumer_effect_keeps_name(
                old(self)@.agents[at as int],
                session_id@,
                event@,
                self@.agents[at as int].session(session_id@).entries.last().timestamp,
            );
            Self::lemma_put_agent(old(self)@, self@, at as int);
            lemma_agent_index(self@.agents, at as int);
        }
        action
    }

    /// Prepares the wait for the consumers of a session: collects the task
    /// handles that the agents hold for it, in the agents' order, and
    /// removes the session, by which every consumer ends when it next looks
    /// for it. What a consumer had in hand at that moment is lost. Fails,
    /// and changes nothing, if no agent holds a handle for the session.
    pub fn take_session_tasks(&mut self, session_id: &str) -> (taken: Result<
        Vec<JoinHandle<()>>,
        String,
    >)
        requires
            old(self).wf(),
        ensures
            final(self).wf(),
            taken is Ok <==> old(self)@.session_tasks(session_id@).len() > 0,
            taken matches Ok(handles) ==> handles@ == old(self)@.session_tasks(session_id@)
                && final(self)@ == old(self)@.remove_session(session_id@),
            taken matches Err(text) ==> final(self)@ == old(self)@ && text@ == no_tasks_text(
                session_id@,
            ),
    {
        let mut handles: Vec<JoinHandle<()>> = Vec::new();
        let ghost agents = old(self)@.agents;
        proof {
            reveal(Seq::filter);
        }
        let mut i: usize = 0;
        while i < self.agents.len()
            invariant
                old(self).wf(),
                agents == old(self)@.agents,
                i <= self.agents.len(),
                self.agents.len() == agents.len(),
                self@.session_ids == old(self)@.session_ids,
                self@.active_session == old(self)@.active_session,
                forall|k: int|
                    0 <= k < agents.len() ==> #[trigger] self@.agents[k] == if k < i {
                        agents[k].release_task(session_id@)
                    } else {
                        agents[k]
                    },
                handles@ == tasks_of(agents.take(i as int), session_id@),
                handles.len() == 0 ==> self@.agents == agents,
            decreases self.agents.len() - i,
        {
            let ghost before = self@;
            proof {
                assert(before.agents[i as int] == agents[i as int]);
                assert(agents.take(i + 1) =~= agents.take(i as int).push(agents[i as int]));
                agents.take(i as int).lemma_filter_push(agents[i as int], holds_task(session_id@));
                crate::agent::lemma_release_task(agents[i as int], session_id@);
            }
            let taken = self.agents[i].take_session_join_handle(session_id);
            proof {
                assert(self@.agents =~= before.agents.update(i as int, self@.agents[i as int]));
            }
            if let Some(handle) = taken {
                handles.push(handle);
            }
            i += 1;
        }
        proof {
            assert(agents.take(i as int) =~= agents);
        }
        if handles.len() == 0 {
            return Err(no_tasks(session_id));
        }
        let ghost released = self@;
        proof {
            assert(agent_names(released.agents) =~= agent_names(agents)) by {
                assert forall|k: int| 0 <= k < agents.len() implies released.agents[k].name
                    == agents[k].name by {
                    crate::agent::lemma_release_task(agents[k], session_id@);
                }
            }
            assert forall|k: int| 0 <= k < released.agents.len() implies (
            #[trigger] released.agents[k]).wf() by {
                crate::agent::lemma_release_task(agents[k], session_id@);
            }
        }
        let _ = self.remove_session(session_id);
        proof {
            assert forall|k: int| 0 <= k < agents.len() implies self@.agents[k] == old(
                self,
            )@.remove_session(session_id@).agents[k] by {
                crate::agent::lemma_release_task(agents[k], session_id@);
            }
            assert(self@.agents =~= old(self)@.remove_session(session_id@).agents);
        }
        Ok(handles)
    }
}

} // verus!
