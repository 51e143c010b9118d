//! The mathematical model of the agent registry: its state and what each
//! operation makes of it.

use crate::agent::AgentView;
use crate::consumer::{ConsumerActionView, ConsumerEventView};
use crate::errors::{session_missing_text, AgentErrorView, SendErrorView};
use crate::message::MessageView;
use crate::name_set::without_name;
use crate::session::SessionView;
use std::time::SystemTime;
use tokio::task::JoinHandle;
use vstd::prelude::*;

verus! {

/// The names of a run of agents, in order.
pub open spec fn agent_names(agents: Seq<AgentView>) -> Seq<Seq<char>> {
    agents.map_values(|a: AgentView| a.name)
}

/// The mathematical value of an agent system.
pub struct SystemView {
    /// The registered agents, in the order of their registration.
    pub agents: Seq<AgentView>,
    /// The ids of the known sessions, in the order of their creation.
    pub session_ids: Seq<Seq<char>>,
    /// The id of the session that routed messages go to.
    pub active_session: Option<Seq<char>>,
}

impl SystemView {
    /// Names and session ids are unique, every agent is well formed, and the
    /// active session is a known one.
    pub open spec fn wf(self) -> bool {
        &&& agent_names(self.agents).no_duplicates()
        &&& forall|i: int| 0 <= i < self.agents.len() ==> (#[trigger] self.agents[i]).wf()
        &&& self.session_ids.no_duplicates()
        &&& self.active_session matches Some(id) ==> self.session_ids.contains(id)
    }

    /// The system without agents and sessions.
    pub open spec fn empty() -> SystemView {
        SystemView { agents: Seq::empty(), session_ids: Seq::empty(), active_session: None }
    }

    /// Whether an agent of the given name is registered.
    pub open spec fn has_agent(self, name: Seq<char>) -> bool {
        agent_names(self.agents).contains(name)
    }

    /// The place of the agent of the given name; meaningful where it is
    /// registered.
    pub open spec fn agent_index(self, name: Seq<char>) -> int {
        agent_names(self.agents).index_of(name)
    }

    /// The agent of the given name; meaningful where it is registered.
    pub open spec fn agent(self, name: Seq<char>) -> AgentView {
        self.agents[self.agent_index(name)]
    }

    /// Whether `from` is registered and lists `to` among its connections.
    pub open spec fn connected(self, from: Seq<char>, to: Seq<char>) -> bool {
        self.has_agent(from) && self.agent(from).is_connected_to(to)
    }

    /// The system with the agent of the same name replaced by the given one.
    pub open spec fn put_agent(self, agent: AgentView) -> SystemView {
        SystemView { agents: self.agents.update(self.agent_index(agent.name), agent), ..self }
    }

    /// The system with one more agent, the newest.
    pub open spec fn add_agent(self, agent: AgentView) -> SystemView {
        SystemView { agents: self.agents.push(agent), ..self }
    }

    /// The system without the agent of the given name, and without that name
    /// in any remaining agent's connections.
    pub open spec fn remove_agent(self, name: Seq<char>) -> SystemView {
        SystemView {
            agents: self.agents.remove(self.agent_index(name)).map_values(
                |a: AgentView| a.disconnect(name),
            ),
            ..self
        }
    }

    /// The system after `from`, if registered, has listed `to` as a peer.
    pub open spec fn link(self, from: Seq<char>, to: Seq<char>) -> SystemView {
        if self.has_agent(from) {
            self.put_agent(self.agent(from).connect(to))
        } else {
            self
        }
    }

    /// The system after `from`, if registered, has struck `to` from its peers.
    pub open spec fn unlink(self, from: Seq<char>, to: Seq<char>) -> SystemView {
        if self.has_agent(from) {
            self.put_agent(self.agent(from).disconnect(to))
        } else {
            self
        }
    }

    /// The system after two agents have been connected in both directions.
    pub open spec fn connect(self, first: Seq<char>, second: Seq<char>) -> SystemView {
        self.link(first, second).link(second, first)
    }

    /// The system after two agents have been disconnected in both directions.
    pub open spec fn disconnect(self, first: Seq<char>, second: Seq<char>) -> SystemView {
        self.unlink(first, second).unlink(second, first)
    }

    /// The system with the given session made the active one.
    pub open spec fn activate(self, id: Seq<char>) -> SystemView {
        SystemView { active_session: Some(id), ..self }
    }

    /// The system without the session of the given id: no agent holds it, it
    /// is not known any more, and it is not the active one.
    pub open spec fn remove_session(self, id: Seq<char>) -> SystemView {
        SystemView {
            agents: self.agents.map_values(
                |a: AgentView| if a.has_session(id) {
                    a.close_session(id)
                } else {
                    a
                },
            ),
            session_ids: without_name(self.session_ids, id),
            active_session: if self.active_session == Some(id) {
                None
            } else {
                self.active_session
            },
        }
    }

    /// Whether some agent holds a session of the given id.
    pub open spec fn held(self, id: Seq<char>) -> bool {
        exists|i: int| 0 <= i < self.agents.len() && (#[trigger] self.agents[i]).has_session(id)
    }

    /// Whether the agent at place `at` holds a session of the given id and no
    /// agent before it does.
    pub open spec fn is_first_holder(self, id: Seq<char>, at: int) -> bool {
        &&& 0 <= at < self.agents.len()
        &&& self.agents[at].has_session(id)
        &&& forall|j: int| 0 <= j < at ==> !(#[trigger] self.agents[j]).has_session(id)
    }

    /// The place of the first agent that holds a session of the given id; the
    /// number of agents where none does.
    pub open spec fn first_holder(self, id: Seq<char>) -> int {
        if self.held(id) {
            choose|at: int| self.is_first_holder(id, at)
        } else {
            self.agents.len() as int
        }
    }

    /// Whether `after` has the agents of `self`, each of the first `count`
    /// with one more session: a fresh one of the given id.
    pub open spec fn opened_in(self, after: SystemView, id: Seq<char>, count: int) -> bool {
        &&& after.agents.len() == self.agents.len()
        &&& forall|i: int|
            0 <= i < self.agents.len() ==> #[trigger] after.agents[i] == if i < count {
                self.agents[i].open_session(
                    SessionView::fresh(id, after.agents[i].sessions.last().created_at),
                )
            } else {
                self.agents[i]
            }
    }

    /// Whether a session of the given id can be created: the id is not known
    /// and no agent holds a session of it.
    pub open spec fn can_create_session(self, id: Seq<char>) -> bool {
        !self.session_ids.contains(id) && !self.held(id)
    }

    /// Whether `after` is `self` with the session `id` created: every agent
    /// holds a fresh one, the id is known, and the session is the active one
    /// if none was.
    pub open spec fn session_created(self, after: SystemView, id: Seq<char>) -> bool {
        &&& self.opened_in(after, id, self.agents.len() as int)
        &&& after.session_ids == self.session_ids.push(id)
        &&& after.active_session == if self.active_session is None {
            Some(id)
        } else {
            self.active_session
        }
    }

    /// Whether `after` is what a refused creation of the session `id` leaves
    /// of `self`. A known id leaves everything as it was. Otherwise the
    /// agents before the first that holds such a session have received a
    /// fresh one; nothing else has changed.
    pub open spec fn session_refused(self, after: SystemView, id: Seq<char>) -> bool {
        &&& self.opened_in(
            after,
            id,
            if self.session_ids.contains(id) {
                0
            } else {
                self.first_holder(id)
            },
        )
        &&& after.session_ids == self.session_ids
        &&& after.active_session == self.active_session
    }

    /// Why a message from `from` to `to` cannot be sent, if it cannot: the
    /// first of these that holds. The sender is not registered; the
    /// recipient is not registered; the sender does not list the recipient
    /// as a peer; no session is active; the recipient holds no session of
    /// the active id.
    pub open spec fn send_error(self, from: Seq<char>, to: Seq<char>) -> Option<SendErrorView> {
        if !self.has_agent(from) {
            Some(SendErrorView::Agent(AgentErrorView::NotFound(from)))
        } else if !self.has_agent(to) {
            Some(SendErrorView::Agent(AgentErrorView::NotFound(to)))
        } else if !self.agent(from).is_connected_to(to) {
            Some(SendErrorView::Agent(AgentErrorView::NotConnected(from, to)))
        } else {
            match self.active_session {
                None => Some(SendErrorView::Agent(AgentErrorView::NoActiveSession(to))),
                Some(id) => if !self.agent(to).has_session(id) {
                    Some(SendErrorView::Delivery(session_missing_text(id)))
                } else {
                    None
                },
            }
        }
    }

    /// The system after a message has been put into the recipient's queue
    /// for the active session.
    pub open spec fn send(self, message: MessageView) -> SystemView {
        self.put_agent(self.agent(message.to).deliver(self.active_session->0, message))
    }

    /// Whether a message can reach the agent of the given name: it is
    /// registered, a session is active, and the agent holds that session.
    pub open spec fn reachable(self, name: Seq<char>) -> bool {
        &&& self.has_agent(name)
        &&& self.active_session is Some
        &&& self.agent(name).has_session(self.active_session->0)
    }

    /// [`Self::reachable`] as a predicate on names.
    pub open spec fn reach(self) -> spec_fn(Seq<char>) -> bool {
        |name: Seq<char>| self.reachable(name)
    }

    /// Those of the given names that a message can reach, in their order.
    pub open spec fn recipients_among(self, names: Seq<Seq<char>>) -> Seq<Seq<char>> {
        names.filter(self.reach())
    }

    /// The agents that a broadcast of `from` reaches: its connections that a
    /// message can reach, in the order in which they were connected.
    pub open spec fn broadcast_recipients(self, from: Seq<char>) -> Seq<Seq<char>> {
        self.recipients_among(self.agent(from).connections)
    }

    /// The system after each of the given recipients has received, in its
    /// queue for the active session, a message of the given content from
    /// `from`. No other agent has changed.
    pub open spec fn deliver_to(
        self,
        recipients: Seq<Seq<char>>,
        from: Seq<char>,
        content: Seq<char>,
    ) -> SystemView {
        SystemView {
            agents: self.agents.map_values(
                |a: AgentView| if recipients.contains(a.name) {
                    a.deliver(self.active_session->0, MessageView { from, to: a.name, content })
                } else {
                    a
                },
            ),
            ..self
        }
    }

    /// The system after a broadcast of the given content from `from`.
    pub open spec fn broadcast(self, from: Seq<char>, content: Seq<char>) -> SystemView {
        self.deliver_to(self.broadcast_recipients(from), from, content)
    }

    /// The handles of the consumer tasks of the given session, in the order
    /// of the agents that hold them.
    pub open spec fn session_tasks(self, id: Seq<char>) -> Seq<JoinHandle<()>> {
        tasks_of(self.agents, id)
    }

    /// The names of the agents that hold the given session without a task
    /// handle, in the order of their registration.
    pub open spec fn awaiting_consumer(self, id: Seq<char>) -> Seq<Seq<char>> {
        agent_names(self.agents.filter(awaits(id)))
    }

    /// Why the handle of a consumer task cannot be stored for the given
    /// agent and session, if it cannot: the text that says so.
    pub open spec fn hold_task_error(self, agent: Seq<char>, id: Seq<char>) -> Option<Seq<char>> {
        if !self.has_agent(agent) {
            Some(AgentErrorView::NotFound(agent).text())
        } else if !self.agent(agent).has_session(id) {
            Some(session_missing_text(id))
        } else {
            None
        }
    }

    /// The system after the given agent's session has been given the handle
    /// of its consumer task.
    pub open spec fn hold_task(
        self,
        agent: Seq<char>,
        id: Seq<char>,
        handle: JoinHandle<()>,
    ) -> SystemView {
        self.put_agent(self.agent(agent).hold_task(id, handle))
    }

    /// What the consumer of the given agent's session is asked to do on an
    /// event: to stop where the agent is gone, else what the agent asks.
    pub open spec fn consumer_action(
        self,
        agent: Seq<char>,
        id: Seq<char>,
        event: ConsumerEventView,
    ) -> ConsumerActionView {
        if self.has_agent(agent) {
            self.agent(agent).consumer_action(id, event)
        } else {
            ConsumerActionView::Stop
        }
    }

    /// The system after the consumer of the given agent's session has been
    /// told of an event; an entry that this adds to the log is stamped
    /// `stamp`.
    pub open spec fn consumer_effect(
        self,
        agent: Seq<char>,
        id: Seq<char>,
        event: ConsumerEventView,
        stamp: SystemTime,
    ) -> SystemView {
        if self.has_agent(agent) {
            self.put_agent(self.agent(agent).consumer_effect(id, event, stamp))
        } else {
            self
        }
    }
}

/// The agents whose session of the given id holds a task handle.
pub open spec fn holds_task(id: Seq<char>) -> spec_fn(AgentView) -> bool {
    |a: AgentView| a.task_of(id) is Some
}

/// The agents that hold a session of the given id without a task handle.
pub open spec fn awaits(id: Seq<char>) -> spec_fn(AgentView) -> bool {
    |a: AgentView| a.awaits_consumer(id)
}

/// The task handles that the given agents hold for the session `id`, in the
/// agents' order.
pub open spec fn tasks_of(agents: Seq<AgentView>, id: Seq<char>) -> Seq<JoinHandle<()>> {
    agents.filter(holds_task(id)).map_values(|a: AgentView| a.task_of(id)->0)
}


/// The messages of the given content from `from`, one to each recipient, in
/// the recipients' order.
pub open spec fn messages_to(
    recipients: Seq<Seq<char>>,
    from: Seq<char>,
    content: Seq<char>,
) -> Seq<MessageView> {
    recipients.map_values(|to: Seq<char>| MessageView { from, to, content })
}


/// The first holder of a session is the one place that fits its description.
pub proof fn lemma_first_holder(system: SystemView, id: Seq<char>, at: int)
    requires
        system.is_first_holder(id, at),
    ensures
        system.held(id),
        system.first_holder(id) == at,
{
}


/// In a run of agents with distinct names, an agent is found at its own
/// place.
pub proof fn lemma_agent_index(agents: Seq<AgentView>, at: int)
    requires
        agent_names(agents).no_duplicates(),
        0 <= at < agents.len(),
    ensures
        agent_names(agents).contains(agents[at].name),
        agent_names(agents).index_of(agents[at].name) == at,
{
    let names = agent_names(agents);
    assert(names[at] == agents[at].name);
    let found = names.index_of(agents[at].name);
    assert(names[found] == names[at]);
}

} // verus!
