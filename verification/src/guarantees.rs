//! What the registry guarantees, proved of its model: connections are made
//! and undone in both directions, a removed agent leaves no trace in its
//! peers, a message is routed only along a connection, a broadcast reaches
//! each reachable peer once, queues are first in, first out, and session ids
//! are unique until the session is removed.

use crate::agent::{session_ids, AgentView};
use crate::consumer::{ConsumerActionView, ConsumerEventView};
use crate::errors::{AgentErrorView, SendErrorView};
use crate::message::MessageView;
use crate::name_set::{lemma_without_name, with_name, without_name};
use crate::registry::{agent_names, lemma_agent_index, messages_to, SystemView};
use crate::session::SessionView;
use std::time::SystemTime;
use vstd::prelude::*;

verus! {

/// Adding a name to a run of names puts it there, keeps every other name as
/// it was, and repeats nothing that was not repeated before.
pub proof fn lemma_with_name(names: Seq<Seq<char>>, name: Seq<char>)
    ensures
        with_name(names, name).contains(name),
        forall|other: Seq<char>|
            other != name ==> (#[trigger] with_name(names, name).contains(other)
                <==> names.contains(other)),
        names.no_duplicates() ==> with_name(names, name).no_duplicates(),
{
    let added = with_name(names, name);
    if !names.contains(name) {
        assert(added[added.len() - 1] == name);
        assert forall|other: Seq<char>| other != name implies (#[trigger] added.contains(other)
            <==> names.contains(other)) by {
            if names.contains(other) {
                let i = choose|i: int| 0 <= i < names.len() && names[i] == other;
                assert(added[i] == other);
            }
        }
        if names.no_duplicates() {
            assert forall|i: int, j: int|
                0 <= i < added.len() && 0 <= j < added.len() && i != j implies added[i]
                != added[j] by {
                if i < names.len() && j < names.len() {
                    assert(names[i] != names[j]);
                } else if i < names.len() {
                    assert(names.contains(names[i]));
                } else {
                    assert(names.contains(names[j]));
                }
            }
        }
    }
}

/// Replacing a registered agent by a well-formed one of the same name keeps
/// the system well formed, puts the new agent in the old one's place, and
/// leaves every other agent as it was.
pub proof fn lemma_put_agent(system: SystemView, agent: AgentView)
    requires
        system.wf(),
        system.has_agent(agent.name),
        agent.wf(),
    ensures
        system.put_agent(agent).wf(),
        agent_names(system.put_agent(agent).agents) == agent_names(system.agents),
        system.put_agent(agent).agent(agent.name) == agent,
        forall|other: Seq<char>|
            other != agent.name && system.has_agent(other) ==> #[trigger] system.put_agent(
                agent,
            ).agent(other) == system.agent(other),
        forall|other: Seq<char>| #[trigger]
            system.put_agent(agent).has_agent(other) == system.has_agent(other),
{
    let after = system.put_agent(agent);
    let names = agent_names(system.agents);
    let at = system.agent_index(agent.name);
    assert(names[at] == agent.name);
    assert(agent_names(after.agents) =~= names);
    assert forall|other: Seq<char>|
        other != agent.name && system.has_agent(other) implies #[trigger] after.agent(other)
        == system.agent(other) by {
        assert(system.agent_index(other) != at);
    }
}

/// Letting a registered agent list a peer keeps the system well formed and
/// the set of registered names as it was; the agent then lists the peer, and
/// no agent has lost a connection.
pub proof fn lemma_link(system: SystemView, from: Seq<char>, to: Seq<char>)
    requires
        system.wf(),
    ensures
        system.link(from, to).wf(),
        forall|name: Seq<char>| #[trigger]
            system.link(from, to).has_agent(name) == system.has_agent(name),
        system.has_agent(from) ==> system.link(from, to).connected(from, to),
        forall|a: Seq<char>, b: Seq<char>|
            system.connected(a, b) ==> #[trigger] system.link(from, to).connected(a, b),
{
    if system.has_agent(from) {
        let old_agent = system.agent(from);
        let new_agent = old_agent.connect(to);
        assert(system.agents[system.agent_index(from)].wf());
        lemma_with_name(old_agent.connections, to);
        lemma_put_agent(system, new_agent);
    }
}

/// Letting a registered agent strike a peer keeps the system well formed and
/// the set of registered names as it was; the agent then does not list the
/// peer, and no agent has gained a connection.
pub proof fn lemma_unlink(system: SystemView, from: Seq<char>, to: Seq<char>)
    requires
        system.wf(),
    ensures
        system.unlink(from, to).wf(),
        forall|name: Seq<char>| #[trigger]
            system.unlink(from, to).has_agent(name) == system.has_agent(name),
        !system.unlink(from, to).connected(from, to),
        forall|a: Seq<char>, b: Seq<char>| #[trigger]
            system.unlink(from, to).connected(a, b) ==> system.connected(a, b),
{
    if system.has_agent(from) {
        let old_agent = system.agent(from);
        let new_agent = old_agent.disconnect(to);
        assert(system.agents[system.agent_index(from)].wf());
        lemma_without_name(old_agent.connections, to);
        lemma_put_agent(system, new_agent);
    }
}

/// Connecting two registered agents connects each to the other.
pub proof fn lemma_connect_is_mutual(system: SystemView, first: Seq<char>, second: Seq<char>)
    requires
        system.wf(),
        system.has_agent(first),
        system.has_agent(second),
    ensures
        system.connect(first, second).wf(),
        system.connect(first, second).connected(first, second),
        system.connect(first, second).connected(second, first),
{
    let linked = system.link(first, second);
    lemma_link(system, first, second);
    lemma_link(linked, second, first);
}

/// After two agents have been disconnected, neither is connected to the
/// other, whether or not they were connected or registered before.
pub proof fn lemma_disconnect_is_mutual(system: SystemView, first: Seq<char>, second: Seq<char>)
    requires
        system.wf(),
    ensures
        system.disconnect(first, second).wf(),
        !system.disconnect(first, second).connected(first, second),
        !system.disconnect(first, second).connected(second, first),
{
    let unlinked = system.unlink(first, second);
    lemma_unlink(system, first, second);
    lemma_unlink(unlinked, second, first);
}

/// After an agent has been removed, it is not registered, and no remaining
/// agent lists it among its connections.
pub proof fn lemma_remove_agent_leaves_no_trace(system: SystemView, name: Seq<char>)
    requires
        system.wf(),
        system.has_agent(name),
    ensures
        system.remove_agent(name).wf(),
        !system.remove_agent(name).has_agent(name),
        forall|i: int|
            0 <= i < system.remove_agent(name).agents.len() ==> !(
            #[trigger] system.remove_agent(name).agents[i]).is_connected_to(name),
        forall|other: Seq<char>| !#[trigger] system.remove_agent(name).connected(other, name),
{
    let after = system.remove_agent(name);
    let at = system.agent_index(name);
    let names = agent_names(system.agents);
    assert(agent_names(after.agents) =~= names.remove(at));
    assert forall|i: int| 0 <= i < after.agents.len() implies (#[trigger] after.agents[i]).wf()
        && !after.agents[i].is_connected_to(name) by {
        let before = if i < at {
            system.agents[i]
        } else {
            system.agents[i + 1]
        };
        lemma_without_name(before.connections, name);
    }
    assert forall|other: Seq<char>| !#[trigger] after.connected(other, name) by {
        if after.has_agent(other) {
            assert(!after.agents[after.agent_index(other)].is_connected_to(name));
        }
    }
}

/// A message is refused for a missing connection exactly when both agents
/// are registered and the sender does not list the recipient; it is refused
/// for a missing agent whenever one of the two is not registered.
pub proof fn lemma_send_refusals(system: SystemView, from: Seq<char>, to: Seq<char>)
    ensures
        system.send_error(from, to) == Some(
            SendErrorView::Agent(AgentErrorView::NotConnected(from, to)),
        ) <==> system.has_agent(from) && system.has_agent(to) && !system.connected(from, to),
        !system.has_agent(from) ==> system.send_error(from, to) == Some(
            SendErrorView::Agent(AgentErrorView::NotFound(from)),
        ),
        system.has_agent(from) && !system.has_agent(to) ==> system.send_error(from, to) == Some(
            SendErrorView::Agent(AgentErrorView::NotFound(to)),
        ),
        system.send_error(from, to) is None <==> system.connected(from, to) && system.reachable(
            to,
        ),
{
}

/// Picking from a run of names those that meet a condition picks exactly
/// those, and repeats nothing that was not repeated before.
pub proof fn lemma_pick(names: Seq<Seq<char>>, wanted: spec_fn(Seq<char>) -> bool)
    ensures
        forall|name: Seq<char>| #[trigger]
            names.filter(wanted).contains(name) <==> names.contains(name) && wanted(name),
        names.no_duplicates() ==> names.filter(wanted).no_duplicates(),
    decreases names.len(),
{
    reveal(Seq::filter);
    let picked = names.filter(wanted);
    if names.len() > 0 {
        let rest = names.drop_last();
        let last = names.last();
        let picked_rest = rest.filter(wanted);
        lemma_pick(rest, wanted);
        assert forall|name: Seq<char>| #[trigger]
            picked.contains(name) <==> names.contains(name) && wanted(name) by {
            if picked.contains(name) {
                let i = choose|i: int| 0 <= i < picked.len() && picked[i] == name;
                if i < picked_rest.len() {
                    assert(picked_rest.contains(name));
                }
            }
        }
        if names.no_duplicates() {
            if wanted(last) {
                assert(!picked_rest.contains(last));
                assert forall|i: int, j: int|
                    0 <= i < picked.len() && 0 <= j < picked.len() && i != j implies picked[i]
                    != picked[j] by {
                    if i < picked_rest.len() && j < picked_rest.len() {
                        assert(picked_rest[i] != picked_rest[j]);
                    } else if i < picked_rest.len() {
                        assert(picked_rest.contains(picked[i]));
                    } else {
                        assert(picked_rest.contains(picked[j]));
                    }
                }
            }
        }
    }
}

/// Putting a message into one of an agent's queues keeps the agent well
/// formed, adds the message at the back of that queue, and changes nothing
/// else: not which sessions the agent has, not any other session, not its
/// connections.
pub proof fn lemma_deliver(agent: AgentView, id: Seq<char>, message: MessageView)
    requires
        agent.wf(),
        agent.has_session(id),
    ensures
        agent.deliver(id, message).wf(),
        agent.deliver(id, message).name == agent.name,
        agent.deliver(id, message).connections == agent.connections,
        session_ids(agent.deliver(id, message).sessions) == session_ids(agent.sessions),
        agent.deliver(id, message).session(id) == agent.session(id).enqueue(message),
        agent.deliver(id, message).session(id).pending == agent.session(id).pending.push(
            message,
        ),
        forall|other: Seq<char>|
            other != id && agent.has_session(other) ==> #[trigger] agent.deliver(
                id,
                message,
            ).session(other) == agent.session(other),
{
    let after = agent.deliver(id, message);
    let ids = session_ids(agent.sessions);
    let at = agent.session_index(id);
    assert(session_ids(after.sessions) =~= ids);
    assert forall|other: Seq<char>| other != id && agent.has_session(other) implies #[trigger]
        after.session(other) == agent.session(other) by {
        assert(ids[agent.session_index(other)] == other);
    }
}

/// A broadcast reaches each connection of the sender that is registered and
/// holds the active session, and each of them once: one message is handed
/// back for each, each finds that message at the back of its queue for the
/// active session, and every other agent is as it was before.
pub proof fn lemma_broadcast_reaches_each_once(
    system: SystemView,
    from: Seq<char>,
    content: Seq<char>,
)
    requires
        system.wf(),
        system.has_agent(from),
    ensures
        system.broadcast(from, content).wf(),
        system.broadcast_recipients(from).no_duplicates(),
        forall|name: Seq<char>| #[trigger]
            system.broadcast_recipients(from).contains(name) <==> system.connected(from, name)
                && system.reachable(name),
        messages_to(system.broadcast_recipients(from), from, content).len()
            == system.broadcast_recipients(from).len(),
        system.broadcast(from, content).agents.len() == system.agents.len(),
        forall|i: int|
            0 <= i < system.agents.len() ==> {
                let before = #[trigger] system.agents[i];
                let after = system.broadcast(from, content).agents[i];
                let message = (MessageView { from, to: before.name, content });
                if system.connected(from, before.name) && system.reachable(before.name) {
                    &&& after == before.deliver(system.active_session->0, message)
                    &&& after.session(system.active_session->0).pending == before.session(
                        system.active_session->0,
                    ).pending.push(message)
                } else {
                    after == before
                }
            },
{
    let sender = system.agent(from);
    assert(system.agents[system.agent_index(from)].wf());
    lemma_pick(sender.connections, system.reach());
    let after = system.broadcast(from, content);
    assert(agent_names(after.agents) =~= agent_names(system.agents)) by {
        assert forall|i: int| 0 <= i < system.agents.len() implies after.agents[i].name
            == system.agents[i].name by {
            lemma_broadcast_at(system, from, content, i);
        }
    }
    assert forall|i: int| 0 <= i < after.agents.len() implies (#[trigger] after.agents[i]).wf() by {
        lemma_broadcast_at(system, from, content, i);
    }
    assert forall|i: int| 0 <= i < system.agents.len() implies {
        let before = #[trigger] system.agents[i];
        let after = system.broadcast(from, content).agents[i];
        let message = MessageView { from, to: before.name, content };
        if system.connected(from, before.name) && system.reachable(before.name) {
            &&& after == before.deliver(system.active_session->0, message)
            &&& after.session(system.active_session->0).pending == before.session(
                system.active_session->0,
            ).pending.push(message)
        } else {
            after == before
        }
    } by {
        lemma_broadcast_at(system, from, content, i);
    }
}

/// What a broadcast makes of the agent at one place.
proof fn lemma_broadcast_at(system: SystemView, from: Seq<char>, content: Seq<char>, i: int)
    requires
        system.wf(),
        system.has_agent(from),
        0 <= i < system.agents.len(),
    ensures
        system.broadcast(from, content).agents[i].name == system.agents[i].name,
        system.broadcast(from, content).agents[i].wf(),
        ({
            let before = system.agents[i];
            let after = system.broadcast(from, content).agents[i];
            let message = (MessageView { from, to: before.name, content });
            if system.connected(from, before.name) && system.reachable(before.name) {
                &&& after == before.deliver(system.active_session->0, message)
                &&& after.session(system.active_session->0).pending == before.session(
                    system.active_session->0,
                ).pending.push(message)
            } else {
                after == before
            }
        }),
{
    let before = system.agents[i];
    let message = MessageView { from, to: before.name, content };
    lemma_pick(system.agent(from).connections, system.reach());
    lemma_agent_index(system.agents, i);
    if system.broadcast_recipients(from).contains(before.name) {
        lemma_deliver(before, system.active_session->0, message);
    }
}

/// The session after the given messages have been put into its queue, one
/// after the other.
pub open spec fn enqueue_all(session: SessionView, messages: Seq<MessageView>) -> SessionView
    decreases messages.len(),
{
    if messages.len() == 0 {
        session
    } else {
        enqueue_all(session, messages.drop_last()).enqueue(messages.last())
    }
}

/// The session after `count` messages have been taken off its queue, one
/// after the other.
pub open spec fn dequeue_many(session: SessionView, count: nat) -> SessionView
    decreases count,
{
    if count == 0 {
        session
    } else {
        dequeue_many(session, (count - 1) as nat).dequeue()
    }
}

/// Messages leave a session's queue in the order in which they entered it:
/// after any messages have been enqueued, the message that is at the front
/// once `taken` messages have been taken off is the one that entered as
/// number `taken`, counting those that waited before.
pub proof fn lemma_first_in_first_out(
    session: SessionView,
    messages: Seq<MessageView>,
    taken: nat,
)
    requires
        taken < session.pending.len() + messages.len(),
    ensures
        enqueue_all(session, messages).pending == session.pending + messages,
        dequeue_many(enqueue_all(session, messages), taken).front() == Some(
            (session.pending + messages)[taken as int],
        ),
{
    lemma_enqueue_all(session, messages);
    lemma_dequeue_many(enqueue_all(session, messages), taken);
}

/// Enqueuing messages one after the other appends them to the queue in that
/// order and changes nothing else.
pub proof fn lemma_enqueue_all(session: SessionView, messages: Seq<MessageView>)
    ensures
        enqueue_all(session, messages) == (SessionView {
            pending: session.pending + messages,
            ..session
        }),
    decreases messages.len(),
{
    if messages.len() == 0 {
    } else {
        lemma_enqueue_all(session, messages.drop_last());
        assert((session.pending + messages.drop_last()).push(messages.last())
            =~= session.pending + messages);
    }
}

/// Taking messages off one after the other removes them from the front of
/// the queue and changes nothing else.
pub proof fn lemma_dequeue_many(session: SessionView, count: nat)
    requires
        count <= session.pending.len(),
    ensures
        dequeue_many(session, count) == (SessionView {
            pending: session.pending.skip(count as int),
            ..session
        }),
        count < session.pending.len() ==> dequeue_many(session, count).front() == Some(
            session.pending[count as int],
        ),
    decreases count,
{
    if count == 0 {
        assert(session.pending.skip(0) =~= session.pending);
    } else {
        lemma_dequeue_many(session, (count - 1) as nat);
        assert(session.pending.skip(count - 1).drop_first() =~= session.pending.skip(
            count as int,
        ));
    }
}

/// A wake-up hands the consumer the oldest message of the queue and takes
/// it off; the messages behind it keep their order.
pub proof fn lemma_wake_takes_oldest(agent: AgentView, id: Seq<char>, stamp: SystemTime)
    requires
        agent.wf(),
        agent.has_session(id),
        agent.session(id).pending.len() > 0,
    ensures
        agent.consumer_action(id, ConsumerEventView::Wake) == (ConsumerActionView::Generate {
            system_prompt: agent.role,
            message: agent.session(id).pending[0],
        }),
        agent.consumer_effect(id, ConsumerEventView::Wake, stamp).session(id).pending
            == agent.session(id).pending.drop_first(),
{
    let ids = session_ids(agent.sessions);
    let at = agent.session_index(id);
    let after = agent.consumer_effect(id, ConsumerEventView::Wake, stamp);
    assert(session_ids(after.sessions) =~= ids);
}

/// A message that is sent arrives at the back of the recipient's queue for
/// the active session; nothing else changes, in the recipient or in any
/// other agent.
pub proof fn lemma_send_delivers(system: SystemView, message: MessageView)
    requires
        system.wf(),
        system.send_error(message.from, message.to) is None,
    ensures
        system.send(message).wf(),
        forall|name: Seq<char>| #[trigger]
            system.send(message).has_agent(name) == system.has_agent(name),
        system.send(message).agent(message.to) == system.agent(message.to).deliver(
            system.active_session->0,
            message,
        ),
        system.send(message).agent(message.to).session(system.active_session->0).pending
            == system.agent(message.to).session(system.active_session->0).pending.push(message),
        forall|name: Seq<char>|
            name != message.to && system.has_agent(name) ==> #[trigger] system.send(
                message,
            ).agent(name) == system.agent(name),
        system.send(message).session_ids == system.session_ids,
        system.send(message).active_session == system.active_session,
{
    let recipient = system.agent(message.to);
    assert(system.agents[system.agent_index(message.to)].wf());
    lemma_deliver(recipient, system.active_session->0, message);
    lemma_put_agent(system, recipient.deliver(system.active_session->0, message));
}

/// After a session has been created, every registered agent holds it, empty
/// and without a consumer on record; the agents, their connections and their
/// other sessions are as before, and some session is active.
pub proof fn lemma_session_created_everywhere(
    system: SystemView,
    after: SystemView,
    id: Seq<char>,
)
    requires
        system.wf(),
        system.can_create_session(id),
        system.session_created(after, id),
    ensures
        after.wf(),
        agent_names(after.agents) == agent_names(system.agents),
        forall|name: Seq<char>| #[trigger] after.has_agent(name) == system.has_agent(name),
        forall|name: Seq<char>|
            system.has_agent(name) ==> {
                let agent = #[trigger] after.agent(name);
                &&& agent.has_session(id)
                &&& agent.session(id).entries.len() == 0
                &&& agent.session(id).pending.len() == 0
                &&& agent.session(id).task is None
                &&& agent.connections == system.agent(name).connections
                &&& agent.sessions.drop_last() == system.agent(name).sessions
            },
        after.active_session is Some,
        system.active_session is None ==> after.active_session == Some(id),
{
    let ids = system.session_ids.push(id);
    assert(ids[ids.len() - 1] == id);
    assert forall|i: int| 0 <= i < system.agents.len() implies {
        &&& (#[trigger] after.agents[i]).wf()
        &&& after.agents[i].name == system.agents[i].name
    } by {
        lemma_session_opened(system, after, id, i);
    }
    assert(agent_names(after.agents) =~= agent_names(system.agents));
    if system.active_session is Some {
        let active = system.active_session->0;
        let k = choose|k: int| 0 <= k < system.session_ids.len() && system.session_ids[k] == active;
        assert(ids[k] == active);
    }
    lemma_with_name(system.session_ids, id);
    assert forall|name: Seq<char>| system.has_agent(name) implies {
        let agent = #[trigger] after.agent(name);
        &&& agent.has_session(id)
        &&& agent.session(id).entries.len() == 0
        &&& agent.session(id).pending.len() == 0
        &&& agent.session(id).task is None
        &&& agent.connections == system.agent(name).connections
        &&& agent.sessions.drop_last() == system.agent(name).sessions
    } by {
        let at = system.agent_index(name);
        lemma_session_opened(system, after, id, at);
    }
}

/// What the creation of a session has made of the agent at one place.
proof fn lemma_session_opened(system: SystemView, after: SystemView, id: Seq<char>, at: int)
    requires
        system.wf(),
        system.can_create_session(id),
        system.session_created(after, id),
        0 <= at < system.agents.len(),
    ensures
        after.agents[at].wf(),
        after.agents[at].name == system.agents[at].name,
        after.agents[at].connections == system.agents[at].connections,
        after.agents[at].sessions.drop_last() == system.agents[at].sessions,
        after.agents[at].has_session(id),
        after.agents[at].session(id).entries.len() == 0,
        after.agents[at].session(id).pending.len() == 0,
        after.agents[at].session(id).task is None,
{
    let before = system.agents[at];
    let agent = after.agents[at];
    let old_ids = session_ids(before.sessions);
    let new_ids = session_ids(agent.sessions);
    assert(new_ids =~= old_ids.push(id));
    lemma_with_name(old_ids, id);
    crate::agent::lemma_session_index(agent.sessions, new_ids.len() - 1);
}

/// Once a session has been created, a second one of the same id cannot be:
/// the id is known.
pub proof fn lemma_session_id_is_taken(system: SystemView, after: SystemView, id: Seq<char>)
    requires
        system.session_created(after, id),
    ensures
        !after.can_create_session(id),
{
    let ids = system.session_ids.push(id);
    assert(ids[ids.len() - 1] == id);
}

/// Where the creation of a session was refused, it is refused again.
pub proof fn lemma_session_stays_refused(system: SystemView, after: SystemView, id: Seq<char>)
    requires
        system.wf(),
        !system.can_create_session(id),
        system.session_refused(after, id),
    ensures
        !after.can_create_session(id),
{
    if !system.session_ids.contains(id) {
        let holder = choose|i: int|
            0 <= i < system.agents.len() && (#[trigger] system.agents[i]).has_session(id);
        lemma_some_holder_is_first(system, id, holder);
        let at = system.first_holder(id);
        assert(after.agents[at].has_session(id));
    }
}

/// Where an agent holds a session of the given id, one agent is the first
/// that does.
pub proof fn lemma_some_holder_is_first(system: SystemView, id: Seq<char>, holder: int)
    requires
        0 <= holder < system.agents.len(),
        system.agents[holder].has_session(id),
    ensures
        system.is_first_holder(id, system.first_holder(id)),
        system.first_holder(id) <= holder,
    decreases holder,
{
    if exists|j: int| 0 <= j < holder && (#[trigger] system.agents[j]).has_session(id) {
        let j = choose|j: int| 0 <= j < holder && (#[trigger] system.agents[j]).has_session(id);
        lemma_some_holder_is_first(system, id, j);
    } else {
        crate::registry::lemma_first_holder(system, id, holder);
    }
}

/// After a session has been removed, a session of the same id can be
/// created again.
pub proof fn lemma_removed_session_can_return(system: SystemView, id: Seq<char>)
    requires
        system.wf(),
    ensures
        system.remove_session(id).wf(),
        system.remove_session(id).can_create_session(id),
{
    let after = system.remove_session(id);
    lemma_without_name(system.session_ids, id);
    assert(agent_names(after.agents) =~= agent_names(system.agents));
    assert forall|i: int| 0 <= i < after.agents.len() implies (#[trigger] after.agents[i]).wf()
        && !after.agents[i].has_session(id) by {
        let before = system.agents[i];
        lemma_close_session(before, id);
    }
    if after.active_session is Some {
        assert(after.active_session->0 != id);
    }
}

/// Closing a session leaves an agent that is well formed and has no session
/// of that id.
pub proof fn lemma_close_session(agent: AgentView, id: Seq<char>)
    requires
        agent.wf(),
    ensures
        agent.has_session(id) ==> agent.close_session(id).wf() && !agent.close_session(
            id,
        ).has_session(id),
{
    if agent.has_session(id) {
        let ids = session_ids(agent.sessions);
        let at = agent.session_index(id);
        let after = agent.close_session(id);
        assert(session_ids(after.sessions) =~= ids.remove(at));
    }
}

} // verus!
