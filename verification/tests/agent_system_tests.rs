use multi_agent_backend::consumer::{ConsumerAction, ConsumerEvent};
use multi_agent_backend::errors::SendError;
use multi_agent_backend::{Agent, AgentError, AgentSystem, SessionError};

fn system_of(names: &[&str]) -> AgentSystem {
    let mut system = AgentSystem::new();
    for name in names {
        system
            .add_agent(Agent::new(name.to_string(), format!("You are {}.", name)))
            .unwrap();
    }
    system
}

fn queue_of(system: &AgentSystem, agent: &str, session: &str) -> Vec<String> {
    let mut snapshot = system.get_agent(agent).unwrap().get_session(session).unwrap();
    let mut contents = Vec::new();
    while let Some(message) = snapshot.pop_message_from_stack() {
        contents.push(format!("{}>{}:{}", message.from, message.to, message.content));
    }
    contents
}

#[test]
fn test_add_agent() {
    let mut system = AgentSystem::new();
    let agent = Agent::new("Agent1".to_string(), "Role1".to_string());
    assert!(system.add_agent(agent).is_ok());
}

#[test]
fn test_duplicate_agent() {
    let mut system = AgentSystem::new();
    let agent1 = Agent::new("Agent1".to_string(), "Role1".to_string());
    let agent2 = Agent::new("Agent1".to_string(), "Role2".to_string());

    system.add_agent(agent1).unwrap();
    assert!(system.add_agent(agent2).is_err());
}

#[test]
fn test_message_requires_connection() {
    let mut system = AgentSystem::new();
    let agent1 = Agent::new("Agent1".to_string(), "Role1".to_string());
    let agent2 = Agent::new("Agent2".to_string(), "Role2".to_string());

    system.add_agent(agent1).unwrap();
    system.add_agent(agent2).unwrap();

    // Create a session for the agents
    system.create_session("test-session".to_string()).unwrap();

    // Should fail - not connected
    assert!(system
        .send_message("Agent1", "Agent2", "Hello".to_string())
        .is_err());

    // Connect and try again
    system.connect_agents("Agent1", "Agent2").unwrap();
    assert!(system
        .send_message("Agent1", "Agent2", "Hello".to_string())
        .is_ok());
}

#[test]
fn test_remove_agent() {
    let mut system = AgentSystem::new();
    let agent = Agent::new("Agent1".to_string(), "Role1".to_string());
    system.add_agent(agent).unwrap();

    assert!(system.remove_agent("Agent1").is_ok());
    assert!(system.get_agent("Agent1").is_none());
}

#[test]
fn test_send_broadcast() {
    let mut system = AgentSystem::new();
    let broadcaster = Agent::new("Broadcaster".to_string(), "Role1".to_string());
    let agent1 = Agent::new("Agent1".to_string(), "Role2".to_string());
    let agent2 = Agent::new("Agent2".to_string(), "Role3".to_string());
    let agent3 = Agent::new("Agent3".to_string(), "Role4".to_string());

    system.add_agent(broadcaster).unwrap();
    system.add_agent(agent1).unwrap();
    system.add_agent(agent2).unwrap();
    system.add_agent(agent3).unwrap();

    // Create a session for the agents
    system.create_session("test-session".to_string()).unwrap();

    // Connect broadcaster to agent1 and agent2, but not agent3
    system.connect_agents("Broadcaster", "Agent1").unwrap();
    system.connect_agents("Broadcaster", "Agent2").unwrap();

    // Broadcast message
    let result = system.send_broadcast("Broadcaster", "Hello everyone!".to_string());
    assert!(result.is_ok());

    let messages = result.unwrap();
    assert_eq!(messages.len(), 2);

    // Verify messages were sent to connected agents
    assert!(messages.iter().any(|m| m.to == "Agent1"));
    assert!(messages.iter().any(|m| m.to == "Agent2"));
    assert!(!messages.iter().any(|m| m.to == "Agent3"));

    // Verify all messages have correct sender and content
    for msg in messages {
        assert_eq!(msg.from, "Broadcaster");
        assert_eq!(msg.content, "Hello everyone!");
    }
}

#[test]
fn test_broadcast_no_connections() {
    let mut system = AgentSystem::new();
    let agent = Agent::new("LoneAgent".to_string(), "Role1".to_string());
    system.add_agent(agent).unwrap();

    let result = system.send_broadcast("LoneAgent", "Anyone there?".to_string());
    assert!(result.is_ok());

    let messages = result.unwrap();
    assert_eq!(messages.len(), 0);
}

#[test]
fn test_broadcast_nonexistent_sender() {
    let mut system = AgentSystem::new();
    let result = system.send_broadcast("NonExistent", "Hello".to_string());
    assert!(result.is_err());
}

#[test]
fn test_remove_agent_cleans_connections() {
    let mut system = AgentSystem::new();
    let agent1 = Agent::new("Agent1".to_string(), "Role1".to_string());
    let agent2 = Agent::new("Agent2".to_string(), "Role2".to_string());
    let agent3 = Agent::new("Agent3".to_string(), "Role3".to_string());

    system.add_agent(agent1).unwrap();
    system.add_agent(agent2).unwrap();
    system.add_agent(agent3).unwrap();

    // Connect agents
    system.connect_agents("Agent1", "Agent2").unwrap();
    system.connect_agents("Agent1", "Agent3").unwrap();

    // Verify connections exist
    let agent2 = system.get_agent("Agent2").unwrap();
    let agent3 = system.get_agent("Agent3").unwrap();
    assert!(agent2.is_connected_to("Agent1"));
    assert!(agent3.is_connected_to("Agent1"));

    // Remove Agent1
    assert!(system.remove_agent("Agent1").is_ok());

    // Verify connections were cleaned up
    let agent2 = system.get_agent("Agent2").unwrap();
    let agent3 = system.get_agent("Agent3").unwrap();
    assert!(!agent2.is_connected_to("Agent1"));
    assert!(!agent3.is_connected_to("Agent1"));
}

#[test]
fn add_agent_reports_the_taken_name() {
    let mut system = system_of(&["A"]);
    let second = Agent::new("A".to_string(), "other role".to_string());
    match system.add_agent(second) {
        Err(AgentError::Exists(name)) => assert_eq!(name, "A"),
        other => panic!("unexpected result {:?}", other),
    }
    assert_eq!(system.list_agents().len(), 1);
    assert_eq!(system.get_agent("A").unwrap().role, "You are A.");
}

#[test]
fn list_agents_keeps_registration_order() {
    let mut system = system_of(&["C", "A", "B"]);
    let names: Vec<String> = system.list_agents().iter().map(|a| a.name.clone()).collect();
    assert_eq!(names, vec!["C", "A", "B"]);
    system.remove_agent("A").unwrap();
    let names: Vec<String> = system.list_agents().iter().map(|a| a.name.clone()).collect();
    assert_eq!(names, vec!["C", "B"]);
    assert!(system.get_agent("A").is_none());
    assert!(system.get_agent("").is_none());
}

#[test]
fn remove_agent_that_is_missing() {
    let mut system = system_of(&["A"]);
    match system.remove_agent("B") {
        Err(AgentError::NotFound(name)) => assert_eq!(name, "B"),
        other => panic!("unexpected result {:?}", other),
    }
    assert_eq!(system.list_agents().len(), 1);
}

#[test]
fn remove_agent_hands_out_the_agent_as_it_was() {
    let mut system = system_of(&["A", "B", "C"]);
    system.connect_agents("A", "B").unwrap();
    system.connect_agents("A", "A").unwrap();
    system.connect_agents("C", "B").unwrap();
    let removed = system.remove_agent("A").unwrap();
    assert_eq!(removed.name, "A");
    assert_eq!(removed.get_connections(), vec!["B", "A"]);
    assert_eq!(system.get_agent("B").unwrap().get_connections(), vec!["C"]);
    assert_eq!(system.get_agent("C").unwrap().get_connections(), vec!["B"]);
}

#[test]
fn connect_is_mutual_and_disconnect_undoes_it() {
    let mut system = system_of(&["A", "B", "C"]);
    assert!(system.connect_agents("A", "B").is_ok());
    assert!(system.get_agent("A").unwrap().is_connected_to("B"));
    assert!(system.get_agent("B").unwrap().is_connected_to("A"));
    assert!(!system.get_agent("A").unwrap().is_connected_to("C"));
    assert!(!system.get_agent("C").unwrap().is_connected_to("A"));
    assert!(!system.get_agent("A").unwrap().is_connected_to("A"));

    assert!(system.connect_agents("A", "B").is_ok());
    assert_eq!(system.get_agent("A").unwrap().get_connections(), vec!["B"]);

    assert_eq!(system.disconnect_agents("B", "A"), Ok(()));
    assert!(!system.get_agent("A").unwrap().is_connected_to("B"));
    assert!(!system.get_agent("B").unwrap().is_connected_to("A"));
}

#[test]
fn connect_needs_both_agents() {
    let mut system = system_of(&["A"]);
    match system.connect_agents("X", "Y") {
        Err(AgentError::NotFound(name)) => assert_eq!(name, "X"),
        other => panic!("unexpected result {:?}", other),
    }
    match system.connect_agents("A", "Y") {
        Err(AgentError::NotFound(name)) => assert_eq!(name, "Y"),
        other => panic!("unexpected result {:?}", other),
    }
    match system.connect_agents("X", "A") {
        Err(AgentError::NotFound(name)) => assert_eq!(name, "X"),
        other => panic!("unexpected result {:?}", other),
    }
    assert!(system.get_agent("A").unwrap().get_connections().is_empty());
}

#[test]
fn disconnect_never_fails() {
    let mut system = system_of(&["A", "B"]);
    assert_eq!(system.disconnect_agents("A", "B"), Ok(()));
    assert_eq!(system.disconnect_agents("X", "Y"), Ok(()));
    system.connect_agents("A", "B").unwrap();
    assert_eq!(system.disconnect_agents("A", "X"), Ok(()));
    assert!(system.get_agent("A").unwrap().is_connected_to("B"));
    assert_eq!(system.disconnect_agents("X", "A"), Ok(()));
    assert!(system.get_agent("B").unwrap().is_connected_to("A"));
}

#[test]
fn send_message_errors_in_order() {
    let mut system = system_of(&["R", "A"]);
    match system.send_message("X", "Y", "hello".to_string()) {
        Err(SendError::Agent(AgentError::NotFound(name))) => assert_eq!(name, "X"),
        other => panic!("unexpected result {:?}", other),
    }
    match system.send_message("R", "Y", "hello".to_string()) {
        Err(SendError::Agent(AgentError::NotFound(name))) => assert_eq!(name, "Y"),
        other => panic!("unexpected result {:?}", other),
    }
    match system.send_message("R", "A", "hello".to_string()) {
        Err(SendError::Agent(AgentError::NotConnected(from, to))) => {
            assert_eq!(from, "R");
            assert_eq!(to, "A");
        }
        other => panic!("unexpected result {:?}", other),
    }
    system.connect_agents("R", "A").unwrap();
    match system.send_message("R", "A", "hello".to_string()) {
        Err(SendError::Agent(AgentError::NoActiveSession(name))) => assert_eq!(name, "A"),
        other => panic!("unexpected result {:?}", other),
    }
    system.create_session("s1".to_string()).unwrap();
    system.add_agent(Agent::new("Late".to_string(), "r".to_string())).unwrap();
    system.connect_agents("R", "Late").unwrap();
    match system.send_message("R", "Late", "hello".to_string()) {
        Err(error @ SendError::Delivery(_)) => {
            assert_eq!(error.to_string(), "Session 's1' not found")
        }
        other => panic!("unexpected result {:?}", other),
    }
    assert!(system.send_message("R", "A", "hello".to_string()).is_ok());
}

#[test]
fn scenario_send_only_when_connected() {
    let mut system = system_of(&["R", "A"]);
    system.connect_agents("R", "A").unwrap();
    system.create_session("s1".to_string()).unwrap();
    system.disconnect_agents("R", "A").unwrap();
    assert!(matches!(
        system.send_message("R", "A", "hello".to_string()),
        Err(SendError::Agent(AgentError::NotConnected(_, _)))
    ));
    assert!(queue_of(&system, "A", "s1").is_empty());

    system.connect_agents("R", "A").unwrap();
    let message = system.send_message("R", "A", "hello".to_string()).unwrap();
    assert_eq!(message.from, "R");
    assert_eq!(message.to, "A");
    assert_eq!(message.content, "hello");
    assert_eq!(queue_of(&system, "A", "s1"), vec!["R>A:hello"]);
    assert!(queue_of(&system, "R", "s1").is_empty());
}

#[test]
fn messages_to_one_agent_keep_their_order() {
    let mut system = system_of(&["R", "A", "B"]);
    system.connect_agents("R", "A").unwrap();
    system.connect_agents("B", "A").unwrap();
    system.create_session("s1".to_string()).unwrap();
    system.send_message("R", "A", "one".to_string()).unwrap();
    system.send_message("B", "A", "two".to_string()).unwrap();
    system.send_message("R", "A", "three".to_string()).unwrap();
    assert_eq!(queue_of(&system, "A", "s1"), vec!["R>A:one", "B>A:two", "R>A:three"]);
}

#[test]
fn scenario_broadcast_reaches_only_connections() {
    let mut system = system_of(&["Broadcaster", "Agent1", "Agent2", "Agent3"]);
    system.create_session("s".to_string()).unwrap();
    system.connect_agents("Broadcaster", "Agent2").unwrap();
    system.connect_agents("Broadcaster", "Agent1").unwrap();
    let messages = system.send_broadcast("Broadcaster", "hi".to_string()).unwrap();
    let recipients: Vec<String> = messages.iter().map(|m| m.to.clone()).collect();
    assert_eq!(recipients, vec!["Agent2", "Agent1"]);
    assert_eq!(queue_of(&system, "Agent1", "s"), vec!["Broadcaster>Agent1:hi"]);
    assert_eq!(queue_of(&system, "Agent2", "s"), vec!["Broadcaster>Agent2:hi"]);
    assert!(queue_of(&system, "Agent3", "s").is_empty());
    assert!(queue_of(&system, "Broadcaster", "s").is_empty());
}

#[test]
fn broadcast_passes_over_unreachable_connections() {
    let mut system = system_of(&["S", "A"]);
    system.connect_agents("S", "A").unwrap();
    assert!(system.send_broadcast("S", "nobody hears".to_string()).unwrap().is_empty());

    system.create_session("s".to_string()).unwrap();
    system.add_agent(Agent::new("Late".to_string(), "r".to_string())).unwrap();
    system.connect_agents("S", "Late").unwrap();
    let mut gone = Agent::new("Gone".to_string(), "r".to_string());
    gone.create_session("other".to_string()).unwrap();
    system.add_agent(gone).unwrap();
    system.connect_agents("S", "Gone").unwrap();
    let mut sender = system.remove_agent("S").unwrap();
    sender.connect_to("Nobody");
    system.add_agent(sender).unwrap();
    assert_eq!(
        system.get_agent("S").unwrap().get_connections(),
        vec!["A", "Late", "Gone", "Nobody"]
    );

    let messages = system.send_broadcast("S", "hi".to_string()).unwrap();
    assert_eq!(messages.len(), 1);
    assert_eq!(messages[0].to, "A");
    assert_eq!(queue_of(&system, "A", "s"), vec!["S>A:hi"]);
    assert!(queue_of(&system, "Gone", "other").is_empty());
}

#[test]
fn broadcast_from_missing_sender_says_so() {
    let mut system = system_of(&["A"]);
    assert_eq!(
        system.send_broadcast("NonExistent", "Hello".to_string()).err(),
        Some("Sender agent 'NonExistent' not found".to_string())
    );
}

#[test]
fn create_session_twice_fails_and_returns_after_removal() {
    let mut system = system_of(&["A", "B"]);
    assert_eq!(system.create_session("s1".to_string()), Ok(()));
    assert_eq!(
        system.create_session("s1".to_string()),
        Err("Session 's1' already exists".to_string())
    );
    assert_eq!(system.list_all_sessions(), vec!["s1"]);
    assert_eq!(system.get_agent("A").unwrap().list_sessions(), vec!["s1"]);
    assert_eq!(system.get_agent("B").unwrap().list_sessions(), vec!["s1"]);

    assert_eq!(system.remove_session("s1"), Ok(()));
    assert!(system.list_all_sessions().is_empty());
    assert!(system.get_agent("A").unwrap().list_sessions().is_empty());
    assert!(system.get_active_session().is_none());
    assert_eq!(system.create_session("s1".to_string()), Ok(()));
    assert_eq!(system.get_active_session().map(|s| s.as_str()), Some("s1"));
}

#[test]
fn first_session_becomes_active_and_stays() {
    let mut system = system_of(&["A"]);
    assert!(system.get_active_session().is_none());
    system.create_session("s1".to_string()).unwrap();
    assert_eq!(system.get_active_session().map(|s| s.as_str()), Some("s1"));
    system.create_session("s2".to_string()).unwrap();
    assert_eq!(system.get_active_session().map(|s| s.as_str()), Some("s1"));
    assert_eq!(system.list_all_sessions(), vec!["s1", "s2"]);

    assert_eq!(system.set_active_session("s2".to_string()).ok(), Some(()));
    assert_eq!(system.get_active_session().map(|s| s.as_str()), Some("s2"));
    match system.set_active_session("s3".to_string()) {
        Err(SessionError::NotFound(id)) => assert_eq!(id, "s3"),
        other => panic!("unexpected result {:?}", other),
    }
    assert_eq!(system.get_active_session().map(|s| s.as_str()), Some("s2"));

    system.remove_session("s1").unwrap();
    assert_eq!(system.get_active_session().map(|s| s.as_str()), Some("s2"));
    system.remove_session("s2").unwrap();
    assert!(system.get_active_session().is_none());
    system.remove_session("never there").unwrap();
}

#[test]
fn agents_added_later_do_not_get_the_session() {
    let mut system = system_of(&["A"]);
    system.create_session("s1".to_string()).unwrap();
    system.add_agent(Agent::new("B".to_string(), "r".to_string())).unwrap();
    assert!(system.get_agent("B").unwrap().get_session("s1").is_none());
    assert!(system.get_agent("A").unwrap().get_session("s1").is_some());
}

#[test]
fn create_session_stops_at_the_first_agent_that_has_it() {
    let mut system = system_of(&["A"]);
    let mut early = Agent::new("B".to_string(), "r".to_string());
    early.create_session("s1".to_string()).unwrap();
    system.add_agent(early).unwrap();
    system.add_agent(Agent::new("C".to_string(), "r".to_string())).unwrap();

    assert_eq!(
        system.create_session("s1".to_string()),
        Err("Session 's1' already exists".to_string())
    );
    assert_eq!(system.get_agent("A").unwrap().list_sessions(), vec!["s1"]);
    assert_eq!(system.get_agent("B").unwrap().list_sessions(), vec!["s1"]);
    assert!(system.get_agent("C").unwrap().list_sessions().is_empty());
    assert!(system.list_all_sessions().is_empty());
    assert!(system.get_active_session().is_none());
    assert!(system.create_session("s1".to_string()).is_err());
}

#[test]
fn consumer_step_through_the_system() {
    let mut system = system_of(&["R", "A"]);
    system.connect_agents("R", "A").unwrap();
    system.create_session("s1".to_string()).unwrap();
    system.send_message("R", "A", "hello".to_string()).unwrap();

    assert!(matches!(
        system.consumer_step("Nobody", "s1", ConsumerEvent::Wake),
        ConsumerAction::Stop
    ));
    assert!(matches!(
        system.consumer_step("R", "s1", ConsumerEvent::Wake),
        ConsumerAction::Sleep { millis: 100 }
    ));
    let message = match system.consumer_step("A", "s1", ConsumerEvent::Wake) {
        ConsumerAction::Generate { system_prompt, message } => {
            assert_eq!(system_prompt, "You are A.");
            message
        }
        other => panic!("unexpected action {:?}", other),
    };
    assert_eq!(message.content, "hello");
    let action = system.consumer_step(
        "A",
        "s1",
        ConsumerEvent::Generated { message, response: "hi R".to_string() },
    );
    assert!(matches!(action, ConsumerAction::Sleep { millis: 100 }));
    let session = system.get_agent("A").unwrap().get_session("s1").unwrap();
    assert_eq!(session.entry_count(), 1);
    assert_eq!(session.get_entries()[0].response.as_deref(), Some("hi R"));
    assert_eq!(system.get_agent("R").unwrap().get_session("s1").unwrap().entry_count(), 0);

    system.remove_session("s1").unwrap();
    assert!(matches!(
        system.consumer_step("A", "s1", ConsumerEvent::Wake),
        ConsumerAction::Stop
    ));
}
