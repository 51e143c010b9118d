use multi_agent_backend::consumer::{ConsumerAction, ConsumerEvent, POLL_INTERVAL_MILLIS};
use multi_agent_backend::{Agent, Message};

fn note(content: &str) -> Message {
    Message::new("R".to_string(), "A".to_string(), content.to_string())
}

#[test]
fn test_agent_creation() {
    let agent = Agent::new("TestAgent".to_string(), "Test role".to_string());
    assert_eq!(agent.name, "TestAgent");
    assert_eq!(agent.role, "Test role");
}

#[test]
fn test_agent_connection() {
    let mut agent1 = Agent::new("Agent1".to_string(), "Role1".to_string());
    let agent2_name = "Agent2";

    agent1.connect_to(agent2_name);
    assert!(agent1.is_connected_to(agent2_name));
}

#[test]
fn test_agent_disconnection() {
    let mut agent = Agent::new("Agent1".to_string(), "Role1".to_string());
    agent.connect_to("Agent2");
    assert!(agent.is_connected_to("Agent2"));

    agent.disconnect_from("Agent2");
    assert!(!agent.is_connected_to("Agent2"));
}

#[test]
fn agent_getters_match_fields() {
    let agent = Agent::new("N".to_string(), "be kind".to_string());
    assert_eq!(agent.name(), "N");
    assert_eq!(agent.role(), "be kind");
    assert!(agent.get_connections().is_empty());
    assert!(agent.list_sessions().is_empty());
}

#[test]
fn connections_are_a_set_in_order_of_arrival() {
    let mut agent = Agent::new("A".to_string(), "r".to_string());
    agent.connect_to("C");
    agent.connect_to("B");
    agent.connect_to("C");
    agent.connect_to("D");
    assert_eq!(agent.get_connections(), vec!["C", "B", "D"]);
    assert!(!agent.is_connected_to("A"));
    assert!(!agent.is_connected_to("c"));
    assert!(!agent.is_connected_to(""));

    agent.disconnect_from("B");
    assert_eq!(agent.get_connections(), vec!["C", "D"]);
    agent.disconnect_from("B");
    agent.disconnect_from("X");
    assert_eq!(agent.get_connections(), vec!["C", "D"]);
    agent.connect_to("B");
    assert_eq!(agent.get_connections(), vec!["C", "D", "B"]);
}

#[test]
fn agent_create_session_twice_fails() {
    let mut agent = Agent::new("A".to_string(), "r".to_string());
    assert_eq!(agent.create_session("s1".to_string()), Ok(()));
    assert_eq!(
        agent.create_session("s1".to_string()),
        Err("Session 's1' already exists".to_string())
    );
    assert_eq!(agent.create_session("s2".to_string()), Ok(()));
    assert_eq!(agent.list_sessions(), vec!["s1", "s2"]);
}

#[test]
fn agent_send_message_needs_the_session() {
    let mut agent = Agent::new("A".to_string(), "r".to_string());
    assert_eq!(
        agent.send_message("s1", note("lost")),
        Err("Session 's1' not found".to_string())
    );
    agent.create_session("s1".to_string()).unwrap();
    agent.create_session("s2".to_string()).unwrap();
    assert_eq!(agent.send_message("s2", note("one")), Ok(()));
    assert_eq!(agent.send_message("s2", note("two")), Ok(()));
    assert_eq!(agent.get_session("s1").unwrap().message_stack_size(), 0);
    let mut s2 = agent.get_session("s2").unwrap();
    assert_eq!(s2.message_stack_size(), 2);
    assert_eq!(s2.pop_message_from_stack().unwrap().content, "one");
    assert_eq!(s2.pop_message_from_stack().unwrap().content, "two");
    assert_eq!(agent.get_session("s2").unwrap().message_stack_size(), 2);
    assert!(agent.get_session("s3").is_none());
}

#[test]
fn agent_remove_session_hands_it_out() {
    let mut agent = Agent::new("A".to_string(), "r".to_string());
    agent.create_session("s1".to_string()).unwrap();
    agent.create_session("s2".to_string()).unwrap();
    agent.create_session("s3".to_string()).unwrap();
    agent.send_message("s2", note("kept")).unwrap();

    let mut removed = agent.remove_session("s2").unwrap();
    assert_eq!(removed.id, "s2");
    assert_eq!(removed.pop_message_from_stack().unwrap().content, "kept");
    assert_eq!(agent.list_sessions(), vec!["s1", "s3"]);
    assert_eq!(
        agent.remove_session("s2").err(),
        Some("Session 's2' not found".to_string())
    );
    assert_eq!(agent.create_session("s2".to_string()), Ok(()));
    assert_eq!(agent.list_sessions(), vec!["s1", "s3", "s2"]);
}

#[test]
fn agent_join_handles_are_kept_per_session() {
    let runtime = tokio::runtime::Builder::new_current_thread().build().unwrap();
    let mut agent = Agent::new("A".to_string(), "r".to_string());
    assert_eq!(
        agent.set_session_join_handle("s1", runtime.spawn(async {})),
        Err("Session 's1' not found".to_string())
    );
    assert!(!agent.awaits_consumer("s1"));
    agent.create_session("s1".to_string()).unwrap();
    agent.create_session("s2".to_string()).unwrap();
    assert!(agent.awaits_consumer("s1"));
    assert_eq!(agent.set_session_join_handle("s1", runtime.spawn(async {})), Ok(()));
    assert!(!agent.awaits_consumer("s1"));
    assert!(agent.awaits_consumer("s2"));

    assert!(agent.take_session_join_handle("s2").is_none());
    assert!(agent.take_session_join_handle("s3").is_none());
    let handle = agent.take_session_join_handle("s1");
    assert!(handle.is_some());
    assert!(agent.take_session_join_handle("s1").is_none());
    assert!(agent.awaits_consumer("s1"));
    assert!(runtime.block_on(handle.unwrap()).is_ok());
}

#[test]
fn consumer_stops_when_the_session_is_gone() {
    let mut agent = Agent::new("A".to_string(), "r".to_string());
    assert!(matches!(agent.consumer_step("s1", ConsumerEvent::Wake), ConsumerAction::Stop));
    agent.create_session("s1".to_string()).unwrap();
    assert!(matches!(
        agent.consumer_step("s1", ConsumerEvent::Wake),
        ConsumerAction::Sleep { millis: 100 }
    ));
    agent.remove_session("s1").unwrap();
    assert!(matches!(agent.consumer_step("s1", ConsumerEvent::Wake), ConsumerAction::Stop));
}

#[test]
fn consumer_processes_messages_in_order() {
    assert_eq!(POLL_INTERVAL_MILLIS, 100);
    let mut agent = Agent::new("A".to_string(), "You are A.".to_string());
    agent.create_session("s1".to_string()).unwrap();
    agent.send_message("s1", note("first")).unwrap();
    agent.send_message("s1", note("second")).unwrap();

    let first = match agent.consumer_step("s1", ConsumerEvent::Wake) {
        ConsumerAction::Generate { system_prompt, message } => {
            assert_eq!(system_prompt, "You are A.");
            message
        }
        other => panic!("unexpected action {:?}", other),
    };
    assert_eq!(first.content, "first");
    assert_eq!(agent.get_session("s1").unwrap().message_stack_size(), 1);
    assert_eq!(agent.get_session("s1").unwrap().entry_count(), 0);

    let action = agent.consumer_step(
        "s1",
        ConsumerEvent::Generated { message: first, response: "reply one".to_string() },
    );
    assert!(matches!(action, ConsumerAction::Sleep { millis: 100 }));
    let session = agent.get_session("s1").unwrap();
    assert_eq!(session.entry_count(), 1);
    assert_eq!(session.get_entries()[0].message.content, "first");
    assert_eq!(session.get_entries()[0].response.as_deref(), Some("reply one"));
    assert_eq!(session.message_stack_size(), 1);

    let second = match agent.consumer_step("s1", ConsumerEvent::Wake) {
        ConsumerAction::Generate { message, .. } => message,
        other => panic!("unexpected action {:?}", other),
    };
    assert_eq!(second.content, "second");

    let action = agent.consumer_step(
        "s1",
        ConsumerEvent::Failed { message: second, error: "no service".to_string() },
    );
    assert!(matches!(action, ConsumerAction::Sleep { millis: 100 }));
    let session = agent.get_session("s1").unwrap();
    assert_eq!(session.entry_count(), 1);
    assert_eq!(session.message_stack_size(), 0);
    assert!(matches!(
        agent.consumer_step("s1", ConsumerEvent::Wake),
        ConsumerAction::Sleep { millis: 100 }
    ));
}

#[test]
fn response_for_a_removed_session_is_dropped() {
    let mut agent = Agent::new("A".to_string(), "r".to_string());
    agent.create_session("s1".to_string()).unwrap();
    agent.create_session("s2".to_string()).unwrap();
    agent.send_message("s1", note("in flight")).unwrap();
    let message = match agent.consumer_step("s1", ConsumerEvent::Wake) {
        ConsumerAction::Generate { message, .. } => message,
        other => panic!("unexpected action {:?}", other),
    };
    agent.remove_session("s1").unwrap();
    let action = agent.consumer_step(
        "s1",
        ConsumerEvent::Generated { message, response: "too late".to_string() },
    );
    assert!(matches!(action, ConsumerAction::Sleep { millis: 100 }));
    assert_eq!(agent.list_sessions(), vec!["s2"]);
    assert_eq!(agent.get_session("s2").unwrap().entry_count(), 0);
    assert!(matches!(agent.consumer_step("s1", ConsumerEvent::Wake), ConsumerAction::Stop));
}

#[test]
fn agent_clone_is_a_snapshot() {
    let runtime = tokio::runtime::Builder::new_current_thread().build().unwrap();
    let mut agent = Agent::new("A".to_string(), "r".to_string());
    agent.connect_to("B");
    agent.create_session("s1".to_string()).unwrap();
    agent.send_message("s1", note("waiting")).unwrap();
    agent.set_session_join_handle("s1", runtime.spawn(async {})).unwrap();

    let mut copy = agent.clone();
    assert_eq!(copy.name, "A");
    assert_eq!(copy.role, "r");
    assert_eq!(copy.get_connections(), vec!["B"]);
    assert_eq!(copy.list_sessions(), vec!["s1"]);
    assert_eq!(copy.get_session("s1").unwrap().message_stack_size(), 1);
    assert!(copy.awaits_consumer("s1"));
    assert!(!agent.awaits_consumer("s1"));

    copy.connect_to("C");
    copy.send_message("s1", note("only in the copy")).unwrap();
    assert_eq!(agent.get_connections(), vec!["B"]);
    assert_eq!(agent.get_session("s1").unwrap().message_stack_size(), 1);
}
