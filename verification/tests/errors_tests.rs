use multi_agent_backend::errors::{
    no_tasks, sender_missing, session_exists, session_missing, tasks_panicked, SendError,
};
use multi_agent_backend::{AgentError, SessionError};

#[test]
fn agent_errors_in_words() {
    assert_eq!(AgentError::NotFound("A".to_string()).to_string(), "Agent A not found!");
    assert_eq!(AgentError::Exists("A".to_string()).to_string(), "Agent A already exists!");
    assert_eq!(
        AgentError::NotConnected("A".to_string(), "B".to_string()).to_string(),
        "Agent A not connected to Agent B"
    );
    assert_eq!(
        AgentError::NoActiveSession("A".to_string()).to_string(),
        "No active session for agent 'A'"
    );
}

#[test]
fn session_errors_in_words() {
    assert_eq!(SessionError::NotFound("s".to_string()).to_string(), "Session s not found!");
    assert_eq!(SessionError::Stopped("s".to_string()).to_string(), "Session s stopped!");
    assert_eq!(SessionError::Running("s".to_string()).to_string(), "Session s still running!");
    assert_eq!(SessionError::Exists("s".to_string()).to_string(), "Session s already exists!");
}

#[test]
fn errors_turn_into_strings() {
    let text: String = AgentError::NotFound("A B".to_string()).into();
    assert_eq!(text, "Agent A B not found!");
    let text = String::from(SessionError::Exists("".to_string()));
    assert_eq!(text, "Session  already exists!");
}

#[test]
fn send_errors_in_words() {
    let wrapped = SendError::Agent(AgentError::NotConnected("R".to_string(), "A".to_string()));
    assert_eq!(wrapped.to_string(), "Agent R not connected to Agent A");
    let refused = SendError::Delivery("Session 's1' not found".to_string());
    assert_eq!(refused.to_string(), "Session 's1' not found");
}

#[test]
fn plain_failure_texts() {
    assert_eq!(session_missing("s1"), "Session 's1' not found");
    assert_eq!(session_exists("s1"), "Session 's1' already exists");
    assert_eq!(sender_missing("Bob"), "Sender agent 'Bob' not found");
    assert_eq!(no_tasks("s1"), "No active processing tasks found for session 's1'");
    assert_eq!(tasks_panicked(), "Some tasks panicked");
}
