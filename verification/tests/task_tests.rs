use multi_agent_backend::task::join_outcome;
use multi_agent_backend::{Agent, AgentSystem};

fn runtime() -> tokio::runtime::Runtime {
    tokio::runtime::Builder::new_current_thread().build().unwrap()
}

fn system_of(names: &[&str]) -> AgentSystem {
    let mut system = AgentSystem::new();
    for name in names {
        system.add_agent(Agent::new(name.to_string(), "r".to_string())).unwrap();
    }
    system
}

#[test]
fn scenario_waiting_without_tasks_fails() {
    let mut system = system_of(&["A", "B"]);
    system.create_session("s1".to_string()).unwrap();
    assert_eq!(
        system.take_session_tasks("s1").err(),
        Some("No active processing tasks found for session 's1'".to_string())
    );
    assert_eq!(system.list_all_sessions(), vec!["s1"]);
    assert!(system.get_agent("A").unwrap().get_session("s1").is_some());
    assert_eq!(system.get_active_session().map(|s| s.as_str()), Some("s1"));
    assert!(system.take_session_tasks("unknown").is_err());
}

#[test]
fn agents_await_a_consumer_until_a_handle_is_stored() {
    let rt = runtime();
    let mut system = system_of(&["A", "B", "C"]);
    assert!(system.agents_awaiting_consumer("s1").is_empty());
    system.create_session("s1".to_string()).unwrap();
    system.add_agent(Agent::new("Late".to_string(), "r".to_string())).unwrap();
    assert_eq!(system.agents_awaiting_consumer("s1"), vec!["A", "B", "C"]);

    assert_eq!(system.set_session_join_handle("B", "s1", rt.spawn(async {})), Ok(()));
    assert_eq!(system.agents_awaiting_consumer("s1"), vec!["A", "C"]);
    assert_eq!(
        system.set_session_join_handle("Nobody", "s1", rt.spawn(async {})),
        Err("Agent Nobody not found!".to_string())
    );
    assert_eq!(
        system.set_session_join_handle("Late", "s1", rt.spawn(async {})),
        Err("Session 's1' not found".to_string())
    );
    assert_eq!(
        system.set_session_join_handle("A", "s2", rt.spawn(async {})),
        Err("Session 's2' not found".to_string())
    );
    assert_eq!(system.agents_awaiting_consumer("s1"), vec!["A", "C"]);
}

#[test]
fn taking_the_tasks_removes_the_session() {
    let rt = runtime();
    let mut system = system_of(&["A", "B", "C"]);
    system.create_session("s1".to_string()).unwrap();
    system.create_session("s2".to_string()).unwrap();
    system.set_session_join_handle("A", "s1", rt.spawn(async {})).unwrap();
    system.set_session_join_handle("C", "s1", rt.spawn(async {})).unwrap();
    system.set_session_join_handle("B", "s2", rt.spawn(async {})).unwrap();

    let handles = system.take_session_tasks("s1").unwrap();
    assert_eq!(handles.len(), 2);
    assert_eq!(system.list_all_sessions(), vec!["s2"]);
    assert!(system.get_active_session().is_none());
    for name in ["A", "B", "C"] {
        assert_eq!(system.get_agent(name).unwrap().list_sessions(), vec!["s2"]);
    }
    assert!(system.take_session_tasks("s1").is_err());

    let mut results = Vec::new();
    for handle in handles {
        results.push(rt.block_on(handle));
    }
    assert_eq!(join_outcome(&results), Ok(()));
    assert_eq!(system.take_session_tasks("s2").unwrap().len(), 1);
}

#[test]
fn one_panic_fails_the_wait() {
    let rt = runtime();
    let fine = rt.block_on(rt.spawn(async {}));
    let broken = rt.block_on(rt.spawn(async {
        panic!("consumer fault");
    }));
    assert!(fine.is_ok());
    assert!(broken.is_err());
    assert_eq!(join_outcome(&vec![]), Ok(()));
    assert_eq!(join_outcome(&vec![fine]), Ok(()));
    let fine = rt.block_on(rt.spawn(async {}));
    let again = rt.block_on(rt.spawn(async {}));
    assert_eq!(
        join_outcome(&vec![fine, broken, again]),
        Err("Some tasks panicked".to_string())
    );
}
