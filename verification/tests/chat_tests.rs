use multi_agent_backend::chat::ollama_chat::health_outcome;
use multi_agent_backend::chat::GenerateReply;
use multi_agent_backend::{OllamaChat, UsageInfo};

#[test]
fn test_ollama_chat_creation() {
    let chat = OllamaChat::new("http://localhost:11434".to_string(), "llama2".to_string());
    assert_eq!(chat.get_model(), "llama2");
    assert_eq!(chat.base_url(), "http://localhost:11434");
}

#[test]
fn test_set_model() {
    let mut chat = OllamaChat::default();
    chat.set_model("mistral");
    assert_eq!(chat.get_model(), "mistral");
}

#[test]
fn default_chat_points_at_this_machine() {
    let chat = OllamaChat::default();
    assert_eq!(chat.base_url(), "http://localhost:11434");
    assert_eq!(chat.get_model(), "llama2");
    assert_eq!(chat.get_usage_info().total_requests, 0);
}

#[test]
fn usage_default_is_zero() {
    let usage = UsageInfo::default();
    assert_eq!(usage.total_requests, 0);
    assert!(usage.prompt_tokens.is_none());
    assert!(usage.completion_tokens.is_none());
    assert!(usage.total_tokens.is_none());
    assert!(usage.metadata.is_none());
}

#[test]
fn usage_clone_copies_every_field() {
    let usage = UsageInfo {
        total_requests: 7,
        prompt_tokens: Some(1),
        completion_tokens: Some(2),
        total_tokens: Some(3),
        metadata: Some("note".to_string()),
    };
    let copy = usage.clone();
    assert_eq!(copy.total_requests, 7);
    assert_eq!(copy.prompt_tokens, Some(1));
    assert_eq!(copy.completion_tokens, Some(2));
    assert_eq!(copy.total_tokens, Some(3));
    assert_eq!(copy.metadata.as_deref(), Some("note"));
}

#[test]
fn urls_hang_on_the_base_address() {
    let chat = OllamaChat::new("http://host:1".to_string(), "m".to_string());
    assert_eq!(chat.generate_url(), "http://host:1/api/generate");
    assert_eq!(chat.health_url(), "http://host:1/api/tags");
    assert_eq!(chat.base_url(), "http://host:1");
}

#[test]
fn request_carries_model_prompt_and_system() {
    let mut chat = OllamaChat::new("http://host:1".to_string(), "m1".to_string());
    let plain = chat.request("hello", None);
    assert_eq!(plain.model, "m1");
    assert_eq!(plain.prompt, "hello");
    assert!(!plain.stream);
    assert!(plain.system.is_none());

    chat.set_model("m2");
    let guided = chat.request("hello again", Some("You are terse."));
    assert_eq!(guided.model, "m2");
    assert_eq!(guided.prompt, "hello again");
    assert!(!guided.stream);
    assert_eq!(guided.system.as_deref(), Some("You are terse."));
}

#[test]
fn only_answers_are_counted() {
    let mut chat = OllamaChat::default();
    assert_eq!(
        chat.finish_request(GenerateReply::Unsent("connection refused".to_string())),
        Err("Failed to send request: connection refused".to_string())
    );
    assert_eq!(
        chat.finish_request(GenerateReply::Refused("500 Internal Server Error".to_string())),
        Err("Ollama returned error status: 500 Internal Server Error".to_string())
    );
    assert_eq!(
        chat.finish_request(GenerateReply::Unreadable("missing field".to_string())),
        Err("Failed to parse response: missing field".to_string())
    );
    assert_eq!(chat.get_usage_info().total_requests, 0);

    assert_eq!(
        chat.finish_request(GenerateReply::Answered("first".to_string())),
        Ok("first".to_string())
    );
    assert_eq!(
        chat.finish_request(GenerateReply::Answered("second".to_string())),
        Ok("second".to_string())
    );
    assert_eq!(chat.get_usage_info().total_requests, 2);
    assert_eq!(chat.get_model(), "llama2");

    chat.reset_usage_info();
    assert_eq!(chat.get_usage_info().total_requests, 0);
    assert_eq!(chat.base_url(), "http://localhost:11434");
}

#[test]
fn health_check_outcomes() {
    assert_eq!(health_outcome(Ok(true)), Ok(true));
    assert_eq!(health_outcome(Ok(false)), Ok(false));
    assert_eq!(
        health_outcome(Err("timed out".to_string())),
        Err("Health check failed: timed out".to_string())
    );
}
