use netero::completion::{complete, slash_commands, Completion};
use netero::config::Config;
use netero::plain_chat::PlainChat;
use netero::provider::{
    bearer, ChatRequest, ChatResponse, Choice, CompletionError, ResponseMessage,
};

fn some(s: &str) -> Option<String> {
    Some(s.to_string())
}

#[test]
fn endpoint_and_model_come_together() {
    let c = Config::from_values(some(" http://localhost/v1 "), some("llama"), some("k"), some("d"), true).unwrap();
    assert_eq!(c.endpoint, " http://localhost/v1 ");
    assert_eq!(c.model, "llama");
    assert_eq!(c.apikey.as_deref(), Some("k"));
    assert!(c.verbose);
    let open = Config::from_values(some("u"), some("m"), some("  "), some("d"), false).unwrap();
    assert!(open.apikey.is_none());
    assert!(!open.verbose);
}

#[test]
fn without_both_the_defaults_hold() {
    let c = Config::from_values(None, some(" \t"), some("k"), some("d"), false).unwrap();
    assert_eq!(c.endpoint, "https://codestral.mistral.ai/v1/chat/completions");
    assert_eq!(c.model, "codestral-latest");
    assert_eq!(c.apikey.as_deref(), Some("d"));
    let keyless = Config::from_values(None, None, some("k"), None, false).unwrap();
    assert!(keyless.apikey.is_none());
}

#[test]
fn one_of_the_two_alone_is_no_configuration() {
    assert!(Config::from_values(some("u"), None, None, None, false).is_none());
    assert!(Config::from_values(some(""), some("m"), some("k"), some("d"), false).is_none());
}

#[test]
fn a_request_holds_one_message_of_the_user() {
    let r = ChatRequest::user("codestral-latest", "hello", true);
    assert_eq!(r.model, "codestral-latest");
    assert!(r.stream);
    assert_eq!(r.messages.len(), 1);
    assert_eq!(r.messages[0].role, "user");
    assert_eq!(r.messages[0].content, "hello");
}

#[test]
fn the_reply_is_the_first_choice() {
    let response = ChatResponse {
        choices: vec![
            Choice { message: ResponseMessage { content: "first".to_string() } },
            Choice { message: ResponseMessage { content: "second".to_string() } },
        ],
    };
    assert_eq!(response.first_content(), Ok("first".to_string()));
    let empty = ChatResponse { choices: Vec::new() };
    assert_eq!(empty.first_content(), Err(CompletionError::NoChoices));
    assert_eq!(CompletionError::NoChoices.message(), "No choices returned");
}

#[test]
fn the_bearer_header() {
    assert_eq!(bearer("abc"), "Bearer abc");
    assert_eq!(bearer(""), "Bearer ");
}

#[test]
fn slash_commands_are_completed() {
    assert_eq!(slash_commands(), vec!["/clean", "/trans", "/eval", "/help", "/stream", "/add"]);
    match complete("/") {
        Completion::Commands { token, candidates } => {
            assert_eq!(token, "/");
            assert_eq!(candidates, slash_commands());
        }
        _ => panic!("a slash is completed"),
    }
    match complete("say /s") {
        Completion::Commands { token, candidates } => {
            assert_eq!(token, "/s");
            assert_eq!(candidates, vec!["/stream"]);
        }
        _ => panic!("a slash is completed"),
    }
    assert!(matches!(complete("/x"), Completion::Commands { candidates, .. } if candidates.is_empty()));
    assert!(matches!(complete("/add"), Completion::Commands { candidates, .. } if candidates == vec!["/add"]));
}

#[test]
fn other_text_is_not_completed() {
    assert!(matches!(complete(""), Completion::Nothing));
    assert!(matches!(complete("hello"), Completion::Nothing));
    assert!(matches!(complete("/help "), Completion::Nothing));
    assert!(matches!(complete("a/b"), Completion::Nothing));
}

#[test]
fn paths_after_add_are_files() {
    assert!(matches!(complete("/add "), Completion::Files));
    assert!(matches!(complete("/add src/ma"), Completion::Files));
    assert!(matches!(complete("/add a /cl"), Completion::Files));
}

#[test]
fn the_plain_chat_records_its_turns() {
    let mut chat = PlainChat::new();
    assert!(chat.prompt("Ada", "now", "  ").is_none());
    let first = chat.prompt("Ada", "now", " hi ").unwrap();
    assert!(first.contains("== HISTORIAL CHAT ==\n\n== END HISTORIAL CHAT =="));
    assert!(first.contains("== USER MESSAGE ==\nhi\n== END USER MESSAGE ==\n"));
    chat.record(" hi ", "hello");
    assert_eq!(chat.history, vec!["USER: hi", "ASSISTANT: hello\n"]);
    let second = chat.prompt("Ada", "now", "more").unwrap();
    assert!(second.contains("== HISTORIAL CHAT ==\nUSER: hi\nASSISTANT: hello\n\n== END HISTORIAL CHAT =="));
}
