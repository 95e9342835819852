use arcana::agent::bus::{reply_for, with_user_message, InboundMessage};
use arcana::agent::messages::{Content, Message};
use arcana::error::{DataCommandError, RepositoryError, RepositoryErrorCode};

fn inbound(content: &str) -> InboundMessage {
    InboundMessage {
        channel: "telegram".to_string(),
        chat_id: "42".to_string(),
        sender_id: "7".to_string(),
        content: content.to_string(),
        session_key: "telegram:42".to_string(),
    }
}

#[test]
fn user_turn_follows_the_history() {
    let history = vec![Message { role: "assistant".to_string(), content: Content::Text("hi".to_string()) }];
    let messages = with_user_message(history.clone(), &inbound("what now?"));
    assert_eq!(messages.len(), 2);
    assert_eq!(messages[0], history[0]);
    assert_eq!(messages[1], Message { role: "user".to_string(), content: Content::Text("what now?".to_string()) });
}

#[test]
fn reply_goes_back_to_the_same_chat() {
    let reply = reply_for(&inbound("hello"), Ok("done".to_string()));
    assert_eq!(reply.channel, "telegram");
    assert_eq!(reply.chat_id, "42");
    assert_eq!(reply.content, "done");
}

#[test]
fn runner_failure_is_reported_as_agent_error() {
    let reply = reply_for(&inbound("hello"), Err("timeout".to_string()));
    assert_eq!(reply.content, "Agent error: timeout");
}

#[test]
fn data_command_error_keeps_code_and_message() {
    let error = RepositoryError::new(RepositoryErrorCode::NotFound, "missing record".to_string());
    let converted = DataCommandError::from(error);
    assert_eq!(converted.code, RepositoryErrorCode::NotFound);
    assert_eq!(converted.message, "missing record");
    assert!(converted.validation_issues.is_empty());
}
