//! The messages that pass between the chat channels and the assistant, and
//! what the assistant's service loop decides for each: the conversation it
//! hands the runner and the reply it sends back.
use vstd::prelude::*;
use crate::agent::messages::{Content, Message};
use crate::text::concat2;

verus! {

/// A message a channel received.
#[derive(Debug, Clone)]
pub struct InboundMessage {
    pub channel: String,
    pub chat_id: String,
    pub sender_id: String,
    pub content: String,
    pub session_key: String,
}

/// A message for a channel to send.
#[derive(Debug, Clone)]
pub struct OutboundMessage {
    pub channel: String,
    pub chat_id: String,
    pub content: String,
}

/// The conversation the runner is handed: the session's history, then the
/// new message as the user's turn.
pub fn with_user_message(history: Vec<Message>, msg: &InboundMessage) -> (r: Vec<Message>)
    ensures
        r@.len() == history@.len() + 1,
        r@.take(history@.len() as int) == history@,
        r@.last().role@ == "user"@,
        r@.last().content matches Content::Text(t) && t@ == msg.content@,
{
    let mut messages = history;
    let ghost before = messages@;
    messages.push(Message { role: String::from_str("user"), content: Content::Text(msg.content.clone()) });
    proof { assert(messages@.take(before.len() as int) =~= before); }
    messages
}

/// The reply to an inbound message, to the chat it came from: the
/// runner's answer, or the error that stopped it.
pub fn reply_for(msg: &InboundMessage, outcome: Result<String, String>) -> (r: OutboundMessage)
    ensures
        r.channel@ == msg.channel@,
        r.chat_id@ == msg.chat_id@,
        r.content@ == match outcome {
            Ok(t) => t@,
            Err(e) => "Agent error: "@ + e@,
        },
{
    let content = match outcome {
        Ok(t) => t,
        Err(e) => concat2("Agent error: ", e.as_str()),
    };
    OutboundMessage { channel: msg.channel.clone(), chat_id: msg.chat_id.clone(), content }
}

} // verus!
