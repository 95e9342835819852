//! The decisions of the assistant's tool-calling loop.  The loop itself
//! asks the model and runs the tools; after each answer it hands the
//! answer here and learns whether to reply or which tools to run, and it
//! hands back what the tools gave.
use vstd::prelude::*;
use vstd::string::*;
use vstd::utf8::{decode_utf8, encode_utf8, encode_utf8_decode_utf8, is_char_boundary};
use crate::agent::messages::{
    calls_view, first_text, tool_calls_spec, Content, ContentBlock, LlmResponse, Message, ToolCall,
};
use crate::text::{decimal_digits, decimal_text, str_eq};

verus! {

/// The longest tool output sent back whole, in bytes.
pub const MAX_TOOL_OUTPUT_BYTES: usize = 16000;

/// What the loop does after an answer.
#[derive(Debug, Clone, PartialEq, Eq)]
pub enum RunnerStep {
    /// Reply with this text; the conversation is done.
    Reply(String),
    /// Run these tools and hand back their outcomes.
    RunTools(Vec<ToolCall>),
}

/// The answer ends the turn: the model said so, or asked for no tool.
pub open spec fn ends_turn(response: LlmResponse) -> bool {
    response.stop_reason@ == "end_turn"@ || tool_calls_spec(response.content@).len() == 0
}

/// The reply text: the first text block, or nothing.
pub open spec fn reply_text(response: LlmResponse) -> Seq<char> {
    match first_text(response.content@) {
        Some(t) => t,
        None => Seq::empty(),
    }
}

/// `messages` grew by one message of the role holding the text.
pub open spec fn appended_text(old_ms: Seq<Message>, new_ms: Seq<Message>, role: Seq<char>, text: Seq<char>) -> bool {
    &&& new_ms.len() == old_ms.len() + 1
    &&& new_ms.take(old_ms.len() as int) == old_ms
    &&& new_ms.last().role@ == role
    &&& new_ms.last().content matches Content::Text(t) && t@ == text
}

/// The decision after an answer: reply, recording the reply as the
/// assistant's message, or record the assistant's blocks and run the tools
/// it asked for, in order.
pub fn respond(messages: &mut Vec<Message>, response: LlmResponse) -> (r: RunnerStep)
    ensures
        ends_turn(response) ==> (r matches RunnerStep::Reply(t) && t@ == reply_text(response)
            && appended_text(old(messages)@, final(messages)@, "assistant"@, t@)),
        !ends_turn(response) ==> (r matches RunnerStep::RunTools(calls)
            && calls_view(calls@) == tool_calls_spec(response.content@)
            && final(messages)@ == old(messages)@.push(Message {
                role: final(messages)@.last().role,
                content: Content::Blocks(response.content),
            })
            && final(messages)@.last().role@ == "assistant"@),
{
    let calls = response.tool_calls();
    if str_eq(response.stop_reason.as_str(), "end_turn") || calls.len() == 0 {
        let text = match response.text() {
            Some(t) => String::from_str(t),
            None => String::new(),
        };
        let ghost before = messages@;
        messages.push(Message { role: String::from_str("assistant"), content: Content::Text(text.clone()) });
        proof { assert(messages@.take(before.len() as int) =~= before); }
        RunnerStep::Reply(text)
    } else {
        messages.push(Message { role: String::from_str("assistant"), content: Content::Blocks(response.content) });
        RunnerStep::RunTools(calls)
    }
}

/// The suffix added to output cut short.
pub open spec fn truncation_note(total: nat) -> Seq<char> {
    "... [truncated, "@ + decimal_digits(total) + " chars total]"@
}

/// Output sent back to the model: whole when it fits, else its first bytes
/// and a note of its full length in bytes.
pub open spec fn truncated_spec(s: Seq<char>, max: int) -> Seq<char> {
    let bytes = encode_utf8(s);
    if bytes.len() <= max {
        s
    } else {
        decode_utf8(bytes.subrange(0, max)) + truncation_note(bytes.len())
    }
}

/// Keep at most `max_len` bytes of the output.
pub fn truncate_output(s: &str, max_len: usize) -> (r: String)
    requires
        encode_utf8(s@).len() <= usize::MAX,
        encode_utf8(s@).len() > max_len ==> is_char_boundary(encode_utf8(s@), max_len as int),
    ensures
        r@ == truncated_spec(s@, max_len as int),
{
    let total = s.len();
    proof {
        assert(s.spec_bytes() == encode_utf8(s@));
        assert(total as int == encode_utf8(s@).len());
    }
    if total <= max_len {
        return String::from_str(s);
    }
    let (head, _) = s.split_at(max_len);
    proof {
        encode_utf8_decode_utf8(head@);
    }
    let mut out = String::from_str(head);
    out.append("... [truncated, ");
    let digits = decimal_text(total as u64);
    out.append(digits.as_str());
    out.append(" chars total]");
    out
}

/// The tool-result block for one call's outcome.
pub open spec fn result_block_holds(call: ToolCall, outcome: Result<String, String>, b: ContentBlock) -> bool {
    b matches ContentBlock::ToolResult { tool_use_id, content, is_error }
        && tool_use_id@ == call.id@
        && match outcome {
            Ok(output) => content@ == truncated_spec(output@, MAX_TOOL_OUTPUT_BYTES as int) && is_error is None,
            Err(e) => content@ == "Error: "@ + e@ && is_error == Some(true),
        }
}

/// Output cut at the byte limit may only be cut at a character's start.
pub open spec fn cuttable(outcome: Result<String, String>) -> bool {
    match outcome {
        Ok(o) => encode_utf8(o@).len() <= usize::MAX && (encode_utf8(o@).len() > MAX_TOOL_OUTPUT_BYTES
            ==> is_char_boundary(encode_utf8(o@), MAX_TOOL_OUTPUT_BYTES as int)),
        Err(_) => true,
    }
}

/// Record what the tools gave, one result block per call in order, as the
/// user's next message.
pub fn record_tool_results(messages: &mut Vec<Message>, calls: &Vec<ToolCall>, outcomes: Vec<Result<String, String>>)
    requires
        calls@.len() == outcomes@.len(),
        forall|i: int| 0 <= i < outcomes@.len() ==> cuttable(#[trigger] outcomes@[i]),
    ensures
        final(messages)@.len() == old(messages)@.len() + 1,
        final(messages)@.take(old(messages)@.len() as int) == old(messages)@,
        final(messages)@.last().role@ == "user"@,
        final(messages)@.last().content matches Content::Blocks(blocks) && blocks@.len() == calls@.len()
            && forall|i: int| 0 <= i < calls@.len() ==> #[trigger] result_block_holds(calls@[i], outcomes@[i], blocks@[i]),
{
    let ghost all = outcomes@;
    let mut rest = outcomes;
    let mut blocks: Vec<ContentBlock> = Vec::new();
    let mut k: usize = 0;
    while k < calls.len()
        invariant
            k <= calls@.len(),
            calls@.len() == all.len(),
            rest@ == all.skip(k as int),
            blocks@.len() == k,
            forall|i: int| 0 <= i < all.len() ==> cuttable(#[trigger] all[i]),
            forall|i: int| 0 <= i < k ==> #[trigger] result_block_holds(calls@[i], all[i], blocks@[i]),
        decreases calls.len() - k,
    {
        let outcome = rest.remove(0);
        proof {
            assert(outcome == all[k as int]);
            assert(rest@ =~= all.skip(k + 1));
            assert(cuttable(all[k as int]));
        }
        let block = match outcome {
            Ok(output) => ContentBlock::ToolResult {
                tool_use_id: calls[k].id.clone(),
                content: truncate_output(output.as_str(), MAX_TOOL_OUTPUT_BYTES),
                is_error: None,
            },
            Err(e) => {
                let mut content = String::from_str("Error: ");
                content.append(e.as_str());
                ContentBlock::ToolResult { tool_use_id: calls[k].id.clone(), content, is_error: Some(true) }
            },
        };
        blocks.push(block);
        k = k + 1;
    }
    let ghost before = messages@;
    messages.push(Message { role: String::from_str("user"), content: Content::Blocks(blocks) });
    proof { assert(messages@.take(before.len() as int) =~= before); }
}

/// The error when the loop runs out of iterations.
pub fn max_iterations_message(max_iterations: usize) -> (r: String)
    ensures
        r@ == "Agent reached maximum iterations ("@ + decimal_digits(max_iterations as nat) + ") without completing."@,
{
    let mut out = String::from_str("Agent reached maximum iterations (");
    let digits = decimal_text(max_iterations as u64);
    out.append(digits.as_str());
    out.append(") without completing.");
    out
}

} // verus!
