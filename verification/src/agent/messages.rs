//! The conversation as the assistant keeps it: messages of a role, holding
//! plain text or content blocks.  A tool call's input is kept as its JSON
//! text.
use vstd::prelude::*;

verus! {

#[derive(Debug, Clone, PartialEq, Eq)]
pub enum ContentBlock {
    Text { text: String },
    ToolUse { id: String, name: String, input: String },
    ToolResult { tool_use_id: String, content: String, is_error: Option<bool> },
}

#[derive(Debug, Clone, PartialEq, Eq)]
pub enum Content {
    Text(String),
    Blocks(Vec<ContentBlock>),
}

#[derive(Debug, Clone, PartialEq, Eq)]
pub struct Message {
    pub role: String,
    pub content: Content,
}

/// A tool call the model asked for.
#[derive(Debug, Clone, PartialEq, Eq)]
pub struct ToolCall {
    pub id: String,
    pub name: String,
    pub input: String,
}

/// What the model answered.
#[derive(Debug, Clone, PartialEq, Eq)]
pub struct LlmResponse {
    pub content: Vec<ContentBlock>,
    pub stop_reason: String,
}

/// The position of the first text block, if any.
pub open spec fn first_text_index(blocks: Seq<ContentBlock>) -> Option<int>
    decreases blocks.len(),
{
    if blocks.len() == 0 {
        None
    } else {
        match first_text_index(blocks.drop_last()) {
            Some(i) => Some(i),
            None => if blocks.last() is Text { Some(blocks.len() - 1) } else { None },
        }
    }
}

pub open spec fn first_text(blocks: Seq<ContentBlock>) -> Option<Seq<char>> {
    match first_text_index(blocks) {
        Some(i) => Some(blocks[i]->Text_text@),
        None => None,
    }
}

/// The tool calls among the blocks, in order.
pub open spec fn tool_calls_spec(blocks: Seq<ContentBlock>) -> Seq<(Seq<char>, Seq<char>, Seq<char>)>
    decreases blocks.len(),
{
    if blocks.len() == 0 {
        Seq::empty()
    } else {
        let rest = tool_calls_spec(blocks.drop_last());
        match blocks.last() {
            ContentBlock::ToolUse { id, name, input } => rest.push((id@, name@, input@)),
            _ => rest,
        }
    }
}

pub open spec fn calls_view(calls: Seq<ToolCall>) -> Seq<(Seq<char>, Seq<char>, Seq<char>)> {
    calls.map_values(|c: ToolCall| (c.id@, c.name@, c.input@))
}

/// The text of the first text block.
pub fn first_text_of(blocks: &Vec<ContentBlock>) -> (r: Option<&str>)
    ensures
        match first_text(blocks@) {
            Some(t) => r matches Some(s) && s@ == t,
            None => r is None,
        },
{
    let mut k: usize = 0;
    proof { assert(blocks@.take(0) =~= Seq::<ContentBlock>::empty()); }
    while k < blocks.len()
        invariant
            k <= blocks@.len(),
            first_text_index(blocks@.take(k as int)) is None,
        decreases blocks.len() - k,
    {
        proof {
            assert(blocks@.take(k + 1).drop_last() =~= blocks@.take(k as int));
            assert(blocks@.take(k + 1).last() == blocks@[k as int]);
        }
        match &blocks[k] {
            ContentBlock::Text { text } => {
                proof {
                    lemma_first_text_prefix(blocks@, k + 1);
                }
                return Some(text.as_str());
            },
            _ => {},
        }
        k = k + 1;
    }
    proof { assert(blocks@.take(blocks@.len() as int) =~= blocks@); }
    None
}

/// A text found in a prefix is the first text of the whole.
proof fn lemma_first_text_prefix(blocks: Seq<ContentBlock>, k: int)
    requires
        0 < k <= blocks.len(),
        first_text_index(blocks.take(k)) is Some,
    ensures
        first_text_index(blocks) == first_text_index(blocks.take(k)),
    decreases blocks.len() - k,
{
    if k < blocks.len() {
        assert(blocks.take(k + 1).drop_last() =~= blocks.take(k));
        lemma_first_text_prefix(blocks, k + 1);
    } else {
        assert(blocks.take(k) =~= blocks);
    }
}

impl Content {
    /// The text itself, or the first text block.
    pub fn as_text(&self) -> (r: Option<&str>)
        ensures
            match self {
                Content::Text(s) => r matches Some(t) && t@ == s@,
                Content::Blocks(b) => match first_text(b@) {
                    Some(t) => r matches Some(u) && u@ == t,
                    None => r is None,
                },
            },
    {
        match self {
            Content::Text(s) => Some(s.as_str()),
            Content::Blocks(blocks) => first_text_of(blocks),
        }
    }
}

impl LlmResponse {
    /// The text of the first text block.
    pub fn text(&self) -> (r: Option<&str>)
        ensures
            match first_text(self.content@) {
                Some(t) => r matches Some(s) && s@ == t,
                None => r is None,
            },
    {
        first_text_of(&self.content)
    }

    /// The tool calls, in order.
    pub fn tool_calls(&self) -> (r: Vec<ToolCall>)
        ensures
            calls_view(r@) == tool_calls_spec(self.content@),
    {
        let mut out: Vec<ToolCall> = Vec::new();
        let mut k: usize = 0;
        proof {
            assert(self.content@.take(0) =~= Seq::<ContentBlock>::empty());
            assert(calls_view(out@) =~= Seq::<(Seq<char>, Seq<char>, Seq<char>)>::empty());
        }
        while k < self.content.len()
            invariant
                k <= self.content@.len(),
                calls_view(out@) == tool_calls_spec(self.content@.take(k as int)),
            decreases self.content.len() - k,
        {
            proof {
                assert(self.content@.take(k + 1).drop_last() =~= self.content@.take(k as int));
                assert(self.content@.take(k + 1).last() == self.content@[k as int]);
            }
            match &self.content[k] {
                ContentBlock::ToolUse { id, name, input } => {
                    let ghost before = out@;
                    out.push(ToolCall { id: id.clone(), name: name.clone(), input: input.clone() });
                    proof { assert(calls_view(out@) =~= calls_view(before).push((id@, name@, input@))); }
                },
                _ => {},
            }
            k = k + 1;
        }
        proof { assert(self.content@.take(self.content@.len() as int) =~= self.content@); }
        out
    }
}

} // verus!
