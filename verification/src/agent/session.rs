//! Conversation sessions: how much history is kept, where it is cut, and
//! the file name a session key is stored under.
use vstd::prelude::*;
use crate::agent::messages::{Content, Message};
use crate::seqs::{first_match, is_first_match, lemma_first_match_is, lemma_first_match_none};
use crate::text::str_eq;

verus! {

/// How many messages a session keeps.
pub const MAX_HISTORY_MESSAGES: usize = 40;

/// A message the user wrote, as opposed to tool results sent back.
pub open spec fn is_user_text(m: Message) -> bool {
    m.role@ == "user"@ && m.content is Text
}

pub open spec fn user_text() -> spec_fn(Message) -> bool {
    |m: Message| is_user_text(m)
}

/// Where history longer than `max` is cut: at the first message the user
/// wrote among the last `max`, so that no tool call is separated from its
/// result; where there is none, exactly `max` messages are kept.
pub open spec fn cut_point(ms: Seq<Message>, max: int) -> int {
    if ms.len() <= max {
        0
    } else {
        let desired = ms.len() - max;
        match first_match(ms.skip(desired), user_text()) {
            Some(j) => desired + j,
            None => desired,
        }
    }
}

fn is_user_text_exec(m: &Message) -> (r: bool)
    ensures
        r == is_user_text(*m),
{
    proof { reveal_strlit("user"); }
    str_eq(m.role.as_str(), "user") && match &m.content {
        Content::Text(_) => true,
        Content::Blocks(_) => false,
    }
}

/// Keep the history from its cut point on.
pub fn trim_history(messages: &mut Vec<Message>, max: usize)
    ensures
        final(messages)@ == old(messages)@.skip(cut_point(old(messages)@, max as int)),
{
    let ghost ms = messages@;
    let n = messages.len();
    if n <= max {
        proof { assert(ms.skip(0) =~= ms); }
        return;
    }
    let desired = n - max;
    let ghost tail = ms.skip(desired as int);
    let mut i: usize = desired;
    while i < n && !is_user_text_exec(&messages[i])
        invariant
            n == ms.len(),
            desired <= i <= n,
            messages@ == ms,
            tail == ms.skip(desired as int),
            forall|j: int| 0 <= j < i - desired ==> !user_text()(#[trigger] tail[j]),
        decreases n - i,
    {
        assert(tail[i - desired] == ms[i as int]);
        i = i + 1;
    }
    let start: usize = if i < n {
        proof {
            assert(tail[i - desired] == ms[i as int]);
            assert(is_first_match(tail, user_text(), i - desired));
            lemma_first_match_is(tail, user_text(), i - desired);
        }
        i
    } else {
        proof { lemma_first_match_none(tail, user_text()); }
        desired
    };
    let kept = messages.split_off(start);
    *messages = kept;
    proof { assert(messages@ =~= ms.skip(start as int)); }
}

/// The messages a session saves: its last `MAX_HISTORY_MESSAGES`.
pub open spec fn saved_start(len: int) -> int {
    if len > MAX_HISTORY_MESSAGES { len - MAX_HISTORY_MESSAGES } else { 0 }
}

/// Where the saved part of a history starts.
pub fn save_start(len: usize) -> (r: usize)
    ensures
        r == saved_start(len as int),
{
    len.saturating_sub(MAX_HISTORY_MESSAGES)
}

/// A session key made safe as a file name: `:` and `/` become `_`.
pub open spec fn sanitize_char(c: char) -> char {
    if c == ':' || c == '/' { '_' } else { c }
}

/// The file a session is stored in: the sanitized key and `.jsonl`.
pub open spec fn session_file_name_spec(key: Seq<char>) -> Seq<char> {
    key.map_values(|c: char| sanitize_char(c)) + ".jsonl"@
}

/// The file name a session key is stored under.
pub fn session_file_name(key: &str) -> (r: String)
    ensures
        r@ == session_file_name_spec(key@),
{
    proof {
        reveal_strlit("_");
    }
    let n = key.unicode_len();
    let mut out = String::new();
    let mut start: usize = 0;
    let mut k: usize = 0;
    while k < n
        invariant
            n == key@.len(),
            start <= k <= n,
            out@ + key@.subrange(start as int, k as int) == key@.take(k as int).map_values(|c: char| sanitize_char(c)),
            forall|j: int| start <= j < k ==> key@[j] != ':' && key@[j] != '/',
        decreases n - k,
    {
        let c = key.get_char(k);
        if c == ':' || c == '/' {
            let ghost before = out@;
            let piece = key.substring_char(start, k);
            out.append(piece);
            out.append("_");
            proof {
                reveal_strlit("_");
                assert("_"@ =~= seq!['_']);
                assert(out@ =~= before + key@.subrange(start as int, k as int) + seq!['_']);
                assert(key@.subrange(start as int, k as int).map_values(|c: char| sanitize_char(c))
                    =~= key@.subrange(start as int, k as int));
                assert(key@.take(k + 1).map_values(|c: char| sanitize_char(c))
                    =~= key@.take(k as int).map_values(|c: char| sanitize_char(c)).push('_'));
                assert(key@.subrange(k + 1, k + 1) =~= Seq::<char>::empty());
                assert(out@ + key@.subrange(k + 1, k + 1) =~= key@.take(k + 1).map_values(|c: char| sanitize_char(c)));
            }
            start = k + 1;
        } else {
            proof {
                assert(key@.take(k + 1).map_values(|c: char| sanitize_char(c))
                    =~= key@.take(k as int).map_values(|c: char| sanitize_char(c)).push(c));
                assert(key@.subrange(start as int, k + 1) =~= key@.subrange(start as int, k as int).push(c));
            }
        }
        k = k + 1;
    }
    let piece = key.substring_char(start, n);
    out.append(piece);
    proof {
        assert(key@.take(n as int) =~= key@);
    }
    out.append(".jsonl");
    out
}

} // verus!
