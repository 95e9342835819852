//! Text sent through the Telegram channel: replies longer than a message
//! may hold are cut into chunks, at the last line break within the limit
//! where there is one; log lines are shortened.
use vstd::prelude::*;
use vstd::string::*;
use vstd::utf8::*;

verus! {

/// The position of the last line break.
pub open spec fn last_newline(b: Seq<u8>) -> Option<int>
    decreases b.len(),
{
    if b.len() == 0 {
        None
    } else if b.last() == 10u8 {
        Some(b.len() - 1)
    } else {
        last_newline(b.drop_last())
    }
}

/// The bytes without their leading line breaks.
pub open spec fn trim_newlines(b: Seq<u8>) -> Seq<u8>
    decreases b.len(),
{
    if b.len() > 0 && b[0] == 10u8 {
        trim_newlines(b.drop_first())
    } else {
        b
    }
}

/// Where a text longer than `max` bytes is cut: at its last line break
/// within the first `max` bytes, else after `max` bytes.
pub open spec fn cut_at(b: Seq<u8>, max: int) -> int {
    match last_newline(b.take(max)) {
        Some(i) => i,
        None => max,
    }
}

pub proof fn lemma_last_newline(b: Seq<u8>)
    ensures
        match last_newline(b) {
            Some(i) => 0 <= i < b.len() && b[i] == 10u8 && forall|j: int| i < j < b.len() ==> b[j] != 10u8,
            None => forall|j: int| 0 <= j < b.len() ==> b[j] != 10u8,
        },
    decreases b.len(),
{
    if b.len() > 0 && b.last() != 10u8 {
        let d = b.drop_last();
        lemma_last_newline(d);
        assert forall|j: int| 0 <= j < d.len() implies d[j] == b[j] by {}
        assert(b[b.len() - 1] != 10u8);
    }
}

pub proof fn lemma_trim_newlines_len(b: Seq<u8>)
    ensures
        trim_newlines(b).len() <= b.len(),
        b.len() > 0 && b[0] == 10u8 ==> trim_newlines(b).len() < b.len(),
    decreases b.len(),
{
    if b.len() > 0 && b[0] == 10u8 {
        lemma_trim_newlines_len(b.drop_first());
    }
}

pub proof fn lemma_cut_progress(b: Seq<u8>, max: int)
    requires
        0 < max < b.len(),
    ensures
        0 <= cut_at(b, max) <= max,
        trim_newlines(b.skip(cut_at(b, max))).len() < b.len(),
{
    lemma_last_newline(b.take(max));
    let c = cut_at(b, max);
    lemma_trim_newlines_len(b.skip(c));
    if c == 0 {
        assert(b.skip(0) =~= b);
        assert(b[0] == b.take(max)[0]);
    }
}

/// The chunks of a text longer than the limit, each cut as `cut_at` says,
/// the line breaks at the start of what is left dropped.
pub open spec fn chunks(b: Seq<u8>, max: int) -> Seq<Seq<u8>>
    decreases b.len(),
{
    if b.len() == 0 || max <= 0 {
        Seq::empty()
    } else if b.len() <= max {
        seq![b]
    } else {
        proof {
            lemma_cut_progress(b, max);
        }
        seq![b.take(cut_at(b, max))] + chunks(trim_newlines(b.skip(cut_at(b, max))), max)
    }
}

/// Each window of `max` bytes looked at while cutting ends between two
/// characters.
pub open spec fn splits_cleanly(b: Seq<u8>, max: int) -> bool
    decreases b.len(),
{
    if b.len() == 0 || max <= 0 || b.len() <= max {
        true
    } else {
        proof {
            lemma_cut_progress(b, max);
        }
        is_char_boundary(b, max) && splits_cleanly(trim_newlines(b.skip(cut_at(b, max))), max)
    }
}

/// The messages a text is sent as: whole where it fits, else its chunks.
pub open spec fn message_chunks(b: Seq<u8>, max: int) -> Seq<Seq<u8>> {
    if b.len() <= max {
        seq![b]
    } else {
        chunks(b, max)
    }
}

/// The UTF-8 bytes of each string.
pub open spec fn bytes_of(v: Seq<String>) -> Seq<Seq<u8>> {
    v.map_values(|s: String| encode_utf8(s@))
}

proof fn lemma_last_newline_at(b: Seq<u8>, i: int)
    requires
        0 <= i < b.len(),
        b[i] == 10u8,
        forall|j: int| i < j < b.len() ==> b[j] != 10u8,
    ensures
        last_newline(b) == Some(i),
    decreases b.len(),
{
    if i < b.len() - 1 {
        lemma_last_newline_at(b.drop_last(), i);
    }
}

proof fn lemma_no_newline(b: Seq<u8>)
    requires
        forall|j: int| 0 <= j < b.len() ==> b[j] != 10u8,
    ensures
        last_newline(b) is None,
    decreases b.len(),
{
    if b.len() > 0 {
        lemma_no_newline(b.drop_last());
    }
}

proof fn lemma_newline_boundary(b: Seq<u8>, i: int)
    requires
        valid_utf8(b),
        0 <= i < b.len(),
        b[i] == 10u8,
    ensures
        is_char_boundary(b, i),
        is_char_boundary(b, i + 1),
    decreases b.len(),
{
    is_char_boundary_iff_not_is_continuation_byte(b, i);
    let n = length_of_first_scalar(b);
    if i == 0 {
        assert(n == 1);
        assert(is_char_boundary(pop_first_scalar(b), 0));
    } else {
        assert(i >= n);
        let p = pop_first_scalar(b);
        assert(p[i - n] == b[i]);
        lemma_newline_boundary(p, i - n);
    }
}


/// The position of the last line break in the first `max` bytes, if any.
fn last_newline_exec(b: &[u8], max: usize) -> (r: Option<usize>)
    requires
        max <= b@.len(),
    ensures
        r == match last_newline(b@.take(max as int)) {
            Some(i) => Some(i as usize),
            None => None::<usize>,
        },
{
    let ghost w = b@.take(max as int);
    let mut i: usize = max;
    while i > 0 && b[i - 1] != 10u8
        invariant
            i <= max <= b@.len(),
            w == b@.take(max as int),
            forall|j: int| i <= j < max ==> w[j] != 10u8,
        decreases i,
    {
        i = i - 1;
    }
    if i > 0 {
        proof { lemma_last_newline_at(w, i - 1); }
        Some(i - 1)
    } else {
        proof { lemma_no_newline(w); }
        None
    }
}

/// The messages a reply is sent as, each at most
/// `max_len` bytes.  A reply that fits is sent whole; a longer one is cut
/// at the last line break within the limit, or at the limit where there is
/// none, and the line breaks that open the rest are dropped.
pub fn split_message(text: &str, max_len: usize) -> (r: Vec<String>)
    requires
        encode_utf8(text@).len() <= usize::MAX,
        encode_utf8(text@).len() > max_len ==> max_len > 0 && splits_cleanly(encode_utf8(text@), max_len as int),
    ensures
        bytes_of(r@) == message_chunks(encode_utf8(text@), max_len as int),
{
    let ghost total = encode_utf8(text@);
    let ghost max = max_len as int;
    proof { assert(text.spec_bytes() == total); }
    if text.len() <= max_len {
        let mut v: Vec<String> = Vec::new();
        v.push(String::from_str(text));
        proof { assert(bytes_of(v@) =~= seq![total]); }
        return v;
    }
    let mut out: Vec<String> = Vec::new();
    let mut remaining: &str = text;
    proof { assert(bytes_of(out@) + chunks(total, max) =~= chunks(total, max)); }
    loop
        invariant_except_break
            bytes_of(out@) + chunks(encode_utf8(remaining@), max) == chunks(total, max),
        invariant
            max == max_len as int,
            max_len > 0,
            total.len() > max,
            encode_utf8(remaining@).len() <= usize::MAX,
            splits_cleanly(encode_utf8(remaining@), max),
        ensures
            bytes_of(out@) == chunks(total, max),
        decreases encode_utf8(remaining@).len(),
    {
        let ghost rb = encode_utf8(remaining@);
        proof { assert(remaining.spec_bytes() == rb); }
        if remaining.len() == 0 {
            proof { assert(bytes_of(out@) + chunks(rb, max) =~= bytes_of(out@)); }
            break;
        }
        if remaining.len() <= max_len {
            let ghost before = out@;
            out.push(String::from_str(remaining));
            proof {
                assert(bytes_of(out@) =~= bytes_of(before) + seq![rb]);
            }
            break;
        }
        proof { lemma_cut_progress(rb, max); }
        let bytes = remaining.as_bytes();
        let cut = match last_newline_exec(bytes, max_len) {
            Some(i) => {
                proof {
                    lemma_last_newline(rb.take(max));
                    assert(rb[i as int] == rb.take(max)[i as int]);
                    encode_utf8_valid_utf8(remaining@);
                    lemma_newline_boundary(rb, i as int);
                }
                i
            },
            None => max_len,
        };
        assert(cut as int == cut_at(rb, max));
        let (piece, rest) = remaining.split_at(cut);
        let ghost before = out@;
        out.push(String::from_str(piece));
        proof {
            assert(bytes_of(out@) =~= bytes_of(before) + seq![rb.take(cut as int)]);
        }
        let mut tail: &str = rest;
        proof { assert(encode_utf8(tail@) =~= rb.skip(cut as int)); }
        while tail.len() > 0 && tail.as_bytes()[0] == 10u8
            invariant
                trim_newlines(encode_utf8(tail@)) == trim_newlines(rb.skip(cut as int)),
                encode_utf8(tail@).len() <= rb.len(),
                rb.len() <= usize::MAX,
            decreases encode_utf8(tail@).len(),
        {
            let ghost tb = encode_utf8(tail@);
            proof {
                assert(tail.spec_bytes() == tb);
                encode_utf8_valid_utf8(tail@);
                lemma_newline_boundary(tb, 0);
            }
            let (_, t) = tail.split_at(1);
            proof { assert(encode_utf8(t@) =~= tb.drop_first()); }
            tail = t;
        }
        proof {
            let tb = encode_utf8(tail@);
            assert(tail.spec_bytes() == tb);
            assert(trim_newlines(tb) == tb);
            assert(bytes_of(out@) + chunks(tb, max) =~= bytes_of(before) + chunks(rb, max));
        }
        remaining = tail;
    }
    out
}

/// Whether `split_message` can cut the text: each window it looks at ends
/// between two characters.
pub fn splits_cleanly_exec(text: &str, max_len: usize) -> (r: bool)
    requires
        encode_utf8(text@).len() <= usize::MAX,
        max_len > 0,
    ensures
        r == splits_cleanly(encode_utf8(text@), max_len as int),
{
    let ghost max = max_len as int;
    let mut remaining: &str = text;
    let mut ok = true;
    loop
        invariant_except_break
            ok,
            splits_cleanly(encode_utf8(text@), max) == splits_cleanly(encode_utf8(remaining@), max),
        invariant
            max == max_len as int,
            max_len > 0,
            encode_utf8(remaining@).len() <= usize::MAX,
        ensures
            ok == splits_cleanly(encode_utf8(text@), max),
        decreases encode_utf8(remaining@).len(),
    {
        let ghost rb = encode_utf8(remaining@);
        proof { assert(remaining.spec_bytes() == rb); }
        if remaining.len() <= max_len {
            break;
        }
        if !remaining.is_char_boundary(max_len) {
            ok = false;
            break;
        }
        proof { lemma_cut_progress(rb, max); }
        let bytes = remaining.as_bytes();
        let cut = match last_newline_exec(bytes, max_len) {
            Some(i) => {
                proof {
                    lemma_last_newline(rb.take(max));
                    assert(rb[i as int] == rb.take(max)[i as int]);
                    encode_utf8_valid_utf8(remaining@);
                    lemma_newline_boundary(rb, i as int);
                }
                i
            },
            None => max_len,
        };
        let (_, rest) = remaining.split_at(cut);
        let mut tail: &str = rest;
        proof { assert(encode_utf8(tail@) =~= rb.skip(cut as int)); }
        while tail.len() > 0 && tail.as_bytes()[0] == 10u8
            invariant
                trim_newlines(encode_utf8(tail@)) == trim_newlines(rb.skip(cut as int)),
                encode_utf8(tail@).len() <= rb.len(),
                rb.len() <= usize::MAX,
            decreases encode_utf8(tail@).len(),
        {
            let ghost tb = encode_utf8(tail@);
            proof {
                assert(tail.spec_bytes() == tb);
                encode_utf8_valid_utf8(tail@);
                lemma_newline_boundary(tb, 0);
            }
            let (_, t) = tail.split_at(1);
            proof { assert(encode_utf8(t@) =~= tb.drop_first()); }
            tail = t;
        }
        proof {
            let tb = encode_utf8(tail@);
            assert(tail.spec_bytes() == tb);
            assert(trim_newlines(tb) == tb);
        }
        remaining = tail;
    }
    ok
}

/// Every message a reply longer than the limit is cut into fits the limit.
pub proof fn law_chunks_fit(b: Seq<u8>, max: int)
    requires
        max > 0,
    ensures
        forall|k: int| 0 <= k < chunks(b, max).len() ==> (#[trigger] chunks(b, max)[k]).len() <= max,
    decreases b.len(),
{
    if b.len() > max {
        lemma_cut_progress(b, max);
        let rest = trim_newlines(b.skip(cut_at(b, max)));
        law_chunks_fit(rest, max);
        assert forall|k: int| 0 <= k < chunks(b, max).len() implies (#[trigger] chunks(b, max)[k]).len() <= max by {
            if k > 0 {
                assert(chunks(b, max)[k] == chunks(rest, max)[k - 1]);
            }
        }
    }
}

/// A log line: the text whole where it fits in `max` bytes, else its first
/// `max` bytes and `...`.
pub open spec fn log_line(s: Seq<char>, max: int) -> Seq<char> {
    let bytes = encode_utf8(s);
    if bytes.len() <= max {
        s
    } else {
        decode_utf8(bytes.subrange(0, max)) + "..."@
    }
}

/// Shorten a text for the log.
pub fn truncate_log(s: &str, max: usize) -> (r: String)
    requires
        encode_utf8(s@).len() <= usize::MAX,
        encode_utf8(s@).len() > max ==> is_char_boundary(encode_utf8(s@), max as int),
    ensures
        r@ == log_line(s@, max as int),
{
    proof { assert(s.spec_bytes() == encode_utf8(s@)); }
    if s.len() <= max {
        return String::from_str(s);
    }
    let (head, _) = s.split_at(max);
    proof { encode_utf8_decode_utf8(head@); }
    let mut out = String::from_str(head);
    out.append("...");
    out
}

} // verus!
