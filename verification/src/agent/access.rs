//! Who may talk to the assistant over a chat channel.
use vstd::prelude::*;
use crate::text::str_eq;

verus! {

/// A character with ASCII upper-case letters made lower-case.
pub open spec fn ascii_lower(c: char) -> char {
    if 'A' <= c && c <= 'Z' { ((c as int) + 32) as char } else { c }
}

/// `str::eq_ignore_ascii_case`: equal after making ASCII letters lower-case.
pub open spec fn eq_ignore_ascii_case_spec(a: Seq<char>, b: Seq<char>) -> bool {
    a.len() == b.len() && forall|i: int| 0 <= i < a.len() ==> ascii_lower(#[trigger] a[i]) == ascii_lower(b[i])
}

/// `s` without its leading `@` characters.
pub open spec fn trim_leading_ats(s: Seq<char>) -> Seq<char>
    decreases s.len(),
{
    if s.len() > 0 && s[0] == '@' {
        trim_leading_ats(s.drop_first())
    } else {
        s
    }
}

/// One entry admits a sender: the wildcard, the sender's id, or the
/// sender's user name with or without `@`, ignoring ASCII case.
pub open spec fn entry_admits(entry: Seq<char>, sender_id: Seq<char>, username: Seq<char>) -> bool {
    ||| entry == "*"@
    ||| entry == sender_id
    ||| (username.len() > 0 && eq_ignore_ascii_case_spec(trim_leading_ats(entry), username))
}

/// Some entry of the list admits the sender; an empty list admits no one.
pub open spec fn is_allowed_spec(sender_id: Seq<char>, username: Seq<char>, allow_from: Seq<String>) -> bool {
    exists|k: int| 0 <= k < allow_from.len() && entry_admits(#[trigger] allow_from[k]@, sender_id, username)
}

fn lower(c: char) -> (r: char)
    ensures
        r == ascii_lower(c),
{
    if 'A' <= c && c <= 'Z' {
        ((c as u8) + 32) as char
    } else {
        c
    }
}

fn eq_ignore_ascii_case_from(a: &str, from: usize, b: &str) -> (r: bool)
    requires
        from <= a@.len(),
    ensures
        r == eq_ignore_ascii_case_spec(a@.skip(from as int), b@),
{
    let la = a.unicode_len();
    let lb = b.unicode_len();
    if la - from != lb {
        return false;
    }
    let mut i: usize = 0;
    while i < lb
        invariant
            la == a@.len(),
            lb == b@.len(),
            la - from == lb,
            from <= la,
            i <= lb,
            forall|j: int| 0 <= j < i ==> ascii_lower(#[trigger] a@.skip(from as int)[j]) == ascii_lower(b@[j]),
        decreases lb - i,
    {
        let ca = a.get_char(from + i);
        assert(a@.skip(from as int)[i as int] == ca);
        if lower(ca) != lower(b.get_char(i)) {
            return false;
        }
        i = i + 1;
    }
    true
}

fn leading_ats(s: &str) -> (r: usize)
    ensures
        r <= s@.len(),
        trim_leading_ats(s@) == s@.skip(r as int),
{
    let n = s.unicode_len();
    let mut k: usize = 0;
    proof { assert(s@.skip(0) =~= s@); }
    while k < n && s.get_char(k) == '@'
        invariant
            n == s@.len(),
            k <= n,
            trim_leading_ats(s@) == trim_leading_ats(s@.skip(k as int)),
        decreases n - k,
    {
        proof {
            assert(s@.skip(k as int)[0] == '@');
            assert(s@.skip(k as int).drop_first() =~= s@.skip(k + 1));
        }
        k = k + 1;
    }
    proof {
        if k < n {
            assert(s@.skip(k as int)[0] == s@[k as int]);
        }
    }
    k
}

/// Whether a sender may talk to the assistant.
pub fn is_allowed(sender_id: &str, username: &str, allow_from: &Vec<String>) -> (r: bool)
    ensures
        r == is_allowed_spec(sender_id@, username@, allow_from@),
{
    proof { reveal_strlit("*"); }
    let mut k: usize = 0;
    while k < allow_from.len()
        invariant
            k <= allow_from@.len(),
            forall|j: int| 0 <= j < k ==> !entry_admits(#[trigger] allow_from@[j]@, sender_id@, username@),
        decreases allow_from.len() - k,
    {
        let entry = allow_from[k].as_str();
        if str_eq(entry, "*") || str_eq(entry, sender_id) {
            return true;
        }
        let skip = leading_ats(entry);
        if username.unicode_len() > 0 && eq_ignore_ascii_case_from(entry, skip, username) {
            return true;
        }
        k = k + 1;
    }
    false
}

} // verus!
