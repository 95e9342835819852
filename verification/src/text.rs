//! Text primitives shared by the domain: ordering, equality and message
//! building over Unicode scalar sequences.
use vstd::prelude::*;
use vstd::string::*;

verus! {

/// Rust orders `String`s by their UTF-8 bytes, which coincides with the
/// lexicographic order of their Unicode scalar values.
pub open spec fn seq_lt(a: Seq<char>, b: Seq<char>) -> bool
    decreases a.len(),
{
    if a.len() == 0 {
        b.len() > 0
    } else if b.len() == 0 {
        false
    } else if a[0] != b[0] {
        (a[0] as int) < (b[0] as int)
    } else {
        seq_lt(a.drop_first(), b.drop_first())
    }
}

/// Strict lexicographic comparison of two strings.
pub fn str_lt(a: &str, b: &str) -> (r: bool)
    ensures
        r == seq_lt(a@, b@),
{
    let la = a.unicode_len();
    let lb = b.unicode_len();
    let mut i: usize = 0;
    proof {
        assert(a@.skip(0) =~= a@);
        assert(b@.skip(0) =~= b@);
    }
    while i < la && i < lb
        invariant
            la == a@.len(),
            lb == b@.len(),
            i <= la,
            i <= lb,
            seq_lt(a@, b@) == seq_lt(a@.skip(i as int), b@.skip(i as int)),
        decreases la - i,
    {
        let ca = a.get_char(i);
        let cb = b.get_char(i);
        if ca != cb {
            proof {
                assert(a@.skip(i as int)[0] == ca);
                assert(b@.skip(i as int)[0] == cb);
            }
            return (ca as u32) < (cb as u32);
        }
        proof {
            assert(a@.skip(i as int).drop_first() =~= a@.skip(i + 1));
            assert(b@.skip(i as int).drop_first() =~= b@.skip(i + 1));
        }
        i = i + 1;
    }
    i < lb && i == la
}

/// Equality of two string slices by their characters.
pub fn str_eq(a: &str, b: &str) -> (r: bool)
    ensures
        r == (a@ == b@),
{
    let la = a.unicode_len();
    let lb = b.unicode_len();
    if la != lb {
        return false;
    }
    let mut i: usize = 0;
    while i < la
        invariant
            la == a@.len(),
            lb == b@.len(),
            la == lb,
            i <= la,
            a@.take(i as int) =~= b@.take(i as int),
        decreases la - i,
    {
        if a.get_char(i) != b.get_char(i) {
            return false;
        }
        proof {
            assert(a@.take(i + 1) =~= a@.take(i as int).push(a@[i as int]));
            assert(b@.take(i + 1) =~= b@.take(i as int).push(b@[i as int]));
        }
        i = i + 1;
    }
    proof {
        assert(a@.take(la as int) =~= a@);
        assert(b@.take(lb as int) =~= b@);
    }
    true
}

/// A fresh string holding the characters of `a` followed by those of `b`.
pub fn concat2(a: &str, b: &str) -> (r: String)
    ensures
        r@ == a@ + b@,
{
    let mut s = String::from_str(a);
    s.append(b);
    s
}

/// A fresh string holding `a`, `b` and `c` in order.
pub fn concat3(a: &str, b: &str, c: &str) -> (r: String)
    ensures
        r@ == a@ + b@ + c@,
{
    let mut s = String::from_str(a);
    s.append(b);
    s.append(c);
    s
}

/// A fresh string holding `a`, `b`, `c`, `d` and `e` in order.
pub fn concat5(a: &str, b: &str, c: &str, d: &str, e: &str) -> (r: String)
    ensures
        r@ == a@ + b@ + c@ + d@ + e@,
{
    let mut s = String::from_str(a);
    s.append(b);
    s.append(c);
    s.append(d);
    s.append(e);
    s
}

/// Characters allowed in the local parts of scoped identifiers.
pub open spec fn is_snake_char(c: char) -> bool {
    ('a' <= c && c <= 'z') || ('0' <= c && c <= '9') || c == '_'
}

/// A lowercase snake_case identifier: non-empty, starting with a lowercase
/// ASCII letter, built from lowercase letters, digits and underscores.
pub open spec fn is_snake_case(s: Seq<char>) -> bool {
    &&& s.len() > 0
    &&& 'a' <= s[0] && s[0] <= 'z'
    &&& forall|i: int| 0 <= i < s.len() ==> is_snake_char(#[trigger] s[i])
}

/// `s` splits at position `i` into `<pack_id>::<local_id>` with both parts
/// lowercase snake_case.
pub open spec fn splits_scoped_at(s: Seq<char>, i: int) -> bool {
    &&& 0 <= i && i + 1 < s.len()
    &&& s[i] == ':' && s[i + 1] == ':'
    &&& is_snake_case(s.take(i))
    &&& is_snake_case(s.skip(i + 2))
}

/// The pack part and the local part of a scoped identifier, if it is one.
pub open spec fn scoped_id_parts(s: Seq<char>) -> Option<(Seq<char>, Seq<char>)> {
    if exists|i: int| #[trigger] splits_scoped_at(s, i) {
        let i = choose|i: int| #[trigger] splits_scoped_at(s, i);
        Some((s.take(i), s.skip(i + 2)))
    } else {
        None
    }
}

/// The split position of a scoped identifier is unique, because neither part
/// may contain a colon.
pub proof fn lemma_scoped_split_unique(s: Seq<char>, i: int, j: int)
    requires
        splits_scoped_at(s, i),
        splits_scoped_at(s, j),
    ensures
        i == j,
{
    if i < j {
        assert(s.take(j)[i] == s[i]);
        assert(is_snake_char(s.take(j)[i]));
    } else if j < i {
        assert(s.take(i)[j] == s[j]);
        assert(is_snake_char(s.take(i)[j]));
    }
}

fn is_snake_case_exec(s: &str, from: usize, to: usize) -> (r: bool)
    requires
        from <= to <= s@.len(),
    ensures
        r == is_snake_case(s@.subrange(from as int, to as int)),
{
    if from == to {
        return false;
    }
    let c0 = s.get_char(from);
    if !('a' <= c0 && c0 <= 'z') {
        return false;
    }
    let mut k = from;
    while k < to
        invariant
            from <= k <= to <= s@.len(),
            forall|m: int| from <= m < k ==> is_snake_char(#[trigger] s@[m]),
        decreases to - k,
    {
        let c = s.get_char(k);
        if !(('a' <= c && c <= 'z') || ('0' <= c && c <= '9') || c == '_') {
            assert(s@.subrange(from as int, to as int)[k - from] == c);
            return false;
        }
        k = k + 1;
    }
    assert(forall|m: int| 0 <= m < to - from ==> s@.subrange(from as int, to as int)[m] == s@[from + m]);
    true
}

/// Split a scoped identifier `<pack_id>::<local_id>` into its parts.
pub fn split_scoped_id(s: &str) -> (r: Option<(String, String)>)
    ensures
        r is None <==> scoped_id_parts(s@) is None,
        r matches Some((p, l)) ==> scoped_id_parts(s@) == Some((p@, l@)),
{
    let n = s.unicode_len();
    let mut i: usize = 0;
    while i < n
        invariant
            n == s@.len(),
            i <= n,
            forall|m: int| 0 <= m < i ==> s@[m] != ':',
        ensures
            i <= n,
            forall|m: int| 0 <= m < i ==> s@[m] != ':',
            i < n ==> s@[i as int] == ':',
        decreases n - i,
    {
        if s.get_char(i) == ':' {
            break;
        }
        i = i + 1;
    }
    if i < n && n - i > 1 && s.get_char(i) == ':' && s.get_char(i + 1) == ':' && is_snake_case_exec(s, 0, i) && is_snake_case_exec(s, i + 2, n) {
        proof {
            assert(s@.subrange(0, i as int) =~= s@.take(i as int));
            assert(s@.subrange(i + 2, n as int) =~= s@.skip(i + 2));
            assert(splits_scoped_at(s@, i as int));
            let j = choose|j: int| #[trigger] splits_scoped_at(s@, j);
            lemma_scoped_split_unique(s@, i as int, j);
        }
        let p = s.substring_char(0, i);
        let l = s.substring_char(i + 2, n);
        proof {
            assert(p@ =~= s@.take(i as int));
            assert(l@ =~= s@.skip(i + 2));
        }
        Some((String::from_str(p), String::from_str(l)))
    } else {
        proof {
            if exists|j: int| #[trigger] splits_scoped_at(s@, j) {
                let j = choose|j: int| #[trigger] splits_scoped_at(s@, j);
                if j < i {
                    assert(s@[j] == ':');
                } else if j > i {
                    if i < n {
                        assert(s@.take(j)[i as int] == s@[i as int]);
                        assert(is_snake_char(s@.take(j)[i as int]));
                    }
                } else {
                    assert(s@.subrange(0, i as int) =~= s@.take(i as int));
                    assert(s@.subrange(i + 2, n as int) =~= s@.skip(i + 2));
                }
            }
        }
        None
    }
}

// ---------------------------------------------------------------------------
// Decimal numerals
// ---------------------------------------------------------------------------

/// The character of a decimal digit.
pub open spec fn digit_char(d: int) -> char {
    (d + 48) as char
}

/// The decimal numeral of a natural number, without leading zeros.
pub open spec fn decimal_digits(n: nat) -> Seq<char>
    decreases n,
{
    if n < 10 {
        seq![digit_char(n as int)]
    } else {
        decimal_digits(n / 10).push(digit_char((n % 10) as int))
    }
}

/// `k` zeros.
pub open spec fn zeros(k: int) -> Seq<char> {
    Seq::new(if k < 0 { 0nat } else { k as nat }, |i: int| '0')
}

/// The decimal numeral of `n`, padded with leading zeros to `width`
/// characters.
pub open spec fn padded_digits(n: nat, width: nat) -> Seq<char> {
    zeros(width - decimal_digits(n).len()) + decimal_digits(n)
}

/// The text of one decimal digit.
pub fn digit_text(d: u64) -> (r: &'static str)
    requires
        d < 10,
    ensures
        r@ == seq![digit_char(d as int)],
{
    proof {
        reveal_strlit("0");
        reveal_strlit("1");
        reveal_strlit("2");
        reveal_strlit("3");
        reveal_strlit("4");
        reveal_strlit("5");
        reveal_strlit("6");
        reveal_strlit("7");
        reveal_strlit("8");
        reveal_strlit("9");
    }
    let r = if d == 0 {
        "0"
    } else if d == 1 {
        "1"
    } else if d == 2 {
        "2"
    } else if d == 3 {
        "3"
    } else if d == 4 {
        "4"
    } else if d == 5 {
        "5"
    } else if d == 6 {
        "6"
    } else if d == 7 {
        "7"
    } else if d == 8 {
        "8"
    } else {
        "9"
    };
    assert(r@ =~= seq![digit_char(d as int)]);
    r
}

/// The decimal numeral of `n`.
pub fn decimal_text(n: u64) -> (r: String)
    ensures
        r@ == decimal_digits(n as nat),
    decreases n,
{
    if n < 10 {
        String::from_str(digit_text(n))
    } else {
        let mut s = decimal_text(n / 10);
        s.append(digit_text(n % 10));
        s
    }
}

/// The decimal numeral of `n`, padded with leading zeros to `width`
/// characters.
pub fn padded_decimal_text(n: u64, width: usize) -> (r: String)
    ensures
        r@ == padded_digits(n as nat, width as nat),
{
    let digits = decimal_text(n);
    let len = digits.unicode_len();
    let mut out = String::new();
    let mut k: usize = len;
    while k < width
        invariant
            len == digits@.len(),
            len <= k,
            k <= width || k == len,
            out@ == zeros(k - len),
        decreases width - k,
    {
        proof { reveal_strlit("0"); }
        out.append("0");
        proof { assert(out@ =~= zeros(k + 1 - len)); }
        k = k + 1;
    }
    proof { assert(out@ =~= zeros(width - len)); }
    out.append(digits.as_str());
    out
}

pub open spec fn is_digit(c: char) -> bool {
    '0' <= c && c <= '9'
}

pub open spec fn digit_value(c: char) -> int {
    c as int - '0' as int
}

/// The number written by the decimal digits `s[from..to]`.
pub open spec fn digits_value(s: Seq<char>, from: int, to: int) -> int
    decreases to - from,
{
    if to <= from {
        0
    } else {
        digits_value(s, from, to - 1) * 10 + digit_value(s[to - 1])
    }
}

pub open spec fn pow10(n: int) -> int
    decreases n,
{
    if n <= 0 { 1 } else { pow10(n - 1) * 10 }
}

/// What Rust's `from_str` for an unsigned integer type with maximum `max`
/// reads: an optional `+` and then one or more decimal digits whose value
/// does not exceed `max`.
pub open spec fn parse_unsigned_spec(s: Seq<char>, max: int) -> Option<int> {
    parse_digits_spec(unsigned_body(s), max)
}

/// The text after an optional leading `+`.
pub open spec fn unsigned_body(s: Seq<char>) -> Seq<char> {
    if s.len() > 0 && s[0] == '+' { s.drop_first() } else { s }
}

/// One or more decimal digits whose value does not exceed `max`.
pub open spec fn parse_digits_spec(body: Seq<char>, max: int) -> Option<int> {
    if body.len() > 0
        && (forall|i: int| 0 <= i < body.len() ==> #[trigger] is_digit(body[i]))
        && digits_value(body, 0, body.len() as int) <= max
    {
        Some(digits_value(body, 0, body.len() as int))
    } else {
        None
    }
}

proof fn lemma_digits_value_nonneg(s: Seq<char>, from: int, to: int)
    requires
        forall|i: int| from <= i < to ==> #[trigger] is_digit(s[i]),
    ensures
        digits_value(s, from, to) >= 0,
    decreases to - from,
{
    if to > from {
        lemma_digits_value_nonneg(s, from, to - 1);
        assert(is_digit(s[to - 1]));
    }
}

proof fn lemma_digits_value_monotone(s: Seq<char>, from: int, k: int, to: int)
    requires
        from <= k <= to,
        forall|i: int| from <= i < to ==> #[trigger] is_digit(s[i]),
    ensures
        digits_value(s, from, k) <= digits_value(s, from, to),
    decreases to - k,
{
    if k < to {
        lemma_digits_value_monotone(s, from, k, to - 1);
        lemma_digits_value_nonneg(s, from, to - 1);
        assert(is_digit(s[to - 1]));
    }
}

/// Read an unsigned decimal number no greater than `max`, as Rust's
/// `from_str` for unsigned integers does.
pub fn parse_unsigned(s: &str, max: u64) -> (r: Option<u64>)
    ensures
        match parse_unsigned_spec(s@, max as int) {
            Some(v) => r == Some(v as u64) && v == r.unwrap() as int,
            None => r is None,
        },
{
    let n = s.unicode_len();
    let start: usize = if n > 0 && s.get_char(0) == '+' { 1 } else { 0 };
    let ghost body = unsigned_body(s@);
    proof {
        assert(body =~= s@.skip(start as int));
    }
    if start >= n {
        return None;
    }
    let mut value: u64 = 0;
    let mut k: usize = start;
    while k < n
        invariant
            n == s@.len(),
            start <= k <= n,
            body =~= s@.skip(start as int),
            body == unsigned_body(s@),
            value == digits_value(body, 0, (k - start) as int),
            value <= max,
            forall|i: int| 0 <= i < k - start ==> #[trigger] is_digit(body[i]),
        decreases n - k,
    {
        let c = s.get_char(k);
        assert(body[k - start] == c);
        if !('0' <= c && c <= '9') {
            proof {
                let j = (k - start) as int;
                assert(!is_digit(body[j]));
                assert(!(forall|i: int| 0 <= i < body.len() ==> #[trigger] is_digit(body[i])));
            }
            return None;
        }
        let d: u64 = (c as u32 - '0' as u32) as u64;
        let next = match value.checked_mul(10) {
            Some(t) => t.checked_add(d),
            None => None,
        };
        match next {
            Some(v) if v <= max => {
                value = v;
            },
            _ => {
                proof {
                    let j = (k + 1 - start) as int;
                    assert(digits_value(body, 0, j) == value * 10 + d);
                    if forall|i: int| 0 <= i < body.len() ==> #[trigger] is_digit(body[i]) {
                        lemma_digits_value_monotone(body, 0, j, body.len() as int);
                        assert(digits_value(body, 0, body.len() as int) > max);
                    }
                }
                return None;
            },
        }
        k = k + 1;
    }
    Some(value)
}

} // verus!
