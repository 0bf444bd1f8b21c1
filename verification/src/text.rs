//! Helpers for characters and bytes: searching and comparing text, reading
//! bytes as text, and trimming white space.

use vstd::prelude::*;
use vstd::string::StrSliceExecFns;
use vstd::string::StringExecFns;
use vstd::utf8::decode_utf8;
use vstd::utf8::valid_utf8;

verus! {

/// How many characters of `s` stand before the first `c`; the whole length
/// where `s` holds none.
pub open spec fn offset_of(s: Seq<char>, c: char) -> int
    decreases s.len(),
{
    if s.len() == 0 || s[0] == c {
        0
    } else {
        1 + offset_of(s.drop_first(), c)
    }
}

/// `offset_of` finds the first occurrence: nothing before it is `c`, and it
/// stops at the end only where `s` holds no `c` at all.
pub proof fn lemma_offset_of(s: Seq<char>, c: char)
    ensures
        0 <= offset_of(s, c) <= s.len(),
        forall|i: int| 0 <= i < offset_of(s, c) ==> s[i] != c,
        offset_of(s, c) < s.len() ==> s[offset_of(s, c)] == c,
        offset_of(s, c) < s.len() <==> s.contains(c),
    decreases s.len(),
{
    if s.len() == 0 || s[0] == c {
    } else {
        let t = s.drop_first();
        lemma_offset_of(t, c);
        let n = offset_of(t, c);
        assert forall|i: int| 0 <= i < n + 1 implies s[i] != c by {
            if i > 0 {
                assert(s[i] == t[i - 1]);
            }
        }
        if n < t.len() {
            assert(s[n + 1] == t[n]);
        }
        if s.contains(c) {
            let j = choose|j: int| 0 <= j < s.len() && s[j] == c;
            assert(t[j - 1] == c);
        }
    }
}

/// The first `c` of a concatenation is the first `c` of its front part, or
/// behind the whole front part where that holds none.
pub proof fn lemma_offset_of_add(a: Seq<char>, b: Seq<char>, c: char)
    ensures
        offset_of(a + b, c) == if a.contains(c) {
            offset_of(a, c)
        } else {
            a.len() + offset_of(b, c)
        },
    decreases a.len(),
{
    lemma_offset_of(a, c);
    if a.len() == 0 {
        assert(a + b == b);
    } else {
        let s = a + b;
        assert(s[0] == a[0]);
        if a[0] != c {
            assert(s.drop_first() == a.drop_first() + b);
            lemma_offset_of_add(a.drop_first(), b, c);
            lemma_offset_of(a.drop_first(), c);
        }
    }
}

/// What is in a concatenation is in one of its two parts.
pub proof fn lemma_contains_add(a: Seq<Seq<char>>, b: Seq<Seq<char>>, x: Seq<char>)
    ensures
        (a + b).contains(x) <==> a.contains(x) || b.contains(x),
{
    let c = a + b;
    if c.contains(x) {
        let k = choose|k: int| 0 <= k < c.len() && c[k] == x;
        if k < a.len() {
            assert(a[k] == x);
        } else {
            assert(b[k - a.len()] == x);
        }
    }
    if a.contains(x) {
        let k = choose|k: int| 0 <= k < a.len() && a[k] == x;
        assert(c[k] == x);
    }
    if b.contains(x) {
        let k = choose|k: int| 0 <= k < b.len() && b[k] == x;
        assert(c[a.len() + k] == x);
    }
}

/// The characters of `s`, in order, as a vector that can be indexed in constant time.
pub fn chars_of(s: &str) -> (chars: Vec<char>)
    ensures
        chars@ == s@,
{
    let mut chars: Vec<char> = Vec::new();
    for c in it: s.chars()
        invariant
            it.seq() == s@,
            chars@ == s@.take(it.index() as int),
    {
        chars.push(c);
        assert(s@.take(it.index() + 1) == s@.take(it.index() as int).push(s@[it.index() as int]));
    }
    assert(s@.take(s@.len() as int) == s@);
    chars
}

/// The index of the first `c` at or after `from`; the length where there is none.
pub fn index_of(chars: &Vec<char>, from: usize, c: char) -> (at: usize)
    requires
        from <= chars@.len(),
    ensures
        from <= at <= chars@.len(),
        at == from + offset_of(chars@.skip(from as int), c),
        at < chars@.len() <==> chars@.skip(from as int).contains(c),
{
    let n = chars.len();
    let mut at = from;
    while at < n && chars[at] != c
        invariant
            n == chars@.len(),
            from <= at <= n,
            from + offset_of(chars@.skip(from as int), c) == at + offset_of(
                chars@.skip(at as int),
                c,
            ),
        decreases n - at,
    {
        assert(chars@.skip(at as int).drop_first() == chars@.skip(at + 1));
        at += 1;
    }
    proof {
        lemma_offset_of(chars@.skip(from as int), c);
    }
    at
}

/// Whether two texts are the same, character by character.
pub fn str_eq(a: &str, b: &str) -> (same: bool)
    ensures
        same == (a@ == b@),
{
    let x = chars_of(a);
    let y = chars_of(b);
    if x.len() != y.len() {
        return false;
    }
    let mut i: usize = 0;
    while i < x.len()
        invariant
            x@ == a@,
            y@ == b@,
            x@.len() == y@.len(),
            i <= x@.len(),
            x@.take(i as int) == y@.take(i as int),
        decreases x@.len() - i,
    {
        if x[i] != y[i] {
            assert(a@[i as int] != b@[i as int]);
            return false;
        }
        assert(x@.take(i + 1) == x@.take(i as int).push(x@[i as int]));
        assert(y@.take(i + 1) == y@.take(i as int).push(y@[i as int]));
        i += 1;
    }
    assert(x@.take(x@.len() as int) == x@);
    assert(y@.take(y@.len() as int) == y@);
    true
}

/// Appends a copy of `s` to a list of texts.
pub fn push_str(list: &mut Vec<String>, s: &str)
    ensures
        final(list).deep_view() == old(list).deep_view().push(s@),
{
    list.push(String::from_str(s));
    assert(list.deep_view() =~= old(list).deep_view().push(s@));
}

/// Whether a character is white space: whether Unicode gives it the
/// property White_Space. These are the tab, the line feed, the vertical
/// tab, the form feed, the carriage return, the space, the next-line
/// character, the no-break space, the Ogham space mark, the spaces from en
/// quad to hair space, the line and paragraph separators, the narrow
/// no-break space, the medium mathematical space and the ideographic space.
pub open spec fn is_white_space(c: char) -> bool {
    let n = c as u32;
    ||| 0x09 <= n <= 0x0d
    ||| n == 0x20
    ||| n == 0x85
    ||| n == 0xa0
    ||| n == 0x1680
    ||| 0x2000 <= n <= 0x200a
    ||| n == 0x2028
    ||| n == 0x2029
    ||| n == 0x202f
    ||| n == 0x205f
    ||| n == 0x3000
}

/// `char::is_whitespace` of the standard library: whether the character
/// has Unicode's property White_Space.
#[verifier::external_body]
fn is_whitespace(c: char) -> (w: bool)
    ensures
        w == is_white_space(c),
{
    c.is_whitespace()
}

/// How many characters of white space `s` starts with.
pub open spec fn leading_space(s: Seq<char>) -> nat
    decreases s.len(),
{
    if s.len() > 0 && is_white_space(s[0]) {
        1 + leading_space(s.drop_first())
    } else {
        0
    }
}

/// How many characters of white space `s` ends with.
pub open spec fn trailing_space(s: Seq<char>) -> nat
    decreases s.len(),
{
    if s.len() > 0 && is_white_space(s.last()) {
        1 + trailing_space(s.drop_last())
    } else {
        0
    }
}

/// A text without the white space at its two ends.
pub open spec fn trimmed(s: Seq<char>) -> Seq<char> {
    let rest = s.skip(leading_space(s) as int);
    rest.take(rest.len() - trailing_space(rest))
}

/// Removes the white space at the two ends of a text.
pub fn trim(s: &str) -> (t: String)
    ensures
        t@ == trimmed(s@),
{
    let chars = chars_of(s);
    let n = chars.len();
    let mut start: usize = 0;
    assert(s@.skip(0) == s@);
    while start < n && is_whitespace(chars[start])
        invariant
            chars@ == s@,
            n == chars@.len(),
            start <= n,
            leading_space(s@) == start + leading_space(s@.skip(start as int)),
        decreases n - start,
    {
        assert(s@.skip(start as int).drop_first() == s@.skip(start + 1));
        start += 1;
    }
    let ghost rest = s@.skip(start as int);
    let mut end: usize = n;
    assert(rest.take(rest.len() as int) == rest);
    while end > start && is_whitespace(chars[end - 1])
        invariant
            chars@ == s@,
            n == chars@.len(),
            start <= end <= n,
            rest == s@.skip(start as int),
            trailing_space(rest) == (n - end) + trailing_space(rest.take(end - start)),
        decreases end,
    {
        assert(rest.take(end - start).last() == s@[end - 1]);
        assert(rest.take(end - start).drop_last() == rest.take(end - start - 1));
        end -= 1;
    }
    proof {
        if end > start {
            assert(rest.take(end - start).last() == s@[end - 1]);
        }
        assert(rest.take(end - start) == s@.subrange(start as int, end as int));
    }
    s.substring_char(start, end).to_owned()
}

/// `String::from_utf8` of the standard library: the text that `bytes`
/// encode, where they are valid UTF-8, and nothing where they are not.
#[verifier::external_body]
fn from_utf8(bytes: &[u8]) -> (text: Option<String>)
    ensures
        text is Some <==> valid_utf8(bytes@),
        text matches Some(t) ==> t@ == decode_utf8(bytes@),
{
    String::from_utf8(bytes.to_vec()).ok()
}

/// The text of a secret: its bytes read as UTF-8, without the white space
/// at its two ends. Bytes that are not UTF-8 have no text.
pub open spec fn text_of(bytes: Seq<u8>) -> Option<Seq<char>> {
    if valid_utf8(bytes) {
        Some(trimmed(decode_utf8(bytes)))
    } else {
        None
    }
}

/// Reads a secret as text. Fails exactly when the bytes are not UTF-8.
pub fn bytes_to_string(bytes: &[u8]) -> (text: Option<String>)
    ensures
        text is Some <==> valid_utf8(bytes@),
        match text {
            Some(t) => Some(t@) == text_of(bytes@),
            None => text_of(bytes@) is None,
        },
{
    match from_utf8(bytes) {
        Some(raw) => Some(trim(raw.as_str())),
        None => None,
    }
}

} // verus!
