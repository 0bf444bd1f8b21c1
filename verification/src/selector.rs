//! Selectors: the path of keys that picks one value out of a structured
//! document.
//!
//! A selector is an ordered sequence of string keys. Its text form is the
//! bracket syntax that the encryption tool understands (`["a"]["b"]`). Users
//! may write a bare key (`a`), a slash-delimited path (`a/b`), or the bracket
//! syntax itself, which is the only way to express array indices.

use vstd::prelude::*;
use vstd::string::StrSliceExecFns;
use vstd::string::StringExecFns;

use crate::text::chars_of;
use crate::text::index_of;
use crate::text::lemma_offset_of;
use crate::text::lemma_offset_of_add;
use crate::text::offset_of;

verus! {

/// Whether `raw` is already written in bracket syntax.
pub open spec fn is_structured(raw: Seq<char>) -> bool {
    raw.contains('[') || raw.contains(']')
}

/// The non-empty segments of `raw` between slashes, in order.
pub open spec fn path_keys(raw: Seq<char>) -> Seq<Seq<char>>
    decreases raw.len(),
{
    if raw.len() == 0 {
        Seq::empty()
    } else {
        let n = offset_of(raw, '/');
        let rest = if 0 <= n < raw.len() {
            path_keys(raw.skip(n + 1))
        } else {
            Seq::empty()
        };
        if n == 0 {
            rest
        } else {
            seq![raw.take(n)] + rest
        }
    }
}

/// The keys that an unstructured selector names: the path segments when it
/// holds a slash, the whole text as one key when it does not.
pub open spec fn selector_keys(raw: Seq<char>) -> Seq<Seq<char>> {
    if raw.contains('/') {
        path_keys(raw)
    } else {
        seq![raw]
    }
}

/// One key in bracket syntax: `["key"]`.
pub open spec fn bracketed(key: Seq<char>) -> Seq<char> {
    seq!['[', '"'] + key + seq!['"', ']']
}

/// A sequence of keys in bracket syntax, one bracket pair after another.
pub open spec fn bracket_text(keys: Seq<Seq<char>>) -> Seq<char>
    decreases keys.len(),
{
    if keys.len() == 0 {
        Seq::empty()
    } else {
        bracketed(keys[0]) + bracket_text(keys.drop_first())
    }
}

/// The text handed to the encryption tool for the user's selector `raw`.
pub open spec fn selector_text(raw: Seq<char>) -> Seq<char> {
    if is_structured(raw) {
        raw
    } else {
        bracket_text(selector_keys(raw))
    }
}

/// Putting a key in front of a key sequence puts its brackets in front of the text.
pub proof fn lemma_bracket_text_cons(key: Seq<char>, rest: Seq<Seq<char>>)
    ensures
        bracket_text(seq![key] + rest) == bracketed(key) + bracket_text(rest),
{
    let all = seq![key] + rest;
    assert(all.drop_first() == rest);
}

/// The text of a key sequence holds no bracket only when it is empty, so a
/// selector made from keys is left alone when it is read again.
pub proof fn lemma_bracket_text_is_structured(keys: Seq<Seq<char>>)
    requires
        keys.len() > 0,
    ensures
        is_structured(bracket_text(keys)),
        selector_text(bracket_text(keys)) == bracket_text(keys),
{
    let t = bracket_text(keys);
    assert(t[0] == '[');
}

/// Whether a key can be written in a slash-delimited path: it is not empty
/// and holds no slash and no bracket.
pub open spec fn is_plain_key(key: Seq<char>) -> bool {
    key.len() > 0 && !key.contains('/') && !key.contains('[') && !key.contains(']')
}

/// Keys joined by slashes, the way the attributes of a document are named.
pub open spec fn slash_path(keys: Seq<Seq<char>>) -> Seq<char>
    decreases keys.len(),
{
    if keys.len() == 0 {
        Seq::empty()
    } else if keys.len() == 1 {
        keys[0]
    } else {
        slash_path(keys.drop_last()) + seq!['/'] + keys.last()
    }
}

/// A path with one more plain key behind a slash has one more key.
pub proof fn lemma_path_keys_push(path: Seq<char>, key: Seq<char>)
    requires
        is_plain_key(key),
    ensures
        path_keys(path + seq!['/'] + key) == path_keys(path).push(key),
    decreases path.len(),
{
    let tail = seq!['/'] + key;
    let whole = path + seq!['/'] + key;
    assert(whole == path + tail);
    lemma_offset_of_add(path, tail, '/');
    lemma_offset_of(path, '/');
    lemma_offset_of(key, '/');
    assert(tail[0] == '/');
    assert(path_keys(key) == seq![key]) by {
        assert(key.take(key.len() as int) == key);
    }
    let n = offset_of(whole, '/');
    if path.contains('/') {
        let rest = path.skip(n + 1);
        assert(whole.skip(n + 1) == rest + seq!['/'] + key);
        assert(whole.take(n) == path.take(n));
        lemma_path_keys_push(rest, key);
        if n > 0 {
            assert(seq![path.take(n)] + path_keys(rest).push(key) == (seq![path.take(n)]
                + path_keys(rest)).push(key));
        }
    } else {
        assert(n == path.len());
        assert(whole.skip(n + 1) == key);
        assert(whole.take(n) == path);
        if path.len() > 0 {
            assert(path.take(path.len() as int) == path);
            assert(path_keys(path) == seq![path]);
            assert(seq![path] + seq![key] == seq![path].push(key));
        } else {
            assert(path_keys(path) == Seq::<Seq<char>>::empty());
            assert(Seq::<Seq<char>>::empty().push(key) == seq![key]);
        }
    }
}

/// Whether `c` occurs in a path is a matter of its keys and of the slash.
proof fn lemma_slash_path_contains(keys: Seq<Seq<char>>, c: char)
    requires
        c != '/',
        forall|i: int| 0 <= i < keys.len() ==> !(#[trigger] keys[i]).contains(c),
    ensures
        !slash_path(keys).contains(c),
    decreases keys.len(),
{
    if keys.len() == 0 {
    } else if keys.len() == 1 {
    } else {
        let front = slash_path(keys.drop_last());
        assert forall|i: int| 0 <= i < keys.drop_last().len() implies !(
        #[trigger] keys.drop_last()[i]).contains(c) by {
            assert(keys.drop_last()[i] == keys[i]);
        }
        lemma_slash_path_contains(keys.drop_last(), c);
        let whole = slash_path(keys);
        if whole.contains(c) {
            let k = choose|k: int| 0 <= k < whole.len() && whole[k] == c;
            if k < front.len() {
                assert(front[k] == c);
            } else if k > front.len() {
                assert(keys.last()[k - front.len() - 1] == c);
            }
        }
    }
}

/// The keys of a path of plain keys are those keys.
proof fn lemma_path_keys_of_slash_path(keys: Seq<Seq<char>>)
    requires
        keys.len() > 0,
        forall|i: int| 0 <= i < keys.len() ==> is_plain_key(#[trigger] keys[i]),
    ensures
        path_keys(slash_path(keys)) == keys,
    decreases keys.len(),
{
    if keys.len() == 1 {
        let key = keys[0];
        lemma_offset_of(key, '/');
        assert(key.take(key.len() as int) == key);
        assert(keys == seq![key]);
    } else {
        let front = keys.drop_last();
        assert forall|i: int| 0 <= i < front.len() implies is_plain_key(#[trigger] front[i]) by {
            assert(front[i] == keys[i]);
        }
        lemma_path_keys_of_slash_path(front);
        lemma_path_keys_push(slash_path(front), keys.last());
        assert(front.push(keys.last()) == keys);
    }
}

/// Selecting is the inverse of naming: the path under which an attribute
/// is reported, read as a selector, picks the attribute by exactly the
/// keys that lead to it, as long as each key is plain.
pub proof fn lemma_slash_path_selects_its_keys(keys: Seq<Seq<char>>)
    requires
        keys.len() > 0,
        forall|i: int| 0 <= i < keys.len() ==> is_plain_key(#[trigger] keys[i]),
    ensures
        !is_structured(slash_path(keys)),
        selector_keys(slash_path(keys)) == keys,
        selector_text(slash_path(keys)) == bracket_text(keys),
{
    lemma_slash_path_contains(keys, '[');
    lemma_slash_path_contains(keys, ']');
    lemma_path_keys_of_slash_path(keys);
    let path = slash_path(keys);
    if keys.len() == 1 {
        assert(keys == seq![keys[0]]);
    } else {
        let front = slash_path(keys.drop_last());
        assert(path[front.len() as int] == '/');
    }
}

/// Appends `["key"]` to `out`, where the key is `raw[from..to]`.
fn push_key(out: &mut String, raw: &str, from: usize, to: usize)
    requires
        from <= to <= raw@.len(),
    ensures
        final(out)@ == old(out)@ + bracketed(raw@.subrange(from as int, to as int)),
{
    proof {
        reveal_strlit("[\"");
        reveal_strlit("\"]");
    }
    let ghost before = out@;
    let ghost key = raw@.subrange(from as int, to as int);
    out.append("[\"");
    out.append(raw.substring_char(from, to));
    out.append("\"]");
    assert("[\""@ == seq!['[', '"']);
    assert("\"]"@ == seq!['"', ']']);
    assert(out@ == before + bracketed(key));
}

/// Writes the keys of a slash-delimited path in bracket syntax.
fn format_path(raw: &str, chars: &Vec<char>) -> (out: String)
    requires
        chars@ == raw@,
    ensures
        out@ == bracket_text(path_keys(raw@)),
{
    let mut out = String::new();
    let n = chars.len();
    let mut start: usize = 0;
    assert(raw@.skip(0) == raw@);
    while start < n
        invariant
            chars@ == raw@,
            n == chars@.len(),
            start <= n,
            bracket_text(path_keys(raw@)) == out@ + bracket_text(path_keys(raw@.skip(start as int))),
        decreases n - start,
    {
        let ghost rest = raw@.skip(start as int);
        let end = index_of(chars, start, '/');
        proof {
            assert(rest.take(end - start) == raw@.subrange(start as int, end as int));
            if end < n {
                assert(rest.skip(end - start + 1) == raw@.skip(end + 1));
            }
            if end > start {
                let tail = if end < n {
                    path_keys(raw@.skip(end + 1))
                } else {
                    Seq::empty()
                };
                lemma_bracket_text_cons(raw@.subrange(start as int, end as int), tail);
            }
        }
        if end > start {
            push_key(&mut out, raw, start, end);
        }
        if end < n {
            start = end + 1;
        } else {
            start = n;
            assert(raw@.skip(n as int).len() == 0);
        }
    }
    assert(raw@.skip(start as int).len() == 0);
    out
}

/// Turns the selector a user wrote into the text the encryption tool expects.
///
/// No selector stays no selector: the operation is on the whole document.
/// Text that holds `[` or `]` is taken to be bracket syntax already and is
/// returned as it is. Text that holds `/` is split there, empty segments are
/// dropped, and each segment becomes one bracketed key. Any other text is one
/// bracketed key.
pub fn format_selector(selector: Option<&str>) -> (formatted: Option<String>)
    ensures
        selector is None <==> formatted is None,
        selector matches Some(raw) ==> formatted->0@ == selector_text(raw@),
{
    match selector {
        None => None,
        Some(raw) => {
            let chars = chars_of(raw);
            let n = chars.len();
            let open = index_of(&chars, 0, '[');
            let close = index_of(&chars, 0, ']');
            assert(raw@.skip(0) == raw@);
            if open < n || close < n {
                Some(raw.to_owned())
            } else {
                let slash = index_of(&chars, 0, '/');
                if slash < n {
                    Some(format_path(raw, &chars))
                } else {
                    let mut out = String::new();
                    push_key(&mut out, raw, 0, n);
                    proof {
                        assert(raw@.subrange(0, n as int) == raw@);
                        lemma_bracket_text_cons(raw@, Seq::empty());
                        assert(seq![raw@] + Seq::<Seq<char>>::empty() == seq![raw@]);
                        assert(out@ == bracketed(raw@));
                    }
                    Some(out)
                }
            }
        },
    }
}

} // verus!
