//! The command lines of SOPS, the tool that encrypts and decrypts records.
//!
//! Every command is run with the store's root as its working directory. The
//! caller starts the process; this module says with which arguments.

use vstd::prelude::*;
use vstd::string::StrSliceExecFns;
use vstd::string::StringExecFns;

use crate::text::chars_of;
use crate::text::push_str;

verus! {

/// A call of SOPS: where it runs and what it is told.
#[derive(Debug)]
pub struct SopsCommand {
    /// The working directory of the process.
    pub workdir: String,
    /// The arguments after the program's name.
    pub arguments: Vec<String>,
}

/// The hexadecimal digit for a number below sixteen, in lower case.
pub open spec fn hex_digit(n: int) -> char {
    if n == 0 {
        '0'
    } else if n == 1 {
        '1'
    } else if n == 2 {
        '2'
    } else if n == 3 {
        '3'
    } else if n == 4 {
        '4'
    } else if n == 5 {
        '5'
    } else if n == 6 {
        '6'
    } else if n == 7 {
        '7'
    } else if n == 8 {
        '8'
    } else if n == 9 {
        '9'
    } else if n == 10 {
        'a'
    } else if n == 11 {
        'b'
    } else if n == 12 {
        'c'
    } else if n == 13 {
        'd'
    } else if n == 14 {
        'e'
    } else {
        'f'
    }
}

/// Whether a character cannot stand as it is inside a JSON string: the
/// double quote, the backslash, and every character below U+0020.
pub open spec fn needs_escape(c: char) -> bool {
    c == '"' || c == '\\' || (c as u32) < 0x20
}

/// One character as it is written inside a JSON string: a double quote and
/// a backslash behind a backslash; backspace, form feed, line feed,
/// carriage return and tab by their letters; any other character below
/// U+0020 as `\u00` and two hexadecimal digits; everything else as it is.
pub open spec fn json_escape(c: char) -> Seq<char> {
    if c == '"' {
        seq!['\\', '"']
    } else if c == '\\' {
        seq!['\\', '\\']
    } else if c == '\u{8}' {
        seq!['\\', 'b']
    } else if c == '\u{c}' {
        seq!['\\', 'f']
    } else if c == '\n' {
        seq!['\\', 'n']
    } else if c == '\r' {
        seq!['\\', 'r']
    } else if c == '\t' {
        seq!['\\', 't']
    } else if (c as u32) < 0x20 {
        seq!['\\', 'u', '0', '0', hex_digit((c as u32) as int / 16), hex_digit((c as u32) as int % 16)]
    } else {
        seq![c]
    }
}

/// A text as it is written inside a JSON string, character by character.
pub open spec fn json_escaped(value: Seq<char>) -> Seq<char>
    decreases value.len(),
{
    if value.len() == 0 {
        Seq::empty()
    } else {
        json_escaped(value.drop_last()) + json_escape(value.last())
    }
}

/// A value as it is handed to `sops set`: as a JSON string literal, between
/// double quotes and with what needs it escaped.
pub open spec fn quoted(value: Seq<char>) -> Seq<char> {
    seq!['"'] + json_escaped(value) + seq!['"']
}

/// A run of characters that need no escape is written as it is.
pub proof fn lemma_json_escaped_plain(value: Seq<char>)
    requires
        forall|i: int| 0 <= i < value.len() ==> !needs_escape(#[trigger] value[i]),
    ensures
        json_escaped(value) == value,
    decreases value.len(),
{
    if value.len() > 0 {
        let front = value.drop_last();
        assert forall|i: int| 0 <= i < front.len() implies !needs_escape(#[trigger] front[i]) by {
            assert(front[i] == value[i]);
        }
        lemma_json_escaped_plain(front);
        assert(!needs_escape(value[value.len() - 1]));
        assert(front + seq![value.last()] == value);
    }
}

/// The hexadecimal digit for a number below sixteen.
fn hex_text(n: u32) -> (digit: &'static str)
    requires
        n < 16,
    ensures
        digit@ == seq![hex_digit(n as int)],
{
    proof {
        reveal_strlit("0");
        reveal_strlit("1");
        reveal_strlit("2");
        reveal_strlit("3");
        reveal_strlit("4");
        reveal_strlit("5");
        reveal_strlit("6");
        reveal_strlit("7");
        reveal_strlit("8");
        reveal_strlit("9");
        reveal_strlit("a");
        reveal_strlit("b");
        reveal_strlit("c");
        reveal_strlit("d");
        reveal_strlit("e");
        reveal_strlit("f");
    }
    let digit = if n == 0 {
        "0"
    } else if n == 1 {
        "1"
    } else if n == 2 {
        "2"
    } else if n == 3 {
        "3"
    } else if n == 4 {
        "4"
    } else if n == 5 {
        "5"
    } else if n == 6 {
        "6"
    } else if n == 7 {
        "7"
    } else if n == 8 {
        "8"
    } else if n == 9 {
        "9"
    } else if n == 10 {
        "a"
    } else if n == 11 {
        "b"
    } else if n == 12 {
        "c"
    } else if n == 13 {
        "d"
    } else if n == 14 {
        "e"
    } else {
        "f"
    };
    assert(digit@ =~= seq![hex_digit(n as int)]);
    digit
}

/// Appends the escape of a character that needs one.
fn push_escape(out: &mut String, c: char)
    requires
        needs_escape(c),
    ensures
        final(out)@ == old(out)@ + json_escape(c),
{
    let ghost before = out@;
    if c == '"' {
        proof {
            reveal_strlit("\\\"");
        }
        out.append("\\\"");
        assert(out@ =~= before + json_escape(c));
    } else if c == '\\' {
        proof {
            reveal_strlit("\\\\");
        }
        out.append("\\\\");
        assert(out@ =~= before + json_escape(c));
    } else if c == '\u{8}' {
        proof {
            reveal_strlit("\\b");
        }
        out.append("\\b");
        assert(out@ =~= before + json_escape(c));
    } else if c == '\u{c}' {
        proof {
            reveal_strlit("\\f");
        }
        out.append("\\f");
        assert(out@ =~= before + json_escape(c));
    } else if c == '\n' {
        proof {
            reveal_strlit("\\n");
        }
        out.append("\\n");
        assert(out@ =~= before + json_escape(c));
    } else if c == '\r' {
        proof {
            reveal_strlit("\\r");
        }
        out.append("\\r");
        assert(out@ =~= before + json_escape(c));
    } else if c == '\t' {
        proof {
            reveal_strlit("\\t");
        }
        out.append("\\t");
        assert(out@ =~= before + json_escape(c));
    } else {
        proof {
            reveal_strlit("\\u00");
        }
        let code = c as u32;
        out.append("\\u00");
        out.append(hex_text(code / 16));
        out.append(hex_text(code % 16));
        assert(out@ =~= before + json_escape(c));
    }
}

/// Writes a text as a JSON string literal.
pub fn json_quote(value: &str) -> (literal: String)
    ensures
        literal@ == quoted(value@),
{
    proof {
        reveal_strlit("\"");
    }
    let chars = chars_of(value);
    let n = chars.len();
    let mut literal = String::from_str("\"");
    let mut start: usize = 0;
    let mut i: usize = 0;
    assert(value@.take(0) =~= Seq::<char>::empty());
    assert(value@.subrange(0, 0) =~= Seq::<char>::empty());
    while i < n
        invariant
            chars@ == value@,
            n == chars@.len(),
            start <= i <= n,
            forall|k: int| start <= k < i ==> !needs_escape(#[trigger] value@[k]),
            literal@ + value@.subrange(start as int, i as int) == seq!['"'] + json_escaped(
                value@.take(i as int),
            ),
        decreases n - i,
    {
        let c = chars[i];
        let ghost front = value@.take(i as int);
        let ghost run = value@.subrange(start as int, i as int);
        proof {
            assert(value@.take(i + 1).drop_last() == front);
            assert(value@.take(i + 1).last() == c);
        }
        if c == '"' || c == '\\' || (c as u32) < 0x20 {
            literal.append(value.substring_char(start, i));
            push_escape(&mut literal, c);
            start = i + 1;
            proof {
                assert(value@.subrange(i + 1, i + 1) =~= Seq::<char>::empty());
                assert(literal@ == seq!['"'] + json_escaped(front) + json_escape(c));
                assert(literal@ + value@.subrange(i + 1, i + 1) == literal@);
            }
        } else {
            proof {
                assert(json_escape(c) == seq![c]);
                assert(value@.subrange(start as int, i + 1) == run + seq![c]);
                assert(literal@ + (run + seq![c]) == (literal@ + run) + seq![c]);
            }
        }
        i += 1;
    }
    proof {
        assert(value@.take(n as int) == value@);
    }
    literal.append(value.substring_char(start, n));
    literal.append("\"");
    assert("\""@ == seq!['"']);
    literal
}

/// The arguments of `sops decrypt`, with or without a selector.
pub open spec fn decrypt_arguments(file: Seq<char>, extract: Option<Seq<char>>) -> Seq<Seq<char>> {
    match extract {
        Some(selector) => seq!["decrypt"@, "--extract"@, selector, file],
        None => seq!["decrypt"@, file],
    }
}

/// The arguments of `sops updatekeys`, with or without `--yes`.
pub open spec fn update_keys_arguments(file: Seq<char>, yes: bool) -> Seq<Seq<char>> {
    if yes {
        seq!["updatekeys"@, "--yes"@, file]
    } else {
        seq!["updatekeys"@, file]
    }
}

/// Lets the user edit the decrypted contents of `file`; SOPS takes over the terminal.
pub fn edit(workdir: &str, file: &str) -> (command: SopsCommand)
    ensures
        command.workdir@ == workdir@,
        command.arguments.deep_view() == seq!["edit"@, file@],
{
    let mut arguments: Vec<String> = Vec::new();
    assert(arguments.deep_view() =~= Seq::<Seq<char>>::empty());
    push_str(&mut arguments, "edit");
    push_str(&mut arguments, file);
    assert(arguments.deep_view() =~= seq!["edit"@, file@]);
    SopsCommand { workdir: String::from_str(workdir), arguments }
}

/// Decrypts `file` to standard output: all of it, or only the value that
/// `extract` picks.
pub fn decrypt(workdir: &str, file: &str, extract: Option<&str>) -> (command: SopsCommand)
    ensures
        command.workdir@ == workdir@,
        command.arguments.deep_view() == decrypt_arguments(
            file@,
            match extract {
                Some(selector) => Some(selector@),
                None => None,
            },
        ),
{
    let mut arguments: Vec<String> = Vec::new();
    assert(arguments.deep_view() =~= Seq::<Seq<char>>::empty());
    push_str(&mut arguments, "decrypt");
    match extract {
        Some(selector) => {
            push_str(&mut arguments, "--extract");
            push_str(&mut arguments, selector);
            push_str(&mut arguments, file);
            assert(arguments.deep_view() =~= seq!["decrypt"@, "--extract"@, selector@, file@]);
        },
        None => {
            push_str(&mut arguments, file);
            assert(arguments.deep_view() =~= seq!["decrypt"@, file@]);
        },
    }
    SopsCommand { workdir: String::from_str(workdir), arguments }
}

/// Encrypts what is written to standard input into `file`, in place.
pub fn encrypt(workdir: &str, file: &str) -> (command: SopsCommand)
    ensures
        command.workdir@ == workdir@,
        command.arguments.deep_view() == seq![
            "encrypt"@,
            "--filename-override"@,
            file@,
            "--output"@,
            file@,
        ],
{
    let mut arguments: Vec<String> = Vec::new();
    assert(arguments.deep_view() =~= Seq::<Seq<char>>::empty());
    push_str(&mut arguments, "encrypt");
    push_str(&mut arguments, "--filename-override");
    push_str(&mut arguments, file);
    push_str(&mut arguments, "--output");
    push_str(&mut arguments, file);
    assert(arguments.deep_view() =~= seq![
        "encrypt"@,
        "--filename-override"@,
        file@,
        "--output"@,
        file@,
    ]);
    SopsCommand { workdir: String::from_str(workdir), arguments }
}

/// Sets the value that `selector` picks in `file` to the text `contents`,
/// in place. The text is handed over as a JSON string literal.
pub fn set(workdir: &str, file: &str, selector: &str, contents: &str) -> (command: SopsCommand)
    ensures
        command.workdir@ == workdir@,
        command.arguments.deep_view() == seq!["set"@, file@, selector@, quoted(contents@)],
{
    let value = json_quote(contents);
    let mut arguments: Vec<String> = Vec::new();
    assert(arguments.deep_view() =~= Seq::<Seq<char>>::empty());
    push_str(&mut arguments, "set");
    push_str(&mut arguments, file);
    push_str(&mut arguments, selector);
    push_str(&mut arguments, value.as_str());
    assert(arguments.deep_view() =~= seq!["set"@, file@, selector@, quoted(contents@)]);
    SopsCommand { workdir: String::from_str(workdir), arguments }
}

/// Encrypts `file` again for the recipients the configuration names now;
/// with `yes`, without asking.
pub fn update_keys(workdir: &str, file: &str, yes: bool) -> (command: SopsCommand)
    ensures
        command.workdir@ == workdir@,
        command.arguments.deep_view() == update_keys_arguments(file@, yes),
{
    let mut arguments: Vec<String> = Vec::new();
    assert(arguments.deep_view() =~= Seq::<Seq<char>>::empty());
    push_str(&mut arguments, "updatekeys");
    if yes {
        push_str(&mut arguments, "--yes");
        push_str(&mut arguments, file);
        assert(arguments.deep_view() =~= seq!["updatekeys"@, "--yes"@, file@]);
    } else {
        push_str(&mut arguments, file);
        assert(arguments.deep_view() =~= seq!["updatekeys"@, file@]);
    }
    SopsCommand { workdir: String::from_str(workdir), arguments }
}

} // verus!
