use koishi::cli::configured_store_location;
use koishi::cli::expanded_store_location;
use koishi::cli::get_binary_version;
use koishi::cli::get_store_location;
use koishi::cli::version;
use koishi::completion::do_complete;
use koishi::completion::starts_with;
use koishi::interactive::lookup_character;
use koishi::interactive::lookup_reply;
use koishi::interactive::parse_position;
use koishi::interactive::Reply;
use koishi::interactive::LookupError;
use koishi::output::do_query;
use koishi::output::output_mode;
use koishi::output::render;
use koishi::output::LookupMode;
use koishi::output::Output;
use koishi::output::OutputError;
use koishi::output::OutputMode;
use koishi::qr::encode_ascii;
use koishi::qr::encode_png;
use koishi::qr::encode_unicode;
use koishi::text::bytes_to_string;
use koishi::text::chars_of;
use koishi::text::index_of;
use koishi::text::push_str;
use koishi::text::str_eq;
use koishi::text::trim;

fn strings(items: &[&str]) -> Vec<String> {
    items.iter().map(|s| s.to_string()).collect()
}

#[test]
fn completion_offers_what_starts_with_the_typed_text() {
    let options = strings(&["foo/bar", "foo/baz", "qux", "fo", "xfoo"]);
    assert_eq!(do_complete("foo", options.clone()), vec!["foo/bar", "foo/baz"]);
    assert_eq!(do_complete("", options.clone()), options);
    assert_eq!(do_complete("foo/bar", options.clone()), vec!["foo/bar"]);
    assert_eq!(do_complete("foo/bar/", options.clone()), Vec::<String>::new());
    assert_eq!(do_complete("q", Vec::new()), Vec::<String>::new());
}

#[test]
fn prefix_test_on_characters() {
    let text: Vec<char> = "härte".chars().collect();
    assert!(starts_with(&text, &"hä".chars().collect()));
    assert!(starts_with(&text, &Vec::new()));
    assert!(starts_with(&text, &text));
    assert!(!starts_with(&text, &"ha".chars().collect()));
    assert!(!starts_with(&text, &"härtes".chars().collect()));
}

#[test]
fn store_location_comes_from_the_variable_or_the_default() {
    assert_eq!(configured_store_location(None, Some("/my/store")), "/my/store");
    assert_eq!(configured_store_location(None, Some("")), "");
    assert_eq!(configured_store_location(None, None), "$XDG_DATA_HOME/koishi-store");
}

#[test]
fn the_flag_goes_before_the_variable() {
    assert_eq!(configured_store_location(Some("/flag"), Some("/variable")), "/flag");
    assert_eq!(configured_store_location(Some("/flag"), None), "/flag");
    assert_eq!(configured_store_location(Some(""), Some("/variable")), "");
    assert_eq!(get_store_location(Some("/flag"), Some("/variable")).unwrap(), "/flag");
    assert_eq!(get_store_location(Some("/flag"), Some("$NOT_SET_ANYWHERE_KOISHI")).unwrap(), "/flag");
    assert!(get_store_location(Some("$NOT_SET_ANYWHERE_KOISHI"), Some("/variable")).is_err());
}

#[test]
fn store_location_without_variables_is_left_as_it_is() {
    assert_eq!(get_store_location(None, Some("/my/store")).unwrap(), "/my/store");
    assert_eq!(get_store_location(None, Some("relative/store")).unwrap(), "relative/store");
}

#[test]
fn store_location_that_names_nothing_of_the_environment_is_unchanged() {
    for location in [
        "",
        "/",
        "store",
        "~other/store",
        "~~",
        "a~/b",
        "/home/me/~/store",
        "dir with spaces/store",
        "caf\u{e9}/\u{65e5}\u{672c}",
        "{HOME}/store",
        "%HOME%\\store",
    ] {
        assert_eq!(get_store_location(None, Some(location)).unwrap(), location, "{location}");
    }
}

#[test]
fn store_location_with_an_unset_variable_is_an_error() {
    let err = get_store_location(None, Some("$KOISHI_TEST_VARIABLE_THAT_IS_NOT_SET/store")).unwrap_err();
    assert_eq!(err.message(), "Failed to perform shell expansion on store path");
    assert!(err.cause.contains("KOISHI_TEST_VARIABLE_THAT_IS_NOT_SET"));
}

#[test]
fn expansion_result_is_handed_on() {
    assert_eq!(expanded_store_location(Ok("/home/me/store".to_string())).unwrap(), "/home/me/store");
    assert_eq!(expanded_store_location(Err("no HOME".to_string())).unwrap_err().cause, "no HOME");
}

#[test]
fn binary_version_is_trimmed_output_or_unknown() {
    assert_eq!(get_binary_version(Some(b"git version 2.45.0\n")), "git version 2.45.0");
    assert_eq!(get_binary_version(Some(&[0xff])), "unknown");
    assert_eq!(get_binary_version(None), "unknown");
    assert_eq!(get_binary_version(Some(b"")), "");
}

#[test]
fn version_text_has_three_lines() {
    assert_eq!(version("0.1.0", "git version 2", "sops 3"), "v0.1.0\n git version 2\n sops 3");
}

#[test]
fn bytes_become_trimmed_text() {
    assert_eq!(bytes_to_string(b"  secret \n").unwrap(), "secret");
    assert_eq!(bytes_to_string(b"a b").unwrap(), "a b");
    assert_eq!(bytes_to_string(b" \t\n").unwrap(), "");
    assert_eq!(bytes_to_string("\u{a0}é\u{2003}".as_bytes()).unwrap(), "é");
    assert!(bytes_to_string(&[0xc3]).is_none());
    assert!(bytes_to_string(&[0x61, 0xff]).is_none());
}

#[test]
fn trim_removes_white_space_at_both_ends_only() {
    assert_eq!(trim(" a  b "), "a  b");
    assert_eq!(trim("ab"), "ab");
    assert_eq!(trim(""), "");
    assert_eq!(trim("\n\n"), "");
    for s in [" x", "x ", "\u{3000}x\u{85}", "  ", "a\tb", "\u{feff}x"] {
        assert_eq!(trim(s), s.trim());
    }
}

#[test]
fn white_space_is_what_unicode_says_it_is() {
    let listed = |c: char| {
        let n = c as u32;
        (0x09..=0x0d).contains(&n)
            || [0x20, 0x85, 0xa0, 0x1680, 0x2028, 0x2029, 0x202f, 0x205f, 0x3000].contains(&n)
            || (0x2000..=0x200a).contains(&n)
    };
    let mut count = 0;
    for c in (0u32..=0x10ffff).filter_map(char::from_u32) {
        let mut text = String::new();
        text.push(c);
        assert_eq!(trim(&text).is_empty(), listed(c), "U+{:04X}", c as u32);
        assert_eq!(c.is_whitespace(), listed(c), "U+{:04X}", c as u32);
        if listed(c) {
            count += 1;
        }
    }
    assert_eq!(count, 25);
}

#[test]
fn text_helpers() {
    assert_eq!(chars_of("aé"), vec!['a', 'é']);
    let chars = chars_of("a/b/c");
    assert_eq!(index_of(&chars, 0, '/'), 1);
    assert_eq!(index_of(&chars, 2, '/'), 3);
    assert_eq!(index_of(&chars, 4, '/'), 5);
    assert_eq!(index_of(&chars, 5, '/'), 5);
    assert!(str_eq("ab", "ab"));
    assert!(!str_eq("ab", "abc"));
    assert!(!str_eq("ab", "ac"));
    assert!(str_eq("", ""));
    let mut list = vec!["a".to_string()];
    push_str(&mut list, "b");
    assert_eq!(list, vec!["a", "b"]);
}

#[test]
fn character_lookup_counts_from_one() {
    assert_eq!(lookup_character("secret", 1), Ok("s"));
    assert_eq!(lookup_character("secret", 6), Ok("t"));
    assert_eq!(lookup_character("secret", 0), Err(LookupError::NotPositive));
    assert_eq!(
        lookup_character("secret", 7),
        Err(LookupError::OutOfBounds { index: 6, length: 6 })
    );
    assert_eq!(lookup_character("", 1), Err(LookupError::OutOfBounds { index: 0, length: 0 }));
}

#[test]
fn character_lookup_refuses_bytes_inside_a_character() {
    // "é" takes two bytes: neither of them is a character by itself.
    assert_eq!(lookup_character("aéb", 1), Ok("a"));
    assert_eq!(lookup_character("aéb", 2), Err(LookupError::OutOfBounds { index: 1, length: 4 }));
    assert_eq!(lookup_character("aéb", 3), Err(LookupError::OutOfBounds { index: 2, length: 4 }));
    assert_eq!(lookup_character("aéb", 4), Ok("b"));
    for position in 0usize..8 {
        let expected = position.checked_sub(1).and_then(|i: usize| "aéb".get(i..i + 1));
        assert_eq!(lookup_character("aéb", position).ok(), expected);
    }
}

#[test]
fn a_reply_is_read_as_a_position() {
    assert_eq!(parse_position("1"), Ok(1));
    assert_eq!(parse_position(" 42\n"), Ok(42));
    assert_eq!(parse_position("+7"), Ok(7));
    assert_eq!(parse_position("007"), Ok(7));
    assert_eq!(parse_position("0"), Ok(0));
    assert_eq!(parse_position(&usize::MAX.to_string()), Ok(usize::MAX));
    assert_eq!(parse_position(""), Err(LookupError::Empty));
    assert_eq!(parse_position("  \t"), Err(LookupError::Empty));
    assert_eq!(parse_position("+"), Err(LookupError::InvalidDigit));
    assert_eq!(parse_position("-1"), Err(LookupError::InvalidDigit));
    assert_eq!(parse_position("1 2"), Err(LookupError::InvalidDigit));
    assert_eq!(parse_position("++1"), Err(LookupError::InvalidDigit));
    assert_eq!(parse_position("12a"), Err(LookupError::InvalidDigit));
    assert_eq!(parse_position("\u{663}"), Err(LookupError::InvalidDigit));
    assert_eq!(parse_position("18446744073709551616"), Err(LookupError::TooLarge));
    assert_eq!(parse_position("99999999999999999999999999"), Err(LookupError::TooLarge));
    assert_eq!(parse_position("99999999999999999999999999x"), Err(LookupError::InvalidDigit));
}

#[test]
fn positions_are_read_as_the_standard_library_reads_them() {
    let mut replies: Vec<String> = (0usize..300).map(|n| n.to_string()).collect();
    for text in ["", " ", "+", "-", "+0", "-0", "1_000", "0x10", "1e3", "١", " 5 ", "\u{a0}9\u{3000}", "00000000000000000000000001"] {
        replies.push(text.to_string());
    }
    for reply in replies {
        assert_eq!(parse_position(&reply).ok(), reply.trim().parse::<usize>().ok(), "{reply:?}");
    }
}

#[test]
fn a_reply_shows_a_character_stops_or_fails() {
    assert_eq!(lookup_reply("secret", None), Reply::Stop);
    assert_eq!(lookup_reply("secret", Some(" 2 ")), Reply::Show { index: 1, character: "e" });
    assert_eq!(lookup_reply("secret", Some("6")), Reply::Show { index: 5, character: "t" });
    assert_eq!(lookup_reply("secret", Some("0")), Reply::Fail(LookupError::NotPositive));
    assert_eq!(
        lookup_reply("secret", Some("7")),
        Reply::Fail(LookupError::OutOfBounds { index: 6, length: 6 })
    );
    assert_eq!(lookup_reply("secret", Some("two")), Reply::Fail(LookupError::InvalidDigit));
    assert_eq!(lookup_reply("secret", Some("")), Reply::Fail(LookupError::Empty));
    assert_eq!(
        lookup_reply("secret", Some("99999999999999999999999")),
        Reply::Fail(LookupError::TooLarge)
    );
}

#[test]
fn flags_choose_the_output_mode() {
    assert_eq!(output_mode(false, false, false, false), OutputMode::Plain);
    assert_eq!(output_mode(true, false, false, false), OutputMode::Copy);
    assert_eq!(output_mode(false, true, false, false), OutputMode::Qr);
    assert_eq!(output_mode(false, false, true, false), OutputMode::QrAscii);
    assert_eq!(output_mode(false, false, false, true), OutputMode::QrUnicode);
    assert_eq!(output_mode(true, true, true, true), OutputMode::Copy);
    assert_eq!(output_mode(false, true, true, true), OutputMode::Qr);
}

#[test]
fn plain_and_copy_hand_the_secret_on_unchanged() {
    assert!(matches!(render(b"s3".to_vec(), OutputMode::Plain), Ok(Output::Bytes(ref b)) if b == b"s3"));
    assert!(matches!(render(b"s3".to_vec(), OutputMode::Copy), Ok(Output::Clipboard(ref b)) if b == b"s3"));
}

#[test]
fn qr_modes_render_the_secret() {
    match render(b"secret".to_vec(), OutputMode::Qr).unwrap() {
        Output::Bytes(png) => assert_eq!(&png[..8], &[0x89, b'P', b'N', b'G', 0x0d, 0x0a, 0x1a, 0x0a]),
        _ => panic!("an image was expected"),
    }
    match render(b"secret".to_vec(), OutputMode::QrAscii).unwrap() {
        Output::Line(text) => {
            assert!(text.contains('#'));
            assert_eq!(text, encode_ascii(b"secret").unwrap());
            assert_ne!(text, encode_ascii(b"other").unwrap());
        }
        _ => panic!("text was expected"),
    }
    match render(b"secret".to_vec(), OutputMode::QrUnicode).unwrap() {
        Output::Line(text) => {
            assert!(text.contains('\u{2588}'));
            assert_eq!(text, encode_unicode(b"secret").unwrap());
        }
        _ => panic!("text was expected"),
    }
}

#[test]
fn qr_ascii_is_a_square_of_doubled_modules() {
    let text = encode_ascii(b"a").unwrap();
    let lines: Vec<&str> = text.lines().collect();
    // Version 1: 21 modules and a quiet zone of 4 on each side.
    assert_eq!(lines.len(), 29);
    assert!(lines.iter().all(|line| line.chars().count() == 58));
    assert!(text.chars().all(|c| c == '#' || c == ' ' || c == '\n'));
}

#[test]
fn data_too_long_for_a_qr_code_is_an_error() {
    let long = vec![b'x'; 8000];
    assert!(encode_png(&long).is_err());
    assert!(encode_ascii(&long).is_err());
    assert!(encode_unicode(&long).is_err());
    assert!(!encode_ascii(&long).unwrap_err().message.is_empty());
    assert!(render(long, OutputMode::QrAscii).is_err());
}

#[test]
fn picker_modes_in_their_order() {
    let modes = LookupMode::all();
    assert_eq!(
        modes,
        vec![
            LookupMode::Copy,
            LookupMode::QrCodeUnicode,
            LookupMode::QrCodeAscii,
            LookupMode::Get,
            LookupMode::Characters
        ]
    );
    assert_eq!(LookupMode::Copy.text(), "Copy to clipboard");
    assert_eq!(LookupMode::QrCodeUnicode.text(), "Generate Unicode QR code");
    assert_eq!(LookupMode::QrCodeAscii.text(), "Generate ASCII QR code");
    assert_eq!(LookupMode::Get.text(), "Get and output to termainl");
    assert_eq!(
        LookupMode::Characters.text(),
        "Choose specific characters from a string and output to terminal"
    );
}

#[test]
fn picker_waits_after_printing() {
    let copy = do_query(b"s".to_vec(), LookupMode::Copy).unwrap();
    assert!(matches!(copy.output, Output::Clipboard(ref b) if b == b"s"));
    assert!(!copy.wait_for_user_ready);
    let get = do_query(b"s".to_vec(), LookupMode::Get).unwrap();
    assert!(matches!(get.output, Output::BytesLine(ref b) if b == b"s"));
    assert!(get.wait_for_user_ready);
    let ascii = do_query(b"s".to_vec(), LookupMode::QrCodeAscii).unwrap();
    assert!(matches!(ascii.output, Output::Line(_)));
    assert!(ascii.wait_for_user_ready);
    let unicode = do_query(b"s".to_vec(), LookupMode::QrCodeUnicode).unwrap();
    assert!(matches!(unicode.output, Output::Line(_)));
    assert!(unicode.wait_for_user_ready);
    let characters = do_query(b" s3cret\n".to_vec(), LookupMode::Characters).unwrap();
    assert!(matches!(characters.output, Output::Characters(ref t) if t == "s3cret"));
    assert!(!characters.wait_for_user_ready);
    assert!(LookupMode::Get.waits_for_user());
    assert!(!LookupMode::Characters.waits_for_user());
}

#[test]
fn picking_characters_needs_text() {
    assert!(matches!(do_query(vec![0xff], LookupMode::Characters), Err(OutputError::NotUtf8)));
    assert!(matches!(do_query(vec![b'x'; 8000], LookupMode::QrCodeAscii), Err(OutputError::QrCode(_))));
}
