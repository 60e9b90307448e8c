use text_edit::command::{command_for_character, command_for_key, Command, Key};

fn parsed(text: &str) -> serde_json::Value {
    serde_json::from_str(text).unwrap()
}

#[test]
fn insert_round_trip() {
    let text = Command::Insert('a').encode();
    let value = parsed(&text);
    assert_eq!(value.get("method").and_then(|v| v.as_str()), Some("edit"));
    let params = value.get("params").unwrap();
    assert_eq!(params.get("method").and_then(|v| v.as_str()), Some("insert"));
    assert_eq!(params.get("tab").and_then(|v| v.as_str()), Some("0"));
    let chars = params.get("params").and_then(|v| v.get("chars")).and_then(|v| v.as_str());
    assert_eq!(chars, Some("a"));
}

#[test]
fn insert_has_the_text_the_core_expects() {
    assert_eq!(
        Command::Insert('a').encode(),
        r#"{"method":"edit","params":{"method":"insert","params":{"chars":"a"},"tab":"0"}}"#
    );
}

#[test]
fn every_character_comes_back_as_it_was_sent() {
    for c in ['a', '"', '\\', '/', ' ', '\u{0}', '\u{1}', '\n', '\t', '\u{1f}', '\u{7f}', 'é', '\u{2028}', '😀', '\u{10ffff}']
    {
        let text = Command::Insert(c).encode();
        assert!(!text.contains('\n'));
        let value = parsed(&text);
        let chars = value
            .get("params")
            .and_then(|v| v.get("params"))
            .and_then(|v| v.get("chars"))
            .and_then(|v| v.as_str())
            .map(|s| s.to_string());
        assert_eq!(chars, Some(c.to_string()));
    }
}

#[test]
fn escapes_what_json_cannot_hold_in_a_string() {
    assert!(Command::Insert('"').encode().contains(r#""chars":"\"""#));
    assert!(Command::Insert('\\').encode().contains(r#""chars":"\\""#));
    assert!(Command::Insert('\n').encode().contains(r#""chars":"\u000a""#));
    assert!(Command::Insert('\u{1f}').encode().contains(r#""chars":"\u001f""#));
    assert!(Command::Insert('\u{0}').encode().contains(r#""chars":"\u0000""#));
    assert!(Command::Insert(' ').encode().contains(r#""chars":" ""#));
}

#[test]
fn new_tab_has_the_text_the_core_expects() {
    assert_eq!(Command::NewTab.encode(), r#"{"id":0,"method":"new_tab","params":[]}"#);
}

#[test]
fn commands_without_parameters() {
    let cases = [
        (Command::InsertNewline, "insert_newline"),
        (Command::DeleteBackward, "delete_backward"),
        (Command::DeleteForward, "delete_forward"),
        (Command::MoveLeft, "move_left"),
        (Command::MoveRight, "move_right"),
        (Command::MoveUp, "move_up"),
        (Command::MoveDown, "move_down"),
    ];
    for (command, method) in cases {
        let expected = format!(
            r#"{{"method":"edit","params":{{"method":"{}","params":{{}},"tab":"0"}}}}"#,
            method
        );
        assert_eq!(command.encode(), expected);
    }
}

#[test]
fn scroll_carries_its_numbers_in_decimal() {
    assert_eq!(
        Command::Scroll { first_line: 0, line_count: 13 }.encode(),
        r#"{"method":"edit","params":{"method":"scroll","params":[0, 13],"tab":"0"}}"#
    );
    let text = Command::Scroll { first_line: 1090, line_count: u64::MAX }.encode();
    assert_eq!(
        text,
        r#"{"method":"edit","params":{"method":"scroll","params":[1090, 18446744073709551615],"tab":"0"}}"#
    );
    let value = parsed(&text);
    let params = value.get("params").and_then(|v| v.get("params")).unwrap();
    assert_eq!(params.get(0).and_then(|v| v.as_u64()), Some(1090));
    assert_eq!(params.get(1).and_then(|v| v.as_u64()), Some(u64::MAX));
}

#[test]
fn open_carries_the_file_name() {
    assert_eq!(
        Command::Open { filename: "src/main.rs".to_string() }.encode(),
        r#"{"method":"edit","params":{"method":"open","params":{"filename":"src/main.rs"},"tab":"0"}}"#
    );
    let name = "C:\\notes\\\"new\"\tfile\u{e9}.txt";
    let text = Command::Open { filename: name.to_string() }.encode();
    let value = parsed(&text);
    let filename = value
        .get("params")
        .and_then(|v| v.get("params"))
        .and_then(|v| v.get("filename"))
        .and_then(|v| v.as_str());
    assert_eq!(filename, Some(name));
    assert_eq!(Command::Open { filename: String::new() }.encode().matches("\"\"").count(), 1);
}

#[test]
fn a_line_is_the_text_and_a_line_feed() {
    for command in [
        Command::NewTab,
        Command::Insert('\n'),
        Command::MoveUp,
        Command::Scroll { first_line: 3, line_count: 4 },
        Command::Open { filename: "a\nb".to_string() },
    ] {
        let line = command.to_line();
        assert_eq!(line, format!("{}\n", command.encode()));
        assert_eq!(line.matches('\n').count(), 1);
    }
}

#[test]
fn keys_stand_for_their_commands() {
    assert_eq!(command_for_key(Key::Return), Some(Command::InsertNewline));
    assert_eq!(command_for_key(Key::Back), Some(Command::DeleteBackward));
    assert_eq!(command_for_key(Key::Delete), Some(Command::DeleteForward));
    assert_eq!(command_for_key(Key::Left), Some(Command::MoveLeft));
    assert_eq!(command_for_key(Key::Right), Some(Command::MoveRight));
    assert_eq!(command_for_key(Key::Up), Some(Command::MoveUp));
    assert_eq!(command_for_key(Key::Down), Some(Command::MoveDown));
    assert_eq!(command_for_key(Key::Other), None);
}

#[test]
fn typed_characters_are_inserted_unless_control_or_private() {
    assert_eq!(command_for_character('a'), Some(Command::Insert('a')));
    assert_eq!(command_for_character(' '), Some(Command::Insert(' ')));
    assert_eq!(command_for_character('~'), Some(Command::Insert('~')));
    assert_eq!(command_for_character('\u{a0}'), Some(Command::Insert('\u{a0}')));
    assert_eq!(command_for_character('\u{d7ff}'), Some(Command::Insert('\u{d7ff}')));
    assert_eq!(command_for_character('\u{f900}'), Some(Command::Insert('\u{f900}')));
    assert_eq!(command_for_character('😀'), Some(Command::Insert('😀')));
    for c in ['\u{0}', '\u{8}', '\r', '\u{1b}', '\u{1f}', '\u{7f}', '\u{80}', '\u{9f}'] {
        assert!(c.is_control());
        assert_eq!(command_for_character(c), None);
    }
    for c in ['\u{e000}', '\u{f700}', '\u{f8ff}'] {
        assert_eq!(command_for_character(c), None);
    }
}

#[test]
fn the_filter_agrees_with_the_control_codes_of_unicode() {
    let mut c = '\u{0}';
    loop {
        let private = ('\u{e000}'..='\u{f8ff}').contains(&c);
        assert_eq!(command_for_character(c).is_none(), c.is_control() || private);
        if c == '\u{3000}' {
            break;
        }
        c = char::from_u32(c as u32 + 1).unwrap();
    }
}
