use text_edit::json::{find_member, Json, Member};
use text_edit::update::{
    decode_line, decode_lines, decode_message, decode_scroll_target, decode_update, LineView,
    ProtocolDecodeError, Selection, UpdatePayload,
};

fn text(s: &str) -> Json {
    Json::Text(s.to_string())
}

fn number(n: u64) -> Json {
    Json::Number(Some(n))
}

fn object(members: Vec<(&str, Json)>) -> Json {
    Json::Object(
        members.into_iter().map(|(key, value)| Member { key: key.to_string(), value }).collect(),
    )
}

#[test]
fn finds_the_first_member_with_the_key() {
    let members = vec![
        Member { key: "a".to_string(), value: Json::Bool(true) },
        Member { key: "b".to_string(), value: Json::Null },
        Member { key: "b".to_string(), value: Json::Bool(false) },
    ];
    assert!(matches!(find_member(&members, "a"), Some(Json::Bool(true))));
    assert!(matches!(find_member(&members, "b"), Some(Json::Null)));
    assert!(find_member(&members, "c").is_none());
}

#[test]
fn decodes_a_full_update_from_text() {
    let message =
        r#"{"lines":[["hello",["cursor",2],["sel",1,3]],["",["cursor",0]]],"first_line":4,"scrollto":[7,0]}"#;
    let payload = decode_message(message).unwrap();
    assert_eq!(
        payload,
        UpdatePayload {
            lines: Some(vec![
                LineView {
                    text: "hello".to_string(),
                    cursors: vec![2],
                    selections: vec![Selection::new(1, 3).unwrap()],
                },
                LineView { text: "".to_string(), cursors: vec![0], selections: vec![] },
            ]),
            first_line: Some(4),
            scrollto: Some(7),
        }
    );
}

#[test]
fn an_empty_object_is_an_empty_update() {
    let payload = decode_message("{}").unwrap();
    assert_eq!(payload, UpdatePayload { lines: None, first_line: None, scrollto: None });
}

#[test]
fn unknown_members_are_ignored() {
    let payload = decode_message(r#"{"height":12,"first_line":3,"theme":{"lines":"x"}}"#).unwrap();
    assert_eq!(payload, UpdatePayload { lines: None, first_line: Some(3), scrollto: None });
}

#[test]
fn members_nested_in_other_members_are_not_read() {
    let payload = decode_message(r#"{"params":{"lines":[["a"]],"scrollto":"x"}}"#).unwrap();
    assert_eq!(payload, UpdatePayload { lines: None, first_line: None, scrollto: None });
}

#[test]
fn an_empty_lines_array_replaces_the_lines_with_none() {
    let payload = decode_message(r#"{"lines":[]}"#).unwrap();
    assert_eq!(payload.lines, Some(vec![]));
}

#[test]
fn keeps_the_order_of_cursors_and_selections() {
    let message = r#"{"lines":[["abcdef",["sel",4,5],["cursor",5],["sel",0,0],["cursor",1]]]}"#;
    let lines = decode_message(message).unwrap().lines.unwrap();
    assert_eq!(lines.len(), 1);
    assert_eq!(lines[0].text, "abcdef");
    assert_eq!(lines[0].cursors, vec![5, 1]);
    assert_eq!(lines[0].selections.len(), 2);
    assert_eq!((lines[0].selections[0].start(), lines[0].selections[0].end()), (4, 5));
    assert_eq!((lines[0].selections[1].start(), lines[0].selections[1].end()), (0, 0));
}

#[test]
fn keeps_the_characters_of_a_line_as_they_are() {
    let lines = decode_message(r#"{"lines":[["  tab\there é\"  "]]}"#).unwrap().lines.unwrap();
    assert_eq!(lines[0].text, "  tab\there \u{e9}\"  ");
}

#[test]
fn elements_after_the_columns_of_an_annotation_are_ignored() {
    let lines =
        decode_message(r#"{"lines":[["ab",["cursor",1,"x"],["sel",0,1,9]]]}"#).unwrap().lines.unwrap();
    assert_eq!(lines[0].cursors, vec![1]);
    assert_eq!(lines[0].selections, vec![Selection::new(0, 1).unwrap()]);
}

#[test]
fn malformed_control_tag_ends_the_session() {
    let decoded = decode_message(r#"{"lines":[["abc",["glow",1]]]}"#);
    assert_eq!(decoded, Err(ProtocolDecodeError::UnknownControlTag));
}

#[test]
fn the_foreground_tag_is_unknown_too() {
    let decoded = decode_message(r#"{"lines":[["abc",["fg",1,2]]]}"#);
    assert_eq!(decoded, Err(ProtocolDecodeError::UnknownControlTag));
}

#[test]
fn text_that_is_no_json_is_a_malformed_line() {
    assert_eq!(decode_message(r#"{"lines":"#), Err(ProtocolDecodeError::MalformedLine));
    assert_eq!(decode_message(""), Err(ProtocolDecodeError::MalformedLine));
    assert_eq!(decode_message("{} {}"), Err(ProtocolDecodeError::MalformedLine));
}

#[test]
fn a_document_that_is_no_object_is_a_malformed_line() {
    assert_eq!(decode_message("[1,2]"), Err(ProtocolDecodeError::MalformedLine));
    assert_eq!(decode_message("42"), Err(ProtocolDecodeError::MalformedLine));
    assert_eq!(decode_message("null"), Err(ProtocolDecodeError::MalformedLine));
}

#[test]
fn parts_of_the_wrong_shape_are_a_malformed_line() {
    assert_eq!(decode_message(r#"{"lines":7}"#), Err(ProtocolDecodeError::MalformedLine));
    assert_eq!(decode_message(r#"{"lines":["abc"]}"#), Err(ProtocolDecodeError::MalformedLine));
    assert_eq!(decode_message(r#"{"lines":[[7]]}"#), Err(ProtocolDecodeError::MalformedLine));
    assert_eq!(
        decode_message(r#"{"lines":[["abc","cursor"]]}"#),
        Err(ProtocolDecodeError::MalformedLine)
    );
    assert_eq!(
        decode_message(r#"{"lines":[["abc",[1,"cursor"]]]}"#),
        Err(ProtocolDecodeError::MalformedLine)
    );
    assert_eq!(decode_message(r#"{"scrollto":3}"#), Err(ProtocolDecodeError::MalformedLine));
}

#[test]
fn a_selection_that_ends_before_it_starts_is_a_malformed_line() {
    assert_eq!(
        decode_message(r#"{"lines":[["abc",["sel",3,1]]]}"#),
        Err(ProtocolDecodeError::MalformedLine)
    );
    assert!(Selection::new(3, 1).is_none());
    let selection = Selection::new(1, 3).unwrap();
    assert_eq!((selection.start(), selection.end()), (1, 3));
}

#[test]
fn arrays_that_are_too_short_miss_a_field() {
    assert_eq!(decode_message(r#"{"lines":[[]]}"#), Err(ProtocolDecodeError::MissingField));
    assert_eq!(decode_message(r#"{"lines":[["abc",[]]]}"#), Err(ProtocolDecodeError::MissingField));
    assert_eq!(
        decode_message(r#"{"lines":[["abc",["cursor"]]]}"#),
        Err(ProtocolDecodeError::MissingField)
    );
    assert_eq!(
        decode_message(r#"{"lines":[["abc",["sel",1]]]}"#),
        Err(ProtocolDecodeError::MissingField)
    );
    assert_eq!(decode_message(r#"{"scrollto":[]}"#), Err(ProtocolDecodeError::MissingField));
}

#[test]
fn numbers_that_are_no_index_are_not_an_integer() {
    assert_eq!(decode_message(r#"{"first_line":-1}"#), Err(ProtocolDecodeError::NotAnInteger));
    assert_eq!(decode_message(r#"{"first_line":1.5}"#), Err(ProtocolDecodeError::NotAnInteger));
    assert_eq!(decode_message(r#"{"first_line":"1"}"#), Err(ProtocolDecodeError::NotAnInteger));
    assert_eq!(
        decode_message(r#"{"first_line":18446744073709551616}"#),
        Err(ProtocolDecodeError::NotAnInteger)
    );
    assert_eq!(
        decode_message(r#"{"lines":[["abc",["cursor",null]]]}"#),
        Err(ProtocolDecodeError::NotAnInteger)
    );
    assert_eq!(
        decode_message(r#"{"lines":[["abc",["sel",0,"2"]]]}"#),
        Err(ProtocolDecodeError::NotAnInteger)
    );
    assert_eq!(decode_message(r#"{"scrollto":[true]}"#), Err(ProtocolDecodeError::NotAnInteger));
}

#[test]
fn the_largest_index_is_an_integer() {
    let payload = decode_message(r#"{"first_line":18446744073709551615}"#).unwrap();
    assert_eq!(payload.first_line, Some(u64::MAX));
}

#[test]
fn the_first_error_in_reading_order_decides() {
    // `lines` is read before `first_line`, whatever their order in the text.
    assert_eq!(
        decode_message(r#"{"first_line":-1,"lines":[["a",["glow",1]]]}"#),
        Err(ProtocolDecodeError::UnknownControlTag)
    );
    // Within a line, the first annotation that fails decides.
    assert_eq!(
        decode_message(r#"{"lines":[["a",["cursor"],["glow",1]]]}"#),
        Err(ProtocolDecodeError::MissingField)
    );
    // Among the lines, the first line that fails decides.
    assert_eq!(
        decode_message(r#"{"lines":[["a",["sel",2,1]],["b",["glow",1]]]}"#),
        Err(ProtocolDecodeError::MalformedLine)
    );
    // The start of a selection is read before its end.
    assert_eq!(
        decode_message(r#"{"lines":[["a",["sel","x",[]]]]}"#),
        Err(ProtocolDecodeError::NotAnInteger)
    );
}

#[test]
fn decodes_a_document_given_as_a_tree() {
    let document = object(vec![
        (
            "lines",
            Json::Array(vec![Json::Array(vec![
                text("xy"),
                Json::Array(vec![text("cursor"), number(2)]),
            ])]),
        ),
        ("scrollto", Json::Array(vec![number(9), number(0)])),
    ]);
    let payload = decode_update(&document).unwrap();
    assert_eq!(
        payload,
        UpdatePayload {
            lines: Some(vec![LineView {
                text: "xy".to_string(),
                cursors: vec![2],
                selections: vec![],
            }]),
            first_line: None,
            scrollto: Some(9),
        }
    );
}

#[test]
fn a_number_that_is_no_unsigned_integer_is_refused_in_a_tree() {
    let document = object(vec![("first_line", Json::Number(None))]);
    assert_eq!(decode_update(&document), Err(ProtocolDecodeError::NotAnInteger));
}

#[test]
fn decodes_single_parts() {
    let entry = Json::Array(vec![text("abc"), Json::Array(vec![text("sel"), number(0), number(3)])]);
    let line = decode_line(&entry).unwrap();
    assert_eq!(line.text, "abc");
    assert!(line.cursors.is_empty());
    assert_eq!(line.selections, vec![Selection::new(0, 3).unwrap()]);
    assert_eq!(decode_line(&text("abc")), Err(ProtocolDecodeError::MalformedLine));
    assert_eq!(decode_lines(&Json::Array(vec![])), Ok(vec![]));
    assert_eq!(decode_lines(&Json::Null), Err(ProtocolDecodeError::MalformedLine));
    assert_eq!(decode_scroll_target(&Json::Array(vec![number(5)])), Ok(5));
    assert_eq!(decode_scroll_target(&Json::Bool(true)), Err(ProtocolDecodeError::MalformedLine));
}
