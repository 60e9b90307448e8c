//! View updates sent by the editing core, and how they are decoded.
//!
//! An update is one JSON object. It may hold `lines`, an array of line
//! entries; `first_line`, the index of the first of them; and `scrollto`, an
//! array that starts with the index of a line to bring into view. Other
//! members are ignored. A line entry is an array: first the text of the line,
//! then any number of annotations, each an array that starts with a tag,
//! `["cursor", column]` or `["sel", start, end]`.

use crate::json::{find_member, member_value, parse_json, parsed_json, Json};
use vstd::prelude::*;

verus! {

/// Why a message of the editing core could not be decoded. Each of them ends
/// the session: after any of them the view can no longer be trusted to show
/// what the core holds.
#[derive(Clone, Copy, Debug, PartialEq, Eq, Structural)]
pub enum ProtocolDecodeError {
    /// The line is not JSON, or the document is not an object, or a part of
    /// it is not the array or string it has to be, or a selection ends before
    /// it starts.
    MalformedLine,
    /// An array is too short to hold an element that has to be there.
    MissingField,
    /// An annotation carries a tag other than `cursor` and `sel`.
    UnknownControlTag,
    /// A column or line index is not a non-negative integer of 64 bits.
    NotAnInteger,
}

/// A selected range of columns of one line. It never ends before it starts.
#[derive(Clone, Copy, Debug, PartialEq, Eq)]
pub struct Selection {
    start: u64,
    end: u64,
}

impl View for Selection {
    type V = (u64, u64);

    closed spec fn view(&self) -> (u64, u64) {
        (self.start, self.end)
    }
}

impl Selection {
    #[verifier::type_invariant]
    spec fn ordered(self) -> bool {
        self.start <= self.end
    }

    /// A selection from `start` to `end`, or `None` if `end` lies before
    /// `start`.
    pub fn new(start: u64, end: u64) -> (made: Option<Selection>)
        ensures
            match made {
                Some(selection) => start <= end && selection@ == (start, end),
                None => start > end,
            },
    {
        if start <= end {
            Some(Selection { start, end })
        } else {
            None
        }
    }

    /// The column where the selection starts.
    pub fn start(&self) -> (column: u64)
        ensures
            column == self@.0,
            column <= self@.1,
    {
        proof {
            use_type_invariant(self);
        }
        self.start
    }

    /// The column before which the selection ends.
    pub fn end(&self) -> (column: u64)
        ensures
            column == self@.1,
            self@.0 <= column,
    {
        proof {
            use_type_invariant(self);
        }
        self.end
    }
}

/// One line of the document as the view holds it.
#[derive(Clone, Debug, PartialEq, Eq)]
pub struct LineView {
    /// The characters of the line.
    pub text: String,
    /// The columns that hold a cursor, counted in characters.
    pub cursors: Vec<u64>,
    /// The selected ranges of the line.
    pub selections: Vec<Selection>,
}

/// What a [`LineView`] holds, as mathematical values.
pub struct LineModel {
    pub text: Seq<char>,
    pub cursors: Seq<u64>,
    pub selections: Seq<(u64, u64)>,
}

impl View for LineView {
    type V = LineModel;

    open spec fn view(&self) -> LineModel {
        LineModel {
            text: self.text@,
            cursors: self.cursors@,
            selections: Seq::new(self.selections@.len(), |i: int| self.selections@[i]@),
        }
    }
}

/// The models of a sequence of lines.
pub open spec fn line_models(lines: Seq<LineView>) -> Seq<LineModel> {
    Seq::new(lines.len(), |i: int| lines[i]@)
}

/// A decoded update: each part is `Some` if the message held it.
#[derive(Clone, Debug, PartialEq, Eq)]
pub struct UpdatePayload {
    /// The lines that replace those the view holds.
    pub lines: Option<Vec<LineView>>,
    /// The document index of the first of the lines the view holds.
    pub first_line: Option<u64>,
    /// The line to bring into view.
    pub scrollto: Option<u64>,
}

/// What an [`UpdatePayload`] holds, as mathematical values.
pub struct UpdateModel {
    pub lines: Option<Seq<LineModel>>,
    pub first_line: Option<u64>,
    pub scrollto: Option<u64>,
}

impl View for UpdatePayload {
    type V = UpdateModel;

    open spec fn view(&self) -> UpdateModel {
        UpdateModel {
            lines: match self.lines {
                Some(lines) => Some(line_models(lines@)),
                None => None,
            },
            first_line: self.first_line,
            scrollto: self.scrollto,
        }
    }
}

/// An annotation of a line.
#[derive(Clone, Copy, Debug, PartialEq, Eq)]
pub enum Control {
    Cursor(u64),
    Selection(u64, u64),
}

/// The integer that a JSON value stands for where the protocol asks for one.
pub open spec fn integer_of(value: Json) -> Result<u64, ProtocolDecodeError> {
    match value {
        Json::Number(Some(n)) => Ok(n),
        _ => Err(ProtocolDecodeError::NotAnInteger),
    }
}

/// The annotation that an element of a line entry stands for.
///
/// Elements after those that the tag asks for are ignored.
pub open spec fn control_of(entry: Json) -> Result<Control, ProtocolDecodeError> {
    match entry {
        Json::Array(parts) => {
            if parts@.len() < 1 {
                Err(ProtocolDecodeError::MissingField)
            } else {
                match parts@[0] {
                    Json::Text(tag) => {
                        if tag@ == "cursor"@ {
                            if parts@.len() < 2 {
                                Err(ProtocolDecodeError::MissingField)
                            } else {
                                match integer_of(parts@[1]) {
                                    Ok(column) => Ok(Control::Cursor(column)),
                                    Err(e) => Err(e),
                                }
                            }
                        } else if tag@ == "sel"@ {
                            if parts@.len() < 3 {
                                Err(ProtocolDecodeError::MissingField)
                            } else {
                                match (integer_of(parts@[1]), integer_of(parts@[2])) {
                                    (Ok(start), Ok(end)) => {
                                        if start <= end {
                                            Ok(Control::Selection(start, end))
                                        } else {
                                            Err(ProtocolDecodeError::MalformedLine)
                                        }
                                    },
                                    (Err(e), _) => Err(e),
                                    (_, Err(e)) => Err(e),
                                }
                            }
                        } else {
                            Err(ProtocolDecodeError::UnknownControlTag)
                        }
                    },
                    _ => Err(ProtocolDecodeError::MalformedLine),
                }
            }
        },
        _ => Err(ProtocolDecodeError::MalformedLine),
    }
}

/// Whether two strings hold the same characters.
fn same_text(a: &str, b: &str) -> (same: bool)
    ensures
        same == (a@ == b@),
{
    String::from_str(a) == String::from_str(b)
}

fn decode_integer(value: &Json) -> (decoded: Result<u64, ProtocolDecodeError>)
    ensures
        decoded == integer_of(*value),
{
    match value {
        Json::Number(Some(n)) => Ok(*n),
        _ => Err(ProtocolDecodeError::NotAnInteger),
    }
}

fn decode_control(entry: &Json) -> (decoded: Result<Control, ProtocolDecodeError>)
    ensures
        decoded == control_of(*entry),
{
    match entry {
        Json::Array(parts) => {
            if parts.len() < 1 {
                return Err(ProtocolDecodeError::MissingField);
            }
            match &parts[0] {
                Json::Text(tag) => {
                    if same_text(tag.as_str(), "cursor") {
                        if parts.len() < 2 {
                            return Err(ProtocolDecodeError::MissingField);
                        }
                        match decode_integer(&parts[1]) {
                            Ok(column) => Ok(Control::Cursor(column)),
                            Err(e) => Err(e),
                        }
                    } else if same_text(tag.as_str(), "sel") {
                        if parts.len() < 3 {
                            return Err(ProtocolDecodeError::MissingField);
                        }
                        let start = match decode_integer(&parts[1]) {
                            Ok(start) => start,
                            Err(e) => { return Err(e); },
                        };
                        let end = match decode_integer(&parts[2]) {
                            Ok(end) => end,
                            Err(e) => { return Err(e); },
                        };
                        if start <= end {
                            Ok(Control::Selection(start, end))
                        } else {
                            Err(ProtocolDecodeError::MalformedLine)
                        }
                    } else {
                        Err(ProtocolDecodeError::UnknownControlTag)
                    }
                },
                _ => Err(ProtocolDecodeError::MalformedLine),
            }
        },
        _ => Err(ProtocolDecodeError::MalformedLine),
    }
}

/// The line that a text and the annotations after it stand for: each
/// annotation in turn adds its cursor or its selection, and the first one
/// that is no annotation decides the error.
pub open spec fn annotated_line(text: Seq<char>, controls: Seq<Json>) -> Result<
    LineModel,
    ProtocolDecodeError,
>
    decreases controls.len(),
{
    if controls.len() == 0 {
        Ok(LineModel { text, cursors: Seq::empty(), selections: Seq::empty() })
    } else {
        match annotated_line(text, controls.drop_last()) {
            Err(e) => Err(e),
            Ok(line) => match control_of(controls.last()) {
                Err(e) => Err(e),
                Ok(Control::Cursor(column)) => Ok(
                    LineModel { cursors: line.cursors.push(column), ..line },
                ),
                Ok(Control::Selection(start, end)) => Ok(
                    LineModel { selections: line.selections.push((start, end)), ..line },
                ),
            },
        }
    }
}

/// The line that a line entry stands for.
pub open spec fn line_of(entry: Json) -> Result<LineModel, ProtocolDecodeError> {
    match entry {
        Json::Array(parts) => {
            if parts@.len() < 1 {
                Err(ProtocolDecodeError::MissingField)
            } else {
                match parts@[0] {
                    Json::Text(text) => annotated_line(text@, parts@.drop_first()),
                    _ => Err(ProtocolDecodeError::MalformedLine),
                }
            }
        },
        _ => Err(ProtocolDecodeError::MalformedLine),
    }
}

/// The lines that a sequence of line entries stands for; the first entry that
/// is no line decides the error.
pub open spec fn lines_of_entries(entries: Seq<Json>) -> Result<
    Seq<LineModel>,
    ProtocolDecodeError,
>
    decreases entries.len(),
{
    if entries.len() == 0 {
        Ok(Seq::empty())
    } else {
        match lines_of_entries(entries.drop_last()) {
            Err(e) => Err(e),
            Ok(lines) => match line_of(entries.last()) {
                Err(e) => Err(e),
                Ok(line) => Ok(lines.push(line)),
            },
        }
    }
}

/// The lines that the value of `lines` stands for.
pub open spec fn lines_of(value: Json) -> Result<Seq<LineModel>, ProtocolDecodeError> {
    match value {
        Json::Array(entries) => lines_of_entries(entries@),
        _ => Err(ProtocolDecodeError::MalformedLine),
    }
}

/// The line index that the value of `scrollto` stands for: the first element
/// of the array.
pub open spec fn scroll_target_of(value: Json) -> Result<u64, ProtocolDecodeError> {
    match value {
        Json::Array(parts) => {
            if parts@.len() < 1 {
                Err(ProtocolDecodeError::MissingField)
            } else {
                integer_of(parts@[0])
            }
        },
        _ => Err(ProtocolDecodeError::MalformedLine),
    }
}

/// What a member that may be missing stands for, given what its value stands
/// for when it is there.
pub open spec fn optional<T>(
    member: Option<Json>,
    read: spec_fn(Json) -> Result<T, ProtocolDecodeError>,
) -> Result<Option<T>, ProtocolDecodeError> {
    match member {
        None => Ok(None),
        Some(value) => match read(value) {
            Ok(decoded) => Ok(Some(decoded)),
            Err(e) => Err(e),
        },
    }
}

/// The update that a JSON document stands for.
///
/// The document has to be an object. Its members `lines`, `first_line` and
/// `scrollto` are read in this order, each only if it is there, and the first
/// that cannot be read decides the error. All other members are ignored.
pub open spec fn update_of(document: Json) -> Result<UpdateModel, ProtocolDecodeError> {
    match document {
        Json::Object(members) => {
            match optional(member_value(members@, "lines"@), |v: Json| lines_of(v)) {
                Err(e) => Err(e),
                Ok(lines) => match optional(
                    member_value(members@, "first_line"@),
                    |v: Json| integer_of(v),
                ) {
                    Err(e) => Err(e),
                    Ok(first_line) => match optional(
                        member_value(members@, "scrollto"@),
                        |v: Json| scroll_target_of(v),
                    ) {
                        Err(e) => Err(e),
                        Ok(scrollto) => Ok(UpdateModel { lines, first_line, scrollto }),
                    },
                },
            }
        },
        _ => Err(ProtocolDecodeError::MalformedLine),
    }
}

/// The update that a line of text from the editing core stands for: that of
/// the JSON document it holds, if it holds one.
pub open spec fn update_of_message(text: Seq<char>) -> Result<UpdateModel, ProtocolDecodeError> {
    match parsed_json(text) {
        Some(document) => update_of(document),
        None => Err(ProtocolDecodeError::MalformedLine),
    }
}

/// Whether a decoded value is what the model says it has to be.
pub open spec fn decodes_to<T: View>(
    decoded: Result<T, ProtocolDecodeError>,
    expected: Result<T::V, ProtocolDecodeError>,
) -> bool {
    match decoded {
        Ok(value) => expected == Ok::<T::V, ProtocolDecodeError>(value@),
        Err(e) => expected == Err::<T::V, ProtocolDecodeError>(e),
    }
}

/// An error among the first annotations of a line is the error of the line.
proof fn lemma_annotation_error_stays(text: Seq<char>, controls: Seq<Json>, count: int)
    requires
        0 <= count <= controls.len(),
        annotated_line(text, controls.take(count)) is Err,
    ensures
        annotated_line(text, controls) == annotated_line(text, controls.take(count)),
    decreases controls.len() - count,
{
    if count < controls.len() {
        assert(controls.take(count + 1).drop_last() == controls.take(count));
        lemma_annotation_error_stays(text, controls, count + 1);
    } else {
        assert(controls.take(count) == controls);
    }
}

/// An error among the first entries of `lines` is the error of the whole.
proof fn lemma_entry_error_stays(entries: Seq<Json>, count: int)
    requires
        0 <= count <= entries.len(),
        lines_of_entries(entries.take(count)) is Err,
    ensures
        lines_of_entries(entries) == lines_of_entries(entries.take(count)),
    decreases entries.len() - count,
{
    if count < entries.len() {
        assert(entries.take(count + 1).drop_last() == entries.take(count));
        lemma_entry_error_stays(entries, count + 1);
    } else {
        assert(entries.take(count) == entries);
    }
}

/// A line with an annotation that cannot be read cannot be read.
proof fn lemma_annotation_error_fails_line(text: Seq<char>, controls: Seq<Json>, at: int)
    requires
        0 <= at < controls.len(),
        control_of(controls[at]) is Err,
    ensures
        annotated_line(text, controls) is Err,
{
    assert(controls.take(at + 1).last() == controls[at]);
    lemma_annotation_error_stays(text, controls, at + 1);
}

/// A run of lines with a line that cannot be read cannot be read.
proof fn lemma_entry_error_fails_lines(entries: Seq<Json>, at: int)
    requires
        0 <= at < entries.len(),
        line_of(entries[at]) is Err,
    ensures
        lines_of_entries(entries) is Err,
{
    assert(entries.take(at + 1).last() == entries[at]);
    lemma_entry_error_stays(entries, at + 1);
}

/// The tag of the annotation at `annotation` of the line entry at `line`
/// among the `lines` of a document, if the document holds such a tag.
pub open spec fn tag_at(document: Json, line: int, annotation: int) -> Option<Seq<char>> {
    match document {
        Json::Object(members) => match member_value(members@, "lines"@) {
            Some(Json::Array(entries)) => {
                if 0 <= line < entries@.len() {
                    match entries@[line] {
                        Json::Array(parts) => {
                            if 1 <= annotation < parts@.len() {
                                match parts@[annotation] {
                                    Json::Array(control) => {
                                        if control@.len() >= 1 {
                                            match control@[0] {
                                                Json::Text(tag) => Some(tag@),
                                                _ => None,
                                            }
                                        } else {
                                            None
                                        }
                                    },
                                    _ => None,
                                }
                            } else {
                                None
                            }
                        },
                        _ => None,
                    }
                } else {
                    None
                }
            },
            _ => None,
        },
        _ => None,
    }
}

/// An annotation with a tag that the view does not know is never skipped:
/// wherever among the lines of an update it stands, the update as a whole
/// fails to decode.
pub proof fn lemma_unknown_tag_is_never_skipped(document: Json, line: int, annotation: int)
    requires
        tag_at(document, line, annotation) is Some,
        tag_at(document, line, annotation) != Some("cursor"@),
        tag_at(document, line, annotation) != Some("sel"@),
    ensures
        update_of(document) is Err,
{
    let members = document->Object_0;
    let entries = member_value(members@, "lines"@)->0->Array_0;
    let parts = entries@[line]->Array_0;
    assert(control_of(parts@[annotation]) is Err);
    if parts@[0] is Text {
        let text = parts@[0]->Text_0;
        assert(parts@.drop_first()[annotation - 1] == parts@[annotation]);
        lemma_annotation_error_fails_line(text@, parts@.drop_first(), annotation - 1);
    }
    assert(line_of(entries@[line]) is Err);
    lemma_entry_error_fails_lines(entries@, line);
}

/// Decodes one line entry.
pub fn decode_line(entry: &Json) -> (decoded: Result<LineView, ProtocolDecodeError>)
    ensures
        decodes_to(decoded, line_of(*entry)),
{
    let parts = match entry {
        Json::Array(parts) => parts,
        _ => { return Err(ProtocolDecodeError::MalformedLine); },
    };
    if parts.len() < 1 {
        return Err(ProtocolDecodeError::MissingField);
    }
    let text = match &parts[0] {
        Json::Text(text) => text.clone(),
        _ => { return Err(ProtocolDecodeError::MalformedLine); },
    };
    let mut cursors: Vec<u64> = Vec::new();
    let mut selections: Vec<Selection> = Vec::new();
    let ghost controls = parts@.drop_first();
    let mut i: usize = 1;
    assert(controls.take(0) == Seq::<Json>::empty());
    assert(Seq::new(selections@.len(), |k: int| selections@[k]@) == Seq::<(u64, u64)>::empty());
    while i < parts.len()
        invariant
            1 <= i <= parts.len(),
            controls == parts@.drop_first(),
            line_of(*entry) == annotated_line(text@, controls),
            annotated_line(text@, controls.take(i - 1)) == Ok::<LineModel, ProtocolDecodeError>(
                LineModel {
                    text: text@,
                    cursors: cursors@,
                    selections: Seq::new(selections@.len(), |k: int| selections@[k]@),
                },
            ),
        decreases parts.len() - i,
    {
        let ghost before = Seq::new(selections@.len(), |k: int| selections@[k]@);
        proof {
            assert(controls.take(i as int).drop_last() == controls.take(i - 1));
            assert(controls.take(i as int).last() == parts@[i as int]);
        }
        match decode_control(&parts[i]) {
            Err(e) => {
                proof {
                    assert(annotated_line(text@, controls.take(i as int)) == Err::<
                        LineModel,
                        ProtocolDecodeError,
                    >(e));
                    lemma_annotation_error_stays(text@, controls, i as int);
                }
                return Err(e);
            },
            Ok(Control::Cursor(column)) => {
                cursors.push(column);
            },
            Ok(Control::Selection(start, end)) => {
                match Selection::new(start, end) {
                    Some(selection) => {
                        selections.push(selection);
                        assert(Seq::new(selections@.len(), |k: int| selections@[k]@)
                            == before.push((start, end)));
                    },
                    None => {
                        proof {
                            assert(annotated_line(text@, controls.take(i as int)) == Err::<
                                LineModel,
                                ProtocolDecodeError,
                            >(ProtocolDecodeError::MalformedLine));
                            lemma_annotation_error_stays(text@, controls, i as int);
                        }
                        return Err(ProtocolDecodeError::MalformedLine);
                    },
                }
            },
        }
        i += 1;
    }
    assert(controls.take(i - 1) == controls);
    Ok(LineView { text, cursors, selections })
}

/// Decodes the value of `lines`.
pub fn decode_lines(value: &Json) -> (decoded: Result<Vec<LineView>, ProtocolDecodeError>)
    ensures
        match decoded {
            Ok(lines) => lines_of(*value) == Ok::<Seq<LineModel>, ProtocolDecodeError>(
                line_models(lines@),
            ),
            Err(e) => lines_of(*value) == Err::<Seq<LineModel>, ProtocolDecodeError>(e),
        },
{
    let entries = match value {
        Json::Array(entries) => entries,
        _ => { return Err(ProtocolDecodeError::MalformedLine); },
    };
    let mut lines: Vec<LineView> = Vec::new();
    let mut i: usize = 0;
    assert(entries@.take(0) == Seq::<Json>::empty());
    assert(line_models(lines@) == Seq::<LineModel>::empty());
    while i < entries.len()
        invariant
            i <= entries.len(),
            lines_of(*value) == lines_of_entries(entries@),
            lines_of_entries(entries@.take(i as int)) == Ok::<Seq<LineModel>, ProtocolDecodeError>(
                line_models(lines@),
            ),
        decreases entries.len() - i,
    {
        let ghost before = line_models(lines@);
        proof {
            assert(entries@.take(i + 1).drop_last() == entries@.take(i as int));
            assert(entries@.take(i + 1).last() == entries@[i as int]);
        }
        match decode_line(&entries[i]) {
            Err(e) => {
                proof {
                    assert(lines_of_entries(entries@.take(i + 1)) == Err::<
                        Seq<LineModel>,
                        ProtocolDecodeError,
                    >(e));
                    lemma_entry_error_stays(entries@, i + 1);
                }
                return Err(e);
            },
            Ok(line) => {
                lines.push(line);
                assert(line_models(lines@) == before.push(line@));
            },
        }
        i += 1;
    }
    assert(entries@.take(i as int) == entries@);
    Ok(lines)
}

/// Decodes the value of `scrollto`.
pub fn decode_scroll_target(value: &Json) -> (decoded: Result<u64, ProtocolDecodeError>)
    ensures
        decoded == scroll_target_of(*value),
{
    match value {
        Json::Array(parts) => {
            if parts.len() < 1 {
                Err(ProtocolDecodeError::MissingField)
            } else {
                decode_integer(&parts[0])
            }
        },
        _ => Err(ProtocolDecodeError::MalformedLine),
    }
}

/// Decodes an update from the JSON document of a message.
///
/// Nothing of the view is touched here: an update is decoded as a whole, or
/// not at all.
pub fn decode_update(document: &Json) -> (decoded: Result<UpdatePayload, ProtocolDecodeError>)
    ensures
        decodes_to(decoded, update_of(*document)),
{
    let members = match document {
        Json::Object(members) => members,
        _ => { return Err(ProtocolDecodeError::MalformedLine); },
    };
    let lines = match find_member(members, "lines") {
        None => None,
        Some(value) => match decode_lines(value) {
            Ok(lines) => Some(lines),
            Err(e) => { return Err(e); },
        },
    };
    let first_line = match find_member(members, "first_line") {
        None => None,
        Some(value) => match decode_integer(value) {
            Ok(index) => Some(index),
            Err(e) => { return Err(e); },
        },
    };
    let scrollto = match find_member(members, "scrollto") {
        None => None,
        Some(value) => match decode_scroll_target(value) {
            Ok(index) => Some(index),
            Err(e) => { return Err(e); },
        },
    };
    Ok(UpdatePayload { lines, first_line, scrollto })
}

/// Decodes one line of text received from the editing core.
pub fn decode_message(text: &str) -> (decoded: Result<UpdatePayload, ProtocolDecodeError>)
    ensures
        decodes_to(decoded, update_of_message(text@)),
{
    match parse_json(text) {
        Some(document) => decode_update(&document),
        None => Err(ProtocolDecodeError::MalformedLine),
    }
}

} // verus!
