//! Commands for the editing core, and the text that carries them.
//!
//! A command travels as one JSON object on a line of its own. Editing
//! commands go to tab `"0"`, the tab that [`Command::NewTab`] opens at the
//! start of a session.

use vstd::prelude::*;

verus! {

/// What the view can ask of the editing core.
#[derive(Clone, Debug, PartialEq, Eq)]
pub enum Command {
    /// Open the tab that all other commands address.
    NewTab,
    /// Insert a character at the cursor.
    Insert(char),
    InsertNewline,
    DeleteBackward,
    DeleteForward,
    MoveLeft,
    MoveRight,
    MoveUp,
    MoveDown,
    /// Tell the core which lines are visible.
    Scroll { first_line: u64, line_count: u64 },
    /// Open a file in the tab.
    Open { filename: String },
}

/// The digits of numbers in base ten and sixteen.
pub open spec fn digits() -> Seq<char> {
    seq!['0', '1', '2', '3', '4', '5', '6', '7', '8', '9', 'a', 'b', 'c', 'd', 'e', 'f']
}

/// A number in decimal notation.
pub open spec fn decimal(n: nat) -> Seq<char>
    decreases n,
{
    if n < 10 {
        seq![digits()[n as int]]
    } else {
        decimal(n / 10).push(digits()[(n % 10) as int])
    }
}

/// A character as it stands inside a JSON string: a quotation mark and a
/// backslash behind a backslash, a control character below U+0020 as `\u`
/// and four hexadecimal digits, any other character as itself.
pub open spec fn escaped_char(c: char) -> Seq<char> {
    if c == '"' {
        seq!['\\', '"']
    } else if c == '\\' {
        seq!['\\', '\\']
    } else if (c as u32) < 0x20 {
        seq!['\\', 'u', '0', '0', digits()[c as int / 16], digits()[c as int % 16]]
    } else {
        seq![c]
    }
}

/// A text as it stands inside a JSON string.
pub open spec fn escaped(text: Seq<char>) -> Seq<char>
    decreases text.len(),
{
    if text.len() == 0 {
        Seq::empty()
    } else {
        escaped(text.drop_last()) + escaped_char(text.last())
    }
}

/// The text of an editing command with the given method and parameters.
pub open spec fn edit_text(method: Seq<char>, params: Seq<char>) -> Seq<char> {
    "{\"method\":\"edit\",\"params\":{\"method\":\""@ + method + "\",\"params\":"@ + params
        + ",\"tab\":\"0\"}}"@
}

/// The text that carries a command, without the end of the line.
pub open spec fn wire_text(command: Command) -> Seq<char> {
    match command {
        Command::NewTab => "{\"id\":0,\"method\":\"new_tab\",\"params\":[]}"@,
        Command::Insert(c) => edit_text(
            "insert"@,
            "{\"chars\":\""@ + escaped_char(c) + "\"}"@,
        ),
        Command::InsertNewline => edit_text("insert_newline"@, "{}"@),
        Command::DeleteBackward => edit_text("delete_backward"@, "{}"@),
        Command::DeleteForward => edit_text("delete_forward"@, "{}"@),
        Command::MoveLeft => edit_text("move_left"@, "{}"@),
        Command::MoveRight => edit_text("move_right"@, "{}"@),
        Command::MoveUp => edit_text("move_up"@, "{}"@),
        Command::MoveDown => edit_text("move_down"@, "{}"@),
        Command::Scroll { first_line, line_count } => edit_text(
            "scroll"@,
            "["@ + decimal(first_line as nat) + ", "@ + decimal(line_count as nat) + "]"@,
        ),
        Command::Open { filename } => edit_text(
            "open"@,
            "{\"filename\":\""@ + escaped(filename@) + "\"}"@,
        ),
    }
}

/// The line that carries a command: its text and a line feed.
pub open spec fn wire_line(command: Command) -> Seq<char> {
    wire_text(command).push('\n')
}

/// `String::push` appends the character to the string.
pub assume_specification[ String::push ](text: &mut String, c: char)
    ensures
        final(text)@ == old(text)@.push(c),
;

/// The digit for a value below sixteen.
fn digit(value: u32) -> (c: char)
    requires
        value < 16,
    ensures
        c == digits()[value as int],
{
    match value {
        0 => '0',
        1 => '1',
        2 => '2',
        3 => '3',
        4 => '4',
        5 => '5',
        6 => '6',
        7 => '7',
        8 => '8',
        9 => '9',
        10 => 'a',
        11 => 'b',
        12 => 'c',
        13 => 'd',
        14 => 'e',
        _ => 'f',
    }
}

/// Appends a number in decimal notation.
fn push_decimal(out: &mut String, n: u64)
    ensures
        final(out)@ == old(out)@ + decimal(n as nat),
    decreases n,
{
    if n >= 10 {
        push_decimal(out, n / 10);
    }
    out.push(digit((n % 10) as u32));
    assert(final(out)@ =~= old(out)@ + decimal(n as nat));
}

/// Appends a character as it stands inside a JSON string.
fn push_escaped_char(out: &mut String, c: char)
    ensures
        final(out)@ == old(out)@ + escaped_char(c),
{
    if c == '"' {
        out.push('\\');
        out.push('"');
    } else if c == '\\' {
        out.push('\\');
        out.push('\\');
    } else if (c as u32) < 0x20 {
        out.push('\\');
        out.push('u');
        out.push('0');
        out.push('0');
        out.push(digit(c as u32 / 16));
        out.push(digit(c as u32 % 16));
    } else {
        out.push(c);
    }
    assert(final(out)@ =~= old(out)@ + escaped_char(c));
}

/// Appends a text as it stands inside a JSON string.
fn push_escaped(out: &mut String, text: &str)
    ensures
        final(out)@ == old(out)@ + escaped(text@),
{
    let count = text.unicode_len();
    let mut i: usize = 0;
    assert(text@.take(0) =~= Seq::<char>::empty());
    assert(out@ =~= old(out)@ + escaped(text@.take(0)));
    while i < count
        invariant
            i <= count,
            count == text@.len(),
            out@ == old(out)@ + escaped(text@.take(i as int)),
        decreases count - i,
    {
        let c = text.get_char(i);
        let ghost before = out@;
        push_escaped_char(out, c);
        proof {
            assert(text@.take(i + 1).drop_last() =~= text@.take(i as int));
            assert(text@.take(i + 1).last() == c);
            assert(out@ =~= old(out)@ + escaped(text@.take(i + 1)));
        }
        i += 1;
    }
    assert(text@.take(i as int) =~= text@);
}

/// Builds the text of an editing command from its method and parameters.
fn edit_command(method: &str, params: &str) -> (text: String)
    ensures
        text@ == edit_text(method@, params@),
{
    let mut text = String::from_str("{\"method\":\"edit\",\"params\":{\"method\":\"");
    text.append(method);
    text.append("\",\"params\":");
    text.append(params);
    text.append(",\"tab\":\"0\"}}");
    text
}

impl Command {
    /// The text that carries the command, without the end of the line.
    pub fn encode(&self) -> (text: String)
        ensures
            text@ == wire_text(*self),
    {
        match self {
            Command::NewTab => String::from_str("{\"id\":0,\"method\":\"new_tab\",\"params\":[]}"),
            Command::Insert(c) => {
                let mut params = String::from_str("{\"chars\":\"");
                push_escaped_char(&mut params, *c);
                params.append("\"}");
                edit_command("insert", params.as_str())
            },
            Command::InsertNewline => edit_command("insert_newline", "{}"),
            Command::DeleteBackward => edit_command("delete_backward", "{}"),
            Command::DeleteForward => edit_command("delete_forward", "{}"),
            Command::MoveLeft => edit_command("move_left", "{}"),
            Command::MoveRight => edit_command("move_right", "{}"),
            Command::MoveUp => edit_command("move_up", "{}"),
            Command::MoveDown => edit_command("move_down", "{}"),
            Command::Scroll { first_line, line_count } => {
                let mut params = String::from_str("[");
                push_decimal(&mut params, *first_line);
                params.append(", ");
                push_decimal(&mut params, *line_count);
                params.append("]");
                edit_command("scroll", params.as_str())
            },
            Command::Open { filename } => {
                let mut params = String::from_str("{\"filename\":\"");
                push_escaped(&mut params, filename.as_str());
                params.append("\"}");
                edit_command("open", params.as_str())
            },
        }
    }

    /// The line that carries the command: its text and a line feed.
    pub fn to_line(&self) -> (line: String)
        ensures
            line@ == wire_line(*self),
    {
        let mut line = self.encode();
        line.push('\n');
        line
    }
}

/// The keys that the view reacts to.
#[derive(Clone, Copy, Debug, PartialEq, Eq, Structural)]
pub enum Key {
    Return,
    Back,
    Delete,
    Left,
    Right,
    Up,
    Down,
    /// Any other key.
    Other,
}

/// The command that a key stands for, if it stands for one.
pub open spec fn key_command(key: Key) -> Option<Command> {
    match key {
        Key::Return => Some(Command::InsertNewline),
        Key::Back => Some(Command::DeleteBackward),
        Key::Delete => Some(Command::DeleteForward),
        Key::Left => Some(Command::MoveLeft),
        Key::Right => Some(Command::MoveRight),
        Key::Up => Some(Command::MoveUp),
        Key::Down => Some(Command::MoveDown),
        Key::Other => None,
    }
}

/// Picks the command for a key that was pressed.
pub fn command_for_key(key: Key) -> (command: Option<Command>)
    ensures
        command == key_command(key),
{
    match key {
        Key::Return => Some(Command::InsertNewline),
        Key::Back => Some(Command::DeleteBackward),
        Key::Delete => Some(Command::DeleteForward),
        Key::Left => Some(Command::MoveLeft),
        Key::Right => Some(Command::MoveRight),
        Key::Up => Some(Command::MoveUp),
        Key::Down => Some(Command::MoveDown),
        Key::Other => None,
    }
}

/// Whether a character is a control code: U+0000 to U+001F and U+007F to
/// U+009F.
pub open spec fn is_control_code(c: char) -> bool {
    (c as u32) < 0x20 || 0x7f <= (c as u32) <= 0x9f
}

/// Whether a character lies in the private use area of the basic plane,
/// U+E000 to U+F8FF.
pub open spec fn is_private_use(c: char) -> bool {
    0xe000 <= (c as u32) <= 0xf8ff
}

/// The command that a typed character stands for: its insertion, unless it
/// is a control code or of private use.
pub open spec fn character_command(c: char) -> Option<Command> {
    if is_control_code(c) || is_private_use(c) {
        None
    } else {
        Some(Command::Insert(c))
    }
}

/// Picks the command for a character that was typed.
pub fn command_for_character(c: char) -> (command: Option<Command>)
    ensures
        command == character_command(c),
{
    let code = c as u32;
    if code < 0x20 || (0x7f <= code && code <= 0x9f) || (0xe000 <= code && code <= 0xf8ff) {
        None
    } else {
        Some(Command::Insert(c))
    }
}

/// The value of a digit in base sixteen.
pub open spec fn digit_value(c: char) -> Option<int> {
    if exists|value: int| 0 <= value < 16 && digits()[value] == c {
        Some(choose|value: int| 0 <= value < 16 && digits()[value] == c)
    } else {
        None
    }
}

/// A text with a character put before it.
pub open spec fn after(first: char, rest: Option<Seq<char>>) -> Option<Seq<char>> {
    match rest {
        Some(rest) => Some(seq![first] + rest),
        None => None,
    }
}

/// What the inside of a JSON string written by [`escaped`] stands for: a
/// backslash takes the quotation mark or backslash behind it as it is, or
/// `u` and two zeros and two digits as the character with that code below
/// U+0020; any other character stands for itself. `None` where a quotation
/// mark or a control character stands bare, or a backslash before anything
/// else.
pub open spec fn unescaped(text: Seq<char>) -> Option<Seq<char>>
    decreases text.len(),
{
    if text.len() == 0 {
        Some(Seq::empty())
    } else if text[0] == '\\' {
        if text.len() >= 2 && (text[1] == '"' || text[1] == '\\') {
            after(text[1], unescaped(text.skip(2)))
        } else if text.len() >= 6 && text[1] == 'u' && text[2] == '0' && text[3] == '0' {
            match (digit_value(text[4]), digit_value(text[5])) {
                (Some(high), Some(low)) => {
                    if high * 16 + low < 0x20 {
                        after((high * 16 + low) as char, unescaped(text.skip(6)))
                    } else {
                        None
                    }
                },
                _ => None,
            }
        } else {
            None
        }
    } else if text[0] == '"' || (text[0] as u32) < 0x20 {
        None
    } else {
        after(text[0], unescaped(text.skip(1)))
    }
}

proof fn lemma_digit_value(value: int)
    requires
        0 <= value < 16,
    ensures
        digit_value(digits()[value]) == Some(value),
{
    let c = digits()[value];
    let found = choose|found: int| 0 <= found < 16 && digits()[found] == c;
    assert(0 <= value < 16 && digits()[value] == c);
    assert(forall|a: int, b: int|
        0 <= a < 16 && 0 <= b < 16 && digits()[a] == digits()[b] ==> a == b);
}

/// An escaped character in front of a text reads as the character in front
/// of what the text reads as.
proof fn lemma_unescaped_after_escaped_char(c: char, rest: Seq<char>)
    ensures
        unescaped(escaped_char(c) + rest) == after(c, unescaped(rest)),
{
    let text = escaped_char(c) + rest;
    if c == '"' || c == '\\' {
        assert(text[0] == '\\' && text[1] == c);
        assert(text.skip(2) =~= rest);
    } else if (c as u32) < 0x20 {
        let high = c as int / 16;
        let low = c as int % 16;
        assert(text[0] == '\\' && text[1] == 'u' && text[2] == '0' && text[3] == '0');
        assert(text[4] == digits()[high] && text[5] == digits()[low]);
        lemma_digit_value(high);
        lemma_digit_value(low);
        assert((high * 16 + low) as char == c);
        assert(text.skip(6) =~= rest);
    } else {
        assert(text[0] == c);
        assert(text.skip(1) =~= rest);
    }
}

/// The escapes of a text are those of its first character and then those of
/// the rest.
proof fn lemma_escaped_from_the_front(text: Seq<char>)
    requires
        text.len() > 0,
    ensures
        escaped(text) == escaped_char(text[0]) + escaped(text.drop_first()),
    decreases text.len(),
{
    if text.len() == 1 {
        assert(text.drop_last() =~= Seq::<char>::empty());
        assert(text.drop_first() =~= Seq::<char>::empty());
        assert(escaped(text) =~= escaped_char(text[0]) + escaped(text.drop_first()));
    } else {
        lemma_escaped_from_the_front(text.drop_last());
        assert(text.drop_last().drop_first() =~= text.drop_first().drop_last());
        assert(text.drop_first().last() == text.last());
        assert(escaped(text) =~= escaped_char(text[0]) + escaped(text.drop_first()));
    }
}

/// Whatever text is written into a JSON string comes back as it was: no
/// character is lost or changed by its escape, and none is taken for the end
/// of the string.
pub proof fn lemma_escaped_text_reads_back(text: Seq<char>)
    ensures
        unescaped(escaped(text)) == Some(text),
    decreases text.len(),
{
    if text.len() > 0 {
        lemma_escaped_from_the_front(text);
        lemma_escaped_text_reads_back(text.drop_first());
        lemma_unescaped_after_escaped_char(text[0], escaped(text.drop_first()));
        assert(seq![text[0]] + text.drop_first() =~= text);
    }
}

/// The character of an insertion comes back as it was sent: the text of the
/// command holds it between `"chars":"` and the closing quotation mark, in a
/// form that reads back as the character alone.
pub proof fn lemma_inserted_character_reads_back(c: char)
    ensures
        wire_text(Command::Insert(c)) == edit_text(
            "insert"@,
            "{\"chars\":\""@ + escaped(seq![c]) + "\"}"@,
        ),
        unescaped(escaped(seq![c])) == Some(seq![c]),
{
    lemma_escaped_text_reads_back(seq![c]);
    assert(seq![c].drop_last() =~= Seq::<char>::empty());
    assert(escaped(Seq::<char>::empty()) =~= Seq::<char>::empty());
    assert(seq![c].last() == c);
    assert(escaped(seq![c]) =~= escaped_char(c));
}

/// Whether a text holds no line feed.
pub open spec fn on_one_line(text: Seq<char>) -> bool {
    forall|i: int| 0 <= i < text.len() ==> text[i] != '\n'
}

proof fn lemma_decimal_on_one_line(n: nat)
    ensures
        on_one_line(decimal(n)),
    decreases n,
{
    if n >= 10 {
        lemma_decimal_on_one_line(n / 10);
    }
}

proof fn lemma_escaped_char_on_one_line(c: char)
    ensures
        on_one_line(escaped_char(c)),
{
    let high = c as int / 16;
    let low = c as int % 16;
    if c != '"' && c != '\\' && (c as u32) < 0x20 {
        assert(0 <= high < 2 && 0 <= low < 16);
        assert(digits()[high] != '\n');
        assert(digits()[low] != '\n');
        let text = escaped_char(c);
        assert forall|i: int| 0 <= i < text.len() implies text[i] != '\n' by {
            assert(i == 0 || i == 1 || i == 2 || i == 3 || i == 4 || i == 5);
        }
    } else if c != '"' && c != '\\' {
        assert(c != '\n');
    }
}

proof fn lemma_escaped_on_one_line(text: Seq<char>)
    ensures
        on_one_line(escaped(text)),
    decreases text.len(),
{
    if text.len() > 0 {
        lemma_escaped_on_one_line(text.drop_last());
        lemma_escaped_char_on_one_line(text.last());
    }
}

proof fn lemma_edit_text_on_one_line(method: Seq<char>, params: Seq<char>)
    requires
        on_one_line(method),
        on_one_line(params),
    ensures
        on_one_line(edit_text(method, params)),
{
    reveal_strlit("{\"method\":\"edit\",\"params\":{\"method\":\"");
    reveal_strlit("\",\"params\":");
    reveal_strlit(",\"tab\":\"0\"}}");
}

/// A command is one line, whatever characters it carries: its text holds no
/// line feed, so the line feed that ends its line is the only one.
pub proof fn lemma_command_is_one_line(command: Command)
    ensures
        on_one_line(wire_text(command)),
        wire_line(command).len() == wire_text(command).len() + 1,
        wire_line(command).last() == '\n',
        forall|i: int|
            0 <= i < wire_line(command).len() - 1 ==> wire_line(command)[i] != '\n',
{
    match command {
        Command::NewTab => {
            reveal_strlit("{\"id\":0,\"method\":\"new_tab\",\"params\":[]}");
        },
        Command::Insert(c) => {
            reveal_strlit("insert");
            reveal_strlit("{\"chars\":\"");
            reveal_strlit("\"}");
            lemma_escaped_char_on_one_line(c);
            lemma_edit_text_on_one_line(
                "insert"@,
                "{\"chars\":\""@ + escaped_char(c) + "\"}"@,
            );
        },
        Command::InsertNewline => {
            reveal_strlit("insert_newline");
            reveal_strlit("{}");
            lemma_edit_text_on_one_line("insert_newline"@, "{}"@);
        },
        Command::DeleteBackward => {
            reveal_strlit("delete_backward");
            reveal_strlit("{}");
            lemma_edit_text_on_one_line("delete_backward"@, "{}"@);
        },
        Command::DeleteForward => {
            reveal_strlit("delete_forward");
            reveal_strlit("{}");
            lemma_edit_text_on_one_line("delete_forward"@, "{}"@);
        },
        Command::MoveLeft => {
            reveal_strlit("move_left");
            reveal_strlit("{}");
            lemma_edit_text_on_one_line("move_left"@, "{}"@);
        },
        Command::MoveRight => {
            reveal_strlit("move_right");
            reveal_strlit("{}");
            lemma_edit_text_on_one_line("move_right"@, "{}"@);
        },
        Command::MoveUp => {
            reveal_strlit("move_up");
            reveal_strlit("{}");
            lemma_edit_text_on_one_line("move_up"@, "{}"@);
        },
        Command::MoveDown => {
            reveal_strlit("move_down");
            reveal_strlit("{}");
            lemma_edit_text_on_one_line("move_down"@, "{}"@);
        },
        Command::Scroll { first_line, line_count } => {
            reveal_strlit("scroll");
            reveal_strlit("[");
            reveal_strlit(", ");
            reveal_strlit("]");
            lemma_decimal_on_one_line(first_line as nat);
            lemma_decimal_on_one_line(line_count as nat);
            lemma_edit_text_on_one_line(
                "scroll"@,
                "["@ + decimal(first_line as nat) + ", "@ + decimal(line_count as nat) + "]"@,
            );
        },
        Command::Open { filename } => {
            reveal_strlit("open");
            reveal_strlit("{\"filename\":\"");
            reveal_strlit("\"}");
            lemma_escaped_on_one_line(filename@);
            lemma_edit_text_on_one_line(
                "open"@,
                "{\"filename\":\""@ + escaped(filename@) + "\"}"@,
            );
        },
    }
}

} // verus!
