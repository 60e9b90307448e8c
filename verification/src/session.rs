//! What a session does at its start and with the events of its window.

use crate::command::{
    character_command, command_for_character, command_for_key, key_command, Command, Key,
};
use crate::metrics::{lines_in_view, visible_line_count};
use crate::viewport::{ViewportModel, ViewportState};
use vstd::prelude::*;

verus! {

/// An event of the window.
#[derive(Clone, Copy, Debug, PartialEq, Eq)]
pub enum Event {
    /// The window was closed.
    Closed,
    /// A key went down or up. `key` is `None` where the window system names
    /// no key.
    KeyboardInput { pressed: bool, key: Option<Key> },
    /// The window has a new size, in pixels.
    Resized { width: u32, height: u32 },
    /// A character was typed.
    ReceivedCharacter(char),
    /// Anything else, such as a wake-up after a message of the editing core.
    Other,
}

/// What the session has to do after an event.
#[derive(Clone, Debug, PartialEq, Eq)]
pub enum Reaction {
    /// End the session.
    Quit,
    /// Send a command to the editing core.
    Send(Command),
    /// Nothing.
    Nothing,
}

/// The reaction that an optional command stands for.
pub open spec fn reaction_of(command: Option<Command>) -> Reaction {
    match command {
        Some(command) => Reaction::Send(command),
        None => Reaction::Nothing,
    }
}

/// The reaction to an event: a closed window ends the session, a key that
/// goes down and a typed character send their command if they have one, and
/// nothing else has any effect on the editing core.
pub open spec fn reaction_to(event: Event) -> Reaction {
    match event {
        Event::Closed => Reaction::Quit,
        Event::KeyboardInput { pressed: true, key: Some(key) } => reaction_of(key_command(key)),
        Event::ReceivedCharacter(c) => reaction_of(character_command(c)),
        _ => Reaction::Nothing,
    }
}

/// The view after an event: a new size is taken over and marks the view as
/// changed, and no other event touches the view.
pub open spec fn state_after(state: ViewportModel, event: Event) -> ViewportModel {
    match event {
        Event::Resized { width, height } => ViewportModel {
            view_width_px: width,
            view_height_px: height,
            dirty: true,
            ..state
        },
        _ => state,
    }
}

/// Reacts to an event of the window.
pub fn handle_event(state: &mut ViewportState, event: Event) -> (reaction: Reaction)
    ensures
        reaction == reaction_to(event),
        final(state)@ == state_after(old(state)@, event),
{
    match event {
        Event::Closed => Reaction::Quit,
        Event::KeyboardInput { pressed, key } => {
            if !pressed {
                return Reaction::Nothing;
            }
            match key {
                Some(key) => match command_for_key(key) {
                    Some(command) => Reaction::Send(command),
                    None => Reaction::Nothing,
                },
                None => Reaction::Nothing,
            }
        },
        Event::Resized { width, height } => {
            state.resize(width, height);
            Reaction::Nothing
        },
        Event::ReceivedCharacter(c) => match command_for_character(c) {
            Some(command) => Reaction::Send(command),
            None => Reaction::Nothing,
        },
        Event::Other => Reaction::Nothing,
    }
}

/// The commands that open a session: a new tab, the range of lines that the
/// view shows, from the first line of the document on, and, if a file is to
/// be edited, the file.
pub open spec fn opening_commands(
    view_height_px: u32,
    line_height: u32,
    initial_file: Option<String>,
) -> Seq<Command> {
    let scroll = Command::Scroll {
        first_line: 0,
        line_count: lines_in_view(view_height_px as int, line_height as int) as u64,
    };
    match initial_file {
        Some(filename) => seq![Command::NewTab, scroll, Command::Open { filename }],
        None => seq![Command::NewTab, scroll],
    }
}

/// Lists the commands that open a session.
pub fn startup_commands(view_height_px: u32, line_height: u32, initial_file: Option<String>) -> (commands:
    Vec<Command>)
    requires
        line_height > 0,
    ensures
        commands@ == opening_commands(view_height_px, line_height, initial_file),
{
    let mut commands: Vec<Command> = Vec::new();
    commands.push(Command::NewTab);
    commands.push(
        Command::Scroll {
            first_line: 0,
            line_count: visible_line_count(view_height_px, line_height),
        },
    );
    if let Some(filename) = initial_file {
        commands.push(Command::Open { filename });
    }
    assert(commands@ =~= opening_commands(view_height_px, line_height, initial_file));
    commands
}

} // verus!
