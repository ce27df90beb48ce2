//! What a key does to the application.

use crate::app::App;
use crate::navigation::{pinned_after_toggle, selected_after_step};
use crate::sensors::ChipSnapshot;
use crossterm::event::{Event, KeyCode};
use vstd::prelude::*;

verus! {

/// A terminal event as crossterm reports it. Nothing of it is read but by
/// `key_of`.
#[verifier::external_type_specification]
#[verifier::external_body]
pub struct ExEvent(Event);

/// An input event, as far as the application tells events apart.
#[derive(Clone, Copy, Debug, PartialEq, Eq, Structural)]
pub enum Key {
    Esc,
    Enter,
    Up,
    Down,
    Char(char),
    /// Any other key, and any event that is no key.
    Other,
}

/// What the application does on an input event.
#[derive(Clone, Copy, Debug, PartialEq, Eq, Structural)]
pub enum Command {
    Quit,
    SelectNext,
    SelectPrevious,
    TogglePin,
    Ignore,
}

/// The user asked to leave.
#[derive(Clone, Copy, Debug, PartialEq, Eq, Structural)]
pub struct Interrupted;

/// The command bound to a key: `Esc` or `q` quits, `Down` or `j` selects the
/// next chip, `Up` or `k` the previous one, `Enter` or `p` toggles the pin;
/// nothing else does anything.
pub open spec fn command_of(key: Key) -> Command {
    match key {
        Key::Esc => Command::Quit,
        Key::Enter => Command::TogglePin,
        Key::Up => Command::SelectPrevious,
        Key::Down => Command::SelectNext,
        Key::Char(c) => if c == 'q' {
            Command::Quit
        } else if c == 'j' {
            Command::SelectNext
        } else if c == 'k' {
            Command::SelectPrevious
        } else if c == 'p' {
            Command::TogglePin
        } else {
            Command::Ignore
        },
        Key::Other => Command::Ignore,
    }
}

/// The command bound to `key`.
pub fn command_for(key: &Key) -> (command: Command)
    ensures
        command == command_of(*key),
{
    match key {
        Key::Esc => Command::Quit,
        Key::Enter => Command::TogglePin,
        Key::Up => Command::SelectPrevious,
        Key::Down => Command::SelectNext,
        Key::Char(c) => {
            if *c == 'q' {
                Command::Quit
            } else if *c == 'j' {
                Command::SelectNext
            } else if *c == 'k' {
                Command::SelectPrevious
            } else if *c == 'p' {
                Command::TogglePin
            } else {
                Command::Ignore
            }
        },
        Key::Other => Command::Ignore,
    }
}

/// Whether `after` and `outcome` are what `key` makes of `before`, against
/// the chips `chips`: a quit fails and changes nothing; the other commands
/// succeed and move the selection or toggle the pin; the histories stay.
pub open spec fn applied(
    key: Key,
    chips: Seq<ChipSnapshot>,
    before: App,
    after: App,
    outcome: Result<(), Interrupted>,
) -> bool {
    &&& outcome.is_err() <==> command_of(key) == Command::Quit
    &&& after.state.history() == before.state.history()
    &&& after.state.capacities() == before.state.capacities()
    &&& before.state.wf() ==> after.state.wf()
    &&& after.state.selected() == match command_of(key) {
        Command::SelectNext => selected_after_step(chips, before.state.selected(), 1),
        Command::SelectPrevious => selected_after_step(chips, before.state.selected(), -1),
        _ => before.state.selected(),
    }
    &&& after.state.pinned() == match command_of(key) {
        Command::TogglePin => pinned_after_toggle(
            chips,
            before.state.selected(),
            before.state.pinned(),
        ),
        _ => before.state.pinned(),
    }
}

/// Reads a crossterm `Event`: a key event becomes the `Key` of its
/// `KeyCode`, with the character of a `KeyCode::Char`; any other key code,
/// and any event that is no key event, becomes `Key::Other`. Modifiers are
/// not looked at. The contract claims nothing of the result.
#[verifier::external_body]
fn key_of(event: &Event) -> (key: Key) {
    match event {
        Event::Key(pressed) => match pressed.code {
            KeyCode::Esc => Key::Esc,
            KeyCode::Enter => Key::Enter,
            KeyCode::Up => Key::Up,
            KeyCode::Down => Key::Down,
            KeyCode::Char(c) => Key::Char(c),
            _ => Key::Other,
        },
        _ => Key::Other,
    }
}

/// Applies the command bound to `key` to `app`, against the chips as they are
/// enumerated now. Fails, with `app` untouched, just where the command is to
/// quit. The histories never change.
pub fn handle_key(key: &Key, app: &mut App, chips: &Vec<ChipSnapshot>) -> (outcome: Result<
    (),
    Interrupted,
>)
    ensures
        applied(*key, chips@, *old(app), *final(app), outcome),
{
    match command_for(key) {
        Command::Quit => Err(Interrupted),
        Command::SelectNext => {
            app.state.select_next_chip(chips);
            Ok(())
        },
        Command::SelectPrevious => {
            app.state.select_previous_chip(chips);
            Ok(())
        },
        Command::TogglePin => {
            app.state.set_pinned_chip(chips);
            Ok(())
        },
        Command::Ignore => Ok(()),
    }
}

/// Applies a terminal event to `app`: what `handle_key` does with the key
/// that the event holds. Whatever the event, the histories stay, and a
/// failure leaves selection and pin as they were.
pub fn handle_input(event: &Event, app: &mut App, chips: &Vec<ChipSnapshot>) -> (outcome: Result<
    (),
    Interrupted,
>)
    ensures
        exists|key: Key| applied(key, chips@, *old(app), *final(app), outcome),
        final(app).state.history() == old(app).state.history(),
        final(app).state.capacities() == old(app).state.capacities(),
        old(app).state.wf() ==> final(app).state.wf(),
        outcome.is_err() ==> final(app).state.selected() == old(app).state.selected()
            && final(app).state.pinned() == old(app).state.pinned(),
{
    let key = key_of(event);
    let outcome = handle_key(&key, app, chips);
    assert(applied(key, chips@, *old(app), *app, outcome));
    outcome
}

} // verus!
