use vstd::prelude::*;

verus! {

/// An input event as the dashboard distinguishes them.
#[derive(Debug, Clone, Copy, PartialEq, Eq, Structural)]
pub enum Key {
    Char(char),
    /// A character typed with the control modifier.
    Ctrl(char),
    Esc,
    Enter,
    Tab,
    WheelUp,
    WheelDown,
    Other,
}

/// What the operator asked for.
#[derive(Debug, Clone, Copy, PartialEq, Eq, Structural)]
pub enum Action {
    Quit,
    NextPrefix,
    PreviousPrefix,
    ScrollUp,
    ScrollDown,
    ScrollReset,
    ShowMessages,
    ShowErrors,
    ShowParseErrors,
    CycleDisplay,
    NextAttention,
    ClearCurrent,
    ClearAll,
    Export,
}

/// The key bindings of the dashboard.
pub open spec fn binding(key: Key) -> Option<Action> {
    match key {
        Key::Char('q') => Some(Action::Quit),
        Key::Ctrl('c') => Some(Action::Quit),
        Key::Char('j') => Some(Action::NextPrefix),
        Key::Char('k') => Some(Action::PreviousPrefix),
        Key::Char('w') => Some(Action::ScrollUp),
        Key::Char('K') => Some(Action::ScrollUp),
        Key::WheelUp => Some(Action::ScrollUp),
        Key::Char('s') => Some(Action::ScrollDown),
        Key::Char('J') => Some(Action::ScrollDown),
        Key::WheelDown => Some(Action::ScrollDown),
        Key::Char('r') => Some(Action::ScrollReset),
        Key::Esc => Some(Action::ShowMessages),
        Key::Char('e') => Some(Action::ShowErrors),
        Key::Char('p') => Some(Action::ShowParseErrors),
        Key::Tab => Some(Action::CycleDisplay),
        Key::Char('n') => Some(Action::NextAttention),
        Key::Char('c') => Some(Action::ClearCurrent),
        Key::Char('C') => Some(Action::ClearAll),
        Key::Enter => Some(Action::Export),
        _ => None,
    }
}

/// The action bound to `key`; none for input the dashboard ignores.
pub fn action_for(key: Key) -> (r: Option<Action>)
    ensures
        r == binding(key),
{
    match key {
        Key::Char('q') => Some(Action::Quit),
        Key::Ctrl('c') => Some(Action::Quit),
        Key::Char('j') => Some(Action::NextPrefix),
        Key::Char('k') => Some(Action::PreviousPrefix),
        Key::Char('w') => Some(Action::ScrollUp),
        Key::Char('K') => Some(Action::ScrollUp),
        Key::WheelUp => Some(Action::ScrollUp),
        Key::Char('s') => Some(Action::ScrollDown),
        Key::Char('J') => Some(Action::ScrollDown),
        Key::WheelDown => Some(Action::ScrollDown),
        Key::Char('r') => Some(Action::ScrollReset),
        Key::Esc => Some(Action::ShowMessages),
        Key::Char('e') => Some(Action::ShowErrors),
        Key::Char('p') => Some(Action::ShowParseErrors),
        Key::Tab => Some(Action::CycleDisplay),
        Key::Char('n') => Some(Action::NextAttention),
        Key::Char('c') => Some(Action::ClearCurrent),
        Key::Char('C') => Some(Action::ClearAll),
        Key::Enter => Some(Action::Export),
        _ => None,
    }
}

} // verus!
