use vstd::prelude::*;

verus! {

/// Which log the dashboard shows.
#[derive(Debug, Clone, Copy, PartialEq, Eq, Structural)]
pub enum DisplayState {
    Messages,
    Errors,
    ParseErrors,
}

impl DisplayState {
    /// Choosing the mode already shown goes back to the prefixed messages.
    pub open spec fn spec_toggled(self, requested: DisplayState) -> DisplayState {
        if self == requested {
            DisplayState::Messages
        } else {
            requested
        }
    }

    /// Messages, then errors, then unparsed lines, then messages again.
    pub open spec fn spec_cycled(self) -> DisplayState {
        match self {
            DisplayState::Messages => DisplayState::Errors,
            DisplayState::Errors => DisplayState::ParseErrors,
            DisplayState::ParseErrors => DisplayState::Messages,
        }
    }

    pub fn toggled(self, requested: DisplayState) -> (r: DisplayState)
        ensures
            r == self.spec_toggled(requested),
    {
        if self == requested {
            DisplayState::Messages
        } else {
            requested
        }
    }

    pub fn cycled(self) -> (r: DisplayState)
        ensures
            r == self.spec_cycled(),
    {
        match self {
            DisplayState::Messages => DisplayState::Errors,
            DisplayState::Errors => DisplayState::ParseErrors,
            DisplayState::ParseErrors => DisplayState::Messages,
        }
    }
}

} // verus!
