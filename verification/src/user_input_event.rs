//! What a user can ask for.
use vstd::prelude::*;

verus! {

#[derive(Debug, PartialEq, Eq)]
pub enum UserInputEvent {
    DisablePeer(String),
    EnablePeer(String),
    SetDenoise(String, DenoiseSelection),
    SetVolume(String, usize),
    SendMessage(String),
    SetMuteSelf(bool),
}

/// Which denoiser a peer's audio goes through.
#[derive(Debug, Clone, Copy, PartialEq, Eq, Structural)]
pub enum DenoiseSelection {
    Off,
    Nnnoiseless,
}

impl Default for DenoiseSelection {
    fn default() -> (selection: Self)
        ensures
            selection == DenoiseSelection::Nnnoiseless,
    {
        DenoiseSelection::Nnnoiseless
    }
}

impl DenoiseSelection {
    /// The selection that follows this one.
    pub open spec fn spec_next(self) -> Self {
        match self {
            DenoiseSelection::Off => DenoiseSelection::Nnnoiseless,
            DenoiseSelection::Nnnoiseless => DenoiseSelection::Off,
        }
    }

    pub fn next(&self) -> (selection: Self)
        ensures
            selection == self.spec_next(),
    {
        match self {
            DenoiseSelection::Off => DenoiseSelection::Nnnoiseless,
            DenoiseSelection::Nnnoiseless => DenoiseSelection::Off,
        }
    }
}

/// Stepping through the selections comes back to each of them.
pub proof fn selections_cycle(selection: DenoiseSelection)
    ensures
        selection.spec_next() != selection,
        selection.spec_next().spec_next() == selection,
{
}

} // verus!
