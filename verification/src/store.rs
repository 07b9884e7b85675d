//! The well-known keys records are stored under.

use vstd::prelude::*;

verus! {

/// Which record a store operation addresses.
#[derive(Clone, Copy, Debug)]
pub enum Key {
    Settings,
    Session,
}

impl Key {
    /// The key's name in the coordination medium.
    pub fn as_str(&self) -> (r: &'static str)
        ensures
            *self is Settings ==> r@ == "settings"@,
            *self is Session ==> r@ == "session"@,
    {
        match self {
            Key::Settings => "settings",
            Key::Session => "session",
        }
    }
}

} // verus!
