//! What stops a guest.
use vstd::prelude::*;

verus! {

/// Stops the guest that made a host call, with a message that says why.
#[derive(Debug)]
pub struct Trap {
    message: String,
}

impl View for Trap {
    type V = Seq<char>;

    closed spec fn view(&self) -> Seq<char> {
        self.message@
    }
}

impl Trap {
    /// A trap with the given message.
    pub fn new(message: &str) -> (trap: Trap)
        ensures
            trap@ == message@,
    {
        Trap { message: message.to_owned() }
    }

    /// A trap with the given message.
    pub fn with(message: String) -> (trap: Trap)
        ensures
            trap@ == message@,
    {
        Trap { message }
    }

    /// Why the guest is stopped.
    pub fn message(&self) -> (message: &str)
        ensures
            message@ == self@,
    {
        self.message.as_str()
    }
}

/// The answer to a host call, with a trap given by its message.
pub open spec fn answer(result: Result<i32, Trap>) -> Result<i32, Seq<char>> {
    match result {
        Ok(code) => Ok(code),
        Err(trap) => Err(trap@),
    }
}

} // verus!
