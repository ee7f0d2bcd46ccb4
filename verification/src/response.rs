//! What a command answers with.

use vstd::prelude::*;
use vstd::string::StringExecFns;

verus! {

/// The flag of a response that only the user who sent the trigger sees.
pub const EPHEMERAL: u64 = 64;

/// A response in the making: its text and its flags. Embeds and components
/// are the caller's to add.
#[derive(Clone, Debug, PartialEq, Eq)]
pub struct CreateGenericResponse {
    pub content: String,
    pub flags: u64,
}

impl CreateGenericResponse {
    /// A response without text and without flags.
    pub fn new() -> (r: Self)
        ensures
            r.content@.len() == 0,
            r.flags == 0,
    {
        CreateGenericResponse { content: String::new(), flags: 0 }
    }

    /// The response, for the eyes of the sender alone. Other flags stay.
    pub fn ephemeral(self) -> (r: Self)
        ensures
            r.flags == self.flags | EPHEMERAL,
            r.content@ == self.content@,
    {
        CreateGenericResponse { content: self.content, flags: self.flags | EPHEMERAL }
    }

    /// The response with `content` as its text.
    pub fn content(self, content: &str) -> (r: Self)
        ensures
            r.content@ == content@,
            r.flags == self.flags,
    {
        CreateGenericResponse { content: String::from_str(content), flags: self.flags }
    }

    /// Whether only the sender sees the response.
    pub fn is_ephemeral(&self) -> (r: bool)
        ensures
            r == (self.flags & EPHEMERAL != 0),
    {
        self.flags & EPHEMERAL != 0
    }
}

} // verus!
