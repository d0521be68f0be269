use vstd::prelude::*;

verus! {

/// What the library reports when it cannot make a value out of its input.
#[derive(Debug)]
pub enum Error {
    /// A field was present and its text is not a value of the field's type.
    Parse(String),
    /// The input does not have the shape that was asked for.
    Other(String),
}

impl Error {
    /// The text that the error carries.
    pub open spec fn message(&self) -> Seq<char> {
        match self {
            Error::Parse(text) => text@,
            Error::Other(text) => text@,
        }
    }

    /// The error's text, for display.
    pub fn to_text(&self) -> (text: String)
        ensures
            text@ == self.message(),
    {
        match self {
            Error::Parse(text) => text.clone(),
            Error::Other(text) => text.clone(),
        }
    }
}

} // verus!
