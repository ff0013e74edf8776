use vstd::prelude::*;

verus! {

/// What can go wrong in this library.
#[derive(Clone, Copy, Debug, PartialEq, Eq, Structural)]
pub enum Error {
    /// A token has no head at all in the layer that a graph is built from.
    MissingHead,
    /// A token has a governor in the layer that a graph is built from, but no
    /// relation to it.
    MissingRelation,
    /// The output buffer of a formatter could not be written.
    FormatWriteFailure,
    /// An export was asked for while the treebank is empty.
    NoGraphSelected,
}

impl Error {
    /// What the error says, in words.
    pub open spec fn description_text(self) -> Seq<char> {
        match self {
            Error::MissingHead => "a token has no head"@,
            Error::MissingRelation => "a token has no relation to its head"@,
            Error::FormatWriteFailure => "the output could not be written"@,
            Error::NoGraphSelected => "no graph is selected"@,
        }
    }

    /// What the error says, in words.
    pub fn description(&self) -> (text: &'static str)
        ensures
            text@ == self.description_text(),
    {
        match self {
            Error::MissingHead => "a token has no head",
            Error::MissingRelation => "a token has no relation to its head",
            Error::FormatWriteFailure => "the output could not be written",
            Error::NoGraphSelected => "no graph is selected",
        }
    }
}

} // verus!
