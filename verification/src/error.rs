//! Error types used by this crate.

use vstd::prelude::*;
use vstd::string::*;

verus! {

/// Custom error type returned when something goes wrong with parsing games from a launcher.
#[derive(Debug)]
pub enum GamesParsingError {
    /// A file could not be read; holds the message of the I/O error.
    Io(String),
    /// A field that the file must hold was not found; holds the name of
    /// what was looked for.
    Nom(String),
    /// The database could not be queried; holds the message of the error.
    Db(String),
    /// Error originating from any other source
    Other(String),
}

impl GamesParsingError {
    /// The text of the error: the message as it is, but for `Other`, whose
    /// message follows the words `Other error: `.
    pub open spec fn text(self) -> Seq<char> {
        match self {
            GamesParsingError::Io(message) => message@,
            GamesParsingError::Nom(message) => message@,
            GamesParsingError::Db(message) => message@,
            GamesParsingError::Other(message) => "Other error: "@ + message@,
        }
    }

    /// The text of the error.
    pub fn message(&self) -> (r: String)
        ensures
            r@ == self.text(),
    {
        match self {
            GamesParsingError::Io(message) => message.clone(),
            GamesParsingError::Nom(message) => message.clone(),
            GamesParsingError::Db(message) => message.clone(),
            GamesParsingError::Other(message) => {
                let mut text = "Other error: ".to_owned();
                text.append(message.as_str());
                text
            },
        }
    }
}

} // verus!
