//! The ways in which a command can fail.

use crate::text::{decimal, decimal_text, ParseFailure};
use vstd::prelude::*;
use vstd::string::*;

verus! {

/// A failure of a command.
#[derive(Debug, PartialEq, Eq)]
pub enum TErr {
    /// The store failed or refused the operation; the text is its own account.
    Db(String),
    /// A change named an entry that the store does not hold.
    NoSuchEntry(u32),
    /// A numeric argument is no number of the kind that is needed.
    Parse(ParseFailure),
    /// An argument that the command needs was not given.
    MissingArg(&'static str),
    /// A rating outside 1 to 5.
    BadRating,
}

/// What a `TErr` holds, with its texts as sequences of characters.
pub enum TErrView {
    Db(Seq<char>),
    NoSuchEntry(u32),
    Parse(ParseFailure),
    MissingArg(Seq<char>),
    BadRating,
}

impl View for TErr {
    type V = TErrView;

    open spec fn view(&self) -> TErrView {
        match *self {
            TErr::Db(text) => TErrView::Db(text@),
            TErr::NoSuchEntry(id) => TErrView::NoSuchEntry(id),
            TErr::Parse(failure) => TErrView::Parse(failure),
            TErr::MissingArg(name) => TErrView::MissingArg(name@),
            TErr::BadRating => TErrView::BadRating,
        }
    }
}

impl Clone for TErr {
    fn clone(&self) -> (copy: Self)
        ensures
            copy == *self,
    {
        match self {
            TErr::Db(text) => TErr::Db(text.clone()),
            TErr::NoSuchEntry(id) => TErr::NoSuchEntry(*id),
            TErr::Parse(failure) => TErr::Parse(*failure),
            TErr::MissingArg(name) => TErr::MissingArg(name),
            TErr::BadRating => TErr::BadRating,
        }
    }
}

impl TErrView {
    /// The sentence that tells the reader of the failure.
    pub open spec fn message(self) -> Seq<char> {
        match self {
            TErrView::Db(text) => "SQLite Error: "@ + text,
            TErrView::NoSuchEntry(id) => "No entry with id "@ + decimal(id as nat),
            TErrView::Parse(failure) => "Parsing error: "@ + failure.reason_text(),
            TErrView::MissingArg(name) => "Missing argument <"@ + name + ">"@,
            TErrView::BadRating => "Ratings must be between 1 and 5"@,
        }
    }

    /// The failure as a run of the reading list tells it to the reader,
    /// after `Error: ` or `Caused by: `: the store's and the parser's own
    /// account as they are, the others in a sentence.
    pub open spec fn reason(self) -> Seq<char> {
        match self {
            TErrView::Db(text) => text,
            TErrView::NoSuchEntry(id) => "No entry with id `"@ + decimal(id as nat) + "`"@,
            TErrView::Parse(failure) => failure.reason_text(),
            TErrView::MissingArg(name) => "Required argument `"@ + name + "` is missing"@,
            TErrView::BadRating => "Rating is not an integer between 1 and 5"@,
        }
    }

    /// The kind of the failure, in a few words.
    pub open spec fn description(self) -> Seq<char> {
        match self {
            TErrView::Db(text) => text,
            TErrView::NoSuchEntry(_) => "Invalid entry id"@,
            TErrView::Parse(_) => "Parsing error"@,
            TErrView::MissingArg(_) => "Missing argument"@,
            TErrView::BadRating => "Ratings must be between 1 and 5"@,
        }
    }

    /// The account of the failure underneath, where there is one.
    pub open spec fn cause(self) -> Option<Seq<char>> {
        match self {
            TErrView::Db(text) => Some(text),
            TErrView::Parse(failure) => Some(failure.reason_text()),
            _ => None,
        }
    }
}

impl TErr {
    /// Writes the sentence that tells the reader of the failure.
    pub fn message(&self) -> (text: String)
        ensures
            text@ == self@.message(),
    {
        match self {
            TErr::Db(cause) => {
                let mut text = String::from_str("SQLite Error: ");
                text.append(cause.as_str());
                text
            },
            TErr::NoSuchEntry(id) => {
                let mut text = String::from_str("No entry with id ");
                text.append(decimal_text(*id as u64).as_str());
                text
            },
            TErr::Parse(failure) => {
                let mut text = String::from_str("Parsing error: ");
                text.append(failure.reason().as_str());
                text
            },
            TErr::MissingArg(name) => {
                let mut text = String::from_str("Missing argument <");
                text.append(name);
                text.append(">");
                text
            },
            TErr::BadRating => String::from_str("Ratings must be between 1 and 5"),
        }
    }

    /// Writes the failure as a run of the reading list tells it to the
    /// reader.
    pub fn reason(&self) -> (text: String)
        ensures
            text@ == self@.reason(),
    {
        match self {
            TErr::Db(cause) => cause.clone(),
            TErr::NoSuchEntry(id) => {
                let mut text = String::from_str("No entry with id `");
                text.append(decimal_text(*id as u64).as_str());
                text.append("`");
                text
            },
            TErr::Parse(failure) => failure.reason(),
            TErr::MissingArg(name) => {
                let mut text = String::from_str("Required argument `");
                text.append(name);
                text.append("` is missing");
                text
            },
            TErr::BadRating => String::from_str("Rating is not an integer between 1 and 5"),
        }
    }

    /// Writes the kind of the failure, in a few words.
    pub fn description(&self) -> (text: String)
        ensures
            text@ == self@.description(),
    {
        match self {
            TErr::Db(cause) => cause.clone(),
            TErr::NoSuchEntry(_) => String::from_str("Invalid entry id"),
            TErr::Parse(_) => String::from_str("Parsing error"),
            TErr::MissingArg(_) => String::from_str("Missing argument"),
            TErr::BadRating => String::from_str("Ratings must be between 1 and 5"),
        }
    }

    /// Writes the account of the failure underneath, where there is one: the
    /// store's for `Db`, the parser's for `Parse`.
    pub fn cause(&self) -> (text: Option<String>)
        ensures
            match self@.cause() {
                Some(cause) => text matches Some(t) && t@ == cause,
                None => text is None,
            },
    {
        match self {
            TErr::Db(cause) => Some(cause.clone()),
            TErr::Parse(failure) => Some(failure.reason()),
            _ => None,
        }
    }
}

} // verus!
