//! From the arguments that the grammar has matched to the command they mean.

use crate::commands::{Command, CommandView};
use crate::data::{clock_now, Entry, EntryView, Timestamp};
use crate::err::{TErr, TErrView};
use crate::text::{chars_of, parse_unsigned, unsigned_value};
use vstd::prelude::*;
use vstd::string::*;

verus! {

/// One argument that the grammar has matched, under the name the grammar
/// gives it.
#[derive(Debug, PartialEq, Eq)]
pub struct Argument {
    pub name: String,
    pub value: String,
}

/// What the grammar has made of a line or of the program's arguments: the
/// subcommand it matched, if any, and the arguments of that subcommand.
#[derive(Debug, PartialEq, Eq)]
pub struct Invocation {
    pub subcommand: Option<String>,
    pub arguments: Vec<Argument>,
}

/// What an `Argument` holds, with its texts as sequences of characters.
pub struct ArgumentView {
    pub name: Seq<char>,
    pub value: Seq<char>,
}

/// What an `Invocation` holds, with its texts as sequences of characters.
pub struct InvocationView {
    pub subcommand: Option<Seq<char>>,
    pub arguments: Seq<ArgumentView>,
}

impl View for Argument {
    type V = ArgumentView;

    open spec fn view(&self) -> ArgumentView {
        ArgumentView { name: self.name@, value: self.value@ }
    }
}

impl View for Invocation {
    type V = InvocationView;

    open spec fn view(&self) -> InvocationView {
        InvocationView {
            subcommand: match self.subcommand {
                Some(name) => Some(name@),
                None => None,
            },
            arguments: self.arguments@.map_values(|a: Argument| a@),
        }
    }
}

/// The value of the first argument named `name`.
pub open spec fn value_of(arguments: Seq<ArgumentView>, name: Seq<char>) -> Option<Seq<char>>
    decreases arguments.len(),
{
    if arguments.len() == 0 {
        None
    } else if arguments[0].name == name {
        Some(arguments[0].value)
    } else {
        value_of(arguments.drop_first(), name)
    }
}

/// The text of the argument `name`, which must be there.
pub open spec fn text_of_argument(arguments: Seq<ArgumentView>, name: Seq<char>) -> Result<
    Seq<char>,
    TErrView,
> {
    match value_of(arguments, name) {
        Some(value) => Ok(value),
        None => Err(TErrView::MissingArg(name)),
    }
}

/// The number that the argument `name` writes, which must be there and be an
/// unsigned decimal number of at most `max`.
pub open spec fn number_of_argument(arguments: Seq<ArgumentView>, name: Seq<char>, max: nat) -> Result<
    nat,
    TErrView,
> {
    match value_of(arguments, name) {
        None => Err(TErrView::MissingArg(name)),
        Some(value) => match unsigned_value(value, max) {
            Ok(number) => Ok(number),
            Err(failure) => Err(TErrView::Parse(failure)),
        },
    }
}

/// The entry that the arguments of `add` describe, made at `now`. The title
/// is looked at first, then the genre, the page and the author; the first of
/// them that is missing or is no number decides the failure.
pub open spec fn parsed_entry(arguments: Seq<ArgumentView>, now: Timestamp) -> Result<
    EntryView,
    TErrView,
> {
    match text_of_argument(arguments, "TITLE"@) {
        Err(e) => Err(e),
        Ok(name) => match text_of_argument(arguments, "GENRE"@) {
            Err(e) => Err(e),
            Ok(genre) => match number_of_argument(arguments, "PAGE"@, u32::MAX as nat) {
                Err(e) => Err(e),
                Ok(page) => match text_of_argument(arguments, "AUTHOR"@) {
                    Err(e) => Err(e),
                    Ok(author) => Ok(
                        EntryView {
                            id: 0,
                            name: name,
                            read: false,
                            page: page as u32,
                            genre: genre,
                            author: author,
                            date_added: now,
                            date_finished: None,
                            rating: None,
                        },
                    ),
                },
            },
        },
    }
}

/// The number of the entry that the arguments name.
pub open spec fn parsed_id(arguments: Seq<ArgumentView>) -> Result<nat, TErrView> {
    number_of_argument(arguments, "ENTRY_ID"@, u32::MAX as nat)
}

/// The command that `invocation`, made at `now`, means. Without a
/// subcommand, or with one that is no command of the reading list, it is
/// `Nil`.
pub open spec fn parsed(invocation: InvocationView, now: Timestamp) -> Result<CommandView, TErrView> {
    let arguments = invocation.arguments;
    match invocation.subcommand {
        None => Ok(CommandView::Nil),
        Some(name) => if name == "add"@ {
            match parsed_entry(arguments, now) {
                Ok(entry) => Ok(CommandView::Add(entry)),
                Err(e) => Err(e),
            }
        } else if name == "list"@ {
            Ok(CommandView::List)
        } else if name == "search"@ {
            match text_of_argument(arguments, "QUERY"@) {
                Ok(term) => Ok(CommandView::Search(term)),
                Err(e) => Err(e),
            }
        } else if name == "choose"@ {
            Ok(CommandView::Choose)
        } else if name == "finish"@ {
            match parsed_id(arguments) {
                Ok(id) => Ok(CommandView::Finish(id as u32)),
                Err(e) => Err(e),
            }
        } else if name == "delete"@ {
            match parsed_id(arguments) {
                Ok(id) => Ok(CommandView::Delete(id as u32)),
                Err(e) => Err(e),
            }
        } else if name == "set-page"@ {
            match parsed_id(arguments) {
                Err(e) => Err(e),
                Ok(id) => match number_of_argument(arguments, "PAGE"@, u32::MAX as nat) {
                    Ok(page) => Ok(CommandView::SetPage(id as u32, page as u32)),
                    Err(e) => Err(e),
                },
            }
        } else if name == "rate"@ {
            match parsed_id(arguments) {
                Err(e) => Err(e),
                Ok(id) => match number_of_argument(arguments, "RATING"@, u8::MAX as nat) {
                    Ok(rating) => Ok(CommandView::Rate(id as u32, rating as u8)),
                    Err(e) => Err(e),
                },
            }
        } else {
            Ok(CommandView::Nil)
        },
    }
}

/// Whether `result` is the command or the failure that `expected` describes.
pub open spec fn reads_as(result: Result<Command, TErr>, expected: Result<CommandView, TErrView>) -> bool {
    match expected {
        Ok(command) => result matches Ok(c) && c@ == command,
        Err(failure) => result matches Err(e) && e@ == failure,
    }
}

/// Tests two texts for being made of the same characters.
pub fn same_text(a: &str, b: &str) -> (same: bool)
    ensures
        same == (a@ == b@),
{
    let left = chars_of(a);
    let right = chars_of(b);
    if left.len() != right.len() {
        return false;
    }
    let mut i: usize = 0;
    while i < left.len()
        invariant
            i <= left.len(),
            left.len() == right.len(),
            left@ == a@,
            right@ == b@,
            forall|k: int| 0 <= k < i ==> left@[k] == right@[k],
        decreases left.len() - i,
    {
        if left[i] != right[i] {
            assert(a@[i as int] != b@[i as int]);
            return false;
        }
        i = i + 1;
    }
    assert(left@ =~= right@);
    true
}

impl Invocation {
    /// The value of the first argument named `name`.
    pub fn value_of(&self, name: &str) -> (value: Option<&String>)
        ensures
            match value_of(self@.arguments, name@) {
                Some(text) => value matches Some(v) && v@ == text,
                None => value is None,
            },
    {
        let ghost all = self@.arguments;
        let mut i: usize = 0;
        assert(all.skip(0) == all);
        while i < self.arguments.len()
            invariant
                i <= self.arguments.len(),
                all == self@.arguments,
                value_of(all, name@) == value_of(all.skip(i as int), name@),
            decreases self.arguments.len() - i,
        {
            proof {
                assert(all.skip(i as int).drop_first() == all.skip(i + 1));
                assert(all.skip(i as int)[0] == self.arguments@[i as int]@);
            }
            if same_text(self.arguments[i].name.as_str(), name) {
                return Some(&self.arguments[i].value);
            }
            i = i + 1;
        }
        None
    }

    fn text(&self, name: &'static str) -> (r: Result<String, TErr>)
        ensures
            match text_of_argument(self@.arguments, name@) {
                Ok(text) => r matches Ok(t) && t@ == text,
                Err(failure) => r matches Err(e) && e@ == failure,
            },
    {
        match self.value_of(name) {
            Some(value) => Ok(value.clone()),
            None => Err(TErr::MissingArg(name)),
        }
    }

    fn number(&self, name: &'static str, max: u32) -> (r: Result<u32, TErr>)
        ensures
            match number_of_argument(self@.arguments, name@, max as nat) {
                Ok(number) => r matches Ok(n) && n == number,
                Err(failure) => r matches Err(e) && e@ == failure,
            },
    {
        match self.value_of(name) {
            None => Err(TErr::MissingArg(name)),
            Some(value) => match parse_unsigned(value.as_str(), max) {
                Ok(number) => Ok(number),
                Err(failure) => Err(TErr::Parse(failure)),
            },
        }
    }

    fn entry(&self, now: Timestamp) -> (r: Result<Entry, TErr>)
        ensures
            match parsed_entry(self@.arguments, now) {
                Ok(entry) => r matches Ok(e) && e@ == entry,
                Err(failure) => r matches Err(e) && e@ == failure,
            },
    {
        let name = match self.text("TITLE") {
            Ok(text) => text,
            Err(e) => {
                return Err(e);
            },
        };
        let genre = match self.text("GENRE") {
            Ok(text) => text,
            Err(e) => {
                return Err(e);
            },
        };
        let page = match self.number("PAGE", u32::MAX) {
            Ok(number) => number,
            Err(e) => {
                return Err(e);
            },
        };
        let author = match self.text("AUTHOR") {
            Ok(text) => text,
            Err(e) => {
                return Err(e);
            },
        };
        Ok(Entry::new(name, author, genre, page, now))
    }
}

/// Reads the command that `invocation`, made at `now`, means.
pub fn parse_command_at(invocation: &Invocation, now: Timestamp) -> (result: Result<Command, TErr>)
    ensures
        reads_as(result, parsed(invocation@, now)),
{
    let name = match &invocation.subcommand {
        None => {
            return Ok(Command::Nil);
        },
        Some(name) => name.as_str(),
    };
    if same_text(name, "add") {
        match invocation.entry(now) {
            Ok(entry) => Ok(Command::Add(entry)),
            Err(e) => Err(e),
        }
    } else if same_text(name, "list") {
        Ok(Command::List)
    } else if same_text(name, "search") {
        match invocation.text("QUERY") {
            Ok(term) => Ok(Command::Search(term)),
            Err(e) => Err(e),
        }
    } else if same_text(name, "choose") {
        Ok(Command::Choose)
    } else if same_text(name, "finish") {
        match invocation.number("ENTRY_ID", u32::MAX) {
            Ok(id) => Ok(Command::Finish(id)),
            Err(e) => Err(e),
        }
    } else if same_text(name, "delete") {
        match invocation.number("ENTRY_ID", u32::MAX) {
            Ok(id) => Ok(Command::Delete(id)),
            Err(e) => Err(e),
        }
    } else if same_text(name, "set-page") {
        match invocation.number("ENTRY_ID", u32::MAX) {
            Err(e) => Err(e),
            Ok(id) => match invocation.number("PAGE", u32::MAX) {
                Ok(page) => Ok(Command::SetPage(id, page)),
                Err(e) => Err(e),
            },
        }
    } else if same_text(name, "rate") {
        match invocation.number("ENTRY_ID", u32::MAX) {
            Err(e) => Err(e),
            Ok(id) => match invocation.number("RATING", 255) {
                Ok(rating) => Ok(Command::Rate(id, rating as u8)),
                Err(e) => Err(e),
            },
        }
    } else {
        Ok(Command::Nil)
    }
}

/// Reads the command that `invocation` means at the moment that the
/// machine's clock gives; a new entry is dated with that moment.
pub fn parse_command(invocation: &Invocation) -> (result: Result<Command, TErr>)
    ensures
        exists|now: Timestamp|
            now.well_formed() && reads_as(result, #[trigger] parsed(invocation@, now)),
{
    let now = clock_now();
    parse_command_at(invocation, now)
}

} // verus!
