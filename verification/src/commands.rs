//! The commands of the reading list and what each of them does: the request
//! it makes of the store, and what it tells the reader of the store's reply.

use crate::data::{
    clock_now, is_valid_rating, rating_in_range, views, Entry, EntryView, Timestamp,
};
use crate::err::{TErr, TErrView};
use crate::store::{answer, changed, touched, Change, ChangeView, Query, QueryView, Rows, Shelf};
use crate::table::{entries_table, shows_all, table_rows};
use crate::text::{decimal, decimal_text};
use vstd::prelude::*;
use vstd::string::*;

verus! {

/// What a reader can ask of the reading list.
#[derive(Debug, PartialEq, Eq)]
pub enum Command {
    /// Add the entry to the list.
    Add(Entry),
    /// Show the entries whose name, author or genre holds the text.
    Search(String),
    /// Show every entry.
    List,
    /// Mark the entry with this number as read.
    Finish(u32),
    /// Remove the entry with this number.
    Delete(u32),
    /// Set the last page read of the entry with this number.
    SetPage(u32, u32),
    /// Give the entry with this number a rating of 1 to 5 stars.
    Rate(u32, u8),
    /// Show one unread entry, taken by chance.
    Choose,
    /// Do nothing: no command was given.
    Nil,
}

/// What a `Command` holds, with its texts as sequences of characters.
pub enum CommandView {
    Add(EntryView),
    Search(Seq<char>),
    List,
    Finish(u32),
    Delete(u32),
    SetPage(u32, u32),
    Rate(u32, u8),
    Choose,
    Nil,
}

impl View for Command {
    type V = CommandView;

    open spec fn view(&self) -> CommandView {
        match *self {
            Command::Add(entry) => CommandView::Add(entry@),
            Command::Search(term) => CommandView::Search(term@),
            Command::List => CommandView::List,
            Command::Finish(id) => CommandView::Finish(id),
            Command::Delete(id) => CommandView::Delete(id),
            Command::SetPage(id, page) => CommandView::SetPage(id, page),
            Command::Rate(id, rating) => CommandView::Rate(id, rating),
            Command::Choose => CommandView::Choose,
            Command::Nil => CommandView::Nil,
        }
    }
}

impl Clone for Command {
    fn clone(&self) -> (copy: Self)
        ensures
            copy == *self,
    {
        match self {
            Command::Add(entry) => Command::Add(entry.clone()),
            Command::Search(term) => Command::Search(term.clone()),
            Command::List => Command::List,
            Command::Finish(id) => Command::Finish(*id),
            Command::Delete(id) => Command::Delete(*id),
            Command::SetPage(id, page) => Command::SetPage(*id, *page),
            Command::Rate(id, rating) => Command::Rate(*id, *rating),
            Command::Choose => Command::Choose,
            Command::Nil => Command::Nil,
        }
    }
}

/// What a command asks of the store.
#[derive(Debug, PartialEq, Eq)]
pub enum Plan {
    /// Nothing: the command is done without the store.
    Nothing,
    /// A change of the rows.
    Change(Change),
    /// A reading of rows.
    Fetch(Query),
}

/// What a `Plan` holds, with its texts as sequences of characters.
pub enum PlanView {
    Nothing,
    Change(ChangeView),
    Fetch(QueryView),
}

impl View for Plan {
    type V = PlanView;

    open spec fn view(&self) -> PlanView {
        match *self {
            Plan::Nothing => PlanView::Nothing,
            Plan::Change(change) => PlanView::Change(change@),
            Plan::Fetch(query) => PlanView::Fetch(query@),
        }
    }
}

/// What a command that succeeded hands to the reader: a table to show, for
/// the commands that show entries, and a line to print after it.
#[derive(Debug, PartialEq, Eq)]
pub struct Outcome {
    pub table: Option<prettytable::Table>,
    pub message: String,
}

/// What an `Outcome` shows: the entries of its table, where it has one, and
/// its line.
pub struct Shown {
    pub listing: Option<Rows>,
    pub message: Seq<char>,
}

impl Outcome {
    /// Whether the outcome shows `shown`: the same line, and a table with the
    /// header and one row for each entry of the listing, in its order.
    pub open spec fn presents(&self, shown: Shown) -> bool {
        &&& self.message@ == shown.message
        &&& match shown.listing {
            Some(rows) => self.table matches Some(table) && shows_all(table_rows(table), rows),
            None => self.table is None,
        }
    }
}

/// Whether `result` is what `expected` describes: the failure itself, or an
/// outcome that presents what is to be shown.
pub open spec fn settles(result: Result<Outcome, TErr>, expected: Result<Shown, TErrView>) -> bool {
    match expected {
        Ok(shown) => result matches Ok(outcome) && outcome.presents(shown),
        Err(failure) => result matches Err(e) && e@ == failure,
    }
}

impl CommandView {
    /// The words that name the command in a report.
    pub open spec fn describe(self) -> Seq<char> {
        match self {
            CommandView::Add(e) => "Add' "@ + e.name + "' by '"@ + e.author + "'"@,
            CommandView::Search(term) => "Search with query '"@ + term + "'"@,
            CommandView::List => "List entries"@,
            CommandView::Finish(id) => "Finish entry #"@ + decimal(id as nat),
            CommandView::Delete(id) => "Delete entry #"@ + decimal(id as nat),
            CommandView::SetPage(id, page) => "Set last-page-read to "@ + decimal(page as nat)
                + "for entry #"@ + decimal(id as nat),
            CommandView::Rate(id, rating) => "Rate entry #"@ + decimal(id as nat) + " "@ + decimal(
                rating as nat,
            ) + " stars"@,
            CommandView::Choose => "Choose a random entry"@,
            CommandView::Nil => "Nil command for implementation reasons"@,
        }
    }
}

/// The number that a store without a source of chance draws an unread entry
/// by: the nanoseconds of the moment.
pub open spec fn draw_at(now: Timestamp) -> u32 {
    if now.nsec >= 0 {
        now.nsec as u32
    } else {
        0
    }
}

/// What `command`, given at `now`, asks of the store. A rating outside 1 to
/// 5 fails before anything is asked.
pub open spec fn planned(command: CommandView, now: Timestamp) -> Result<PlanView, TErrView> {
    match command {
        CommandView::Add(e) => Ok(PlanView::Change(ChangeView::Insert(e))),
        CommandView::Search(term) => Ok(PlanView::Fetch(QueryView::Matching { term })),
        CommandView::List => Ok(PlanView::Fetch(QueryView::All)),
        CommandView::Finish(id) => Ok(PlanView::Change(ChangeView::MarkFinished { id, when: now })),
        CommandView::Delete(id) => Ok(PlanView::Change(ChangeView::Delete { id })),
        CommandView::SetPage(id, page) => Ok(PlanView::Change(ChangeView::SetPage { id, page })),
        CommandView::Rate(id, rating) => if rating_in_range(rating) {
            Ok(PlanView::Change(ChangeView::SetRating { id, rating }))
        } else {
            Err(TErrView::BadRating)
        },
        CommandView::Choose => Ok(PlanView::Fetch(QueryView::AnyUnread { draw: draw_at(now) })),
        CommandView::Nil => Ok(PlanView::Nothing),
    }
}

/// The line that tells of a change that was made.
pub open spec fn change_line(change: ChangeView) -> Seq<char> {
    match change {
        ChangeView::Insert(e) => "Successfully added "@ + e.name + " by "@ + e.author,
        ChangeView::MarkFinished { id, .. } => "Entry "@ + decimal(id as nat) + " marked as read"@,
        ChangeView::SetRating { id, rating } => "Entry "@ + decimal(id as nat) + " rated "@
            + decimal(rating as nat) + " stars"@,
        ChangeView::SetPage { id, page } => "Set page to "@ + decimal(page as nat)
            + " for entry "@ + decimal(id as nat),
        ChangeView::Delete { id } => "Entry "@ + decimal(id as nat) + " deleted"@,
    }
}

/// The entry that a change speaks of, for the changes that name one.
pub open spec fn target(change: ChangeView) -> Option<u32> {
    match change {
        ChangeView::Insert(_) => None,
        ChangeView::MarkFinished { id, .. } => Some(id),
        ChangeView::SetRating { id, .. } => Some(id),
        ChangeView::SetPage { id, .. } => Some(id),
        ChangeView::Delete { id } => Some(id),
    }
}

/// What the reader is told of `change` once the store has reported: the
/// store's failure is passed on; a change that names an entry and touched no
/// row fails with `NoSuchEntry`; every other change succeeds with its line.
pub open spec fn change_outcome(change: ChangeView, report: Result<u64, Seq<char>>) -> Result<
    Shown,
    TErrView,
> {
    match report {
        Err(reason) => Err(TErrView::Db(reason)),
        Ok(touched_rows) => match target(change) {
            Some(id) if touched_rows == 0 => Err(TErrView::NoSuchEntry(id)),
            _ => Ok(Shown { listing: None, message: change_line(change) }),
        },
    }
}

/// The line that follows the table of the `count` rows that answered `query`.
pub open spec fn query_line(query: QueryView, count: nat) -> Seq<char> {
    match query {
        QueryView::All => "End of List"@,
        QueryView::Matching { .. } => "Found "@ + decimal(count) + " result(s)"@,
        QueryView::AnyUnread { .. } => "Happy Reading!"@,
    }
}

/// What the reader is told of `query` once the store has answered: the
/// store's failure is passed on; any rows, none included, are shown in a
/// table that the query's line follows.
pub open spec fn fetch_outcome(query: QueryView, report: Result<Rows, Seq<char>>) -> Result<
    Shown,
    TErrView,
> {
    match report {
        Err(reason) => Err(TErrView::Db(reason)),
        Ok(rows) => Ok(Shown { listing: Some(rows), message: query_line(query, rows.len()) }),
    }
}

/// The store's report of a change, with its text as a sequence of characters.
pub open spec fn change_report(report: Result<u64, String>) -> Result<u64, Seq<char>> {
    match report {
        Ok(n) => Ok(n),
        Err(text) => Err(text@),
    }
}

/// The store's answer to a query, with its entries and text as views.
pub open spec fn fetch_report(report: Result<Vec<Entry>, String>) -> Result<Rows, Seq<char>> {
    match report {
        Ok(rows) => Ok(views(rows@)),
        Err(text) => Err(text@),
    }
}

/// The rows of the store after `command` was run at `now`, and what the
/// reader is told.
pub open spec fn run(rows: Rows, command: CommandView, now: Timestamp) -> (
    Rows,
    Result<Shown, TErrView>,
) {
    match planned(command, now) {
        Err(failure) => (rows, Err(failure)),
        Ok(PlanView::Nothing) => (rows, Ok(Shown { listing: None, message: Seq::empty() })),
        Ok(PlanView::Change(change)) => (
            changed(rows, change),
            change_outcome(change, touched(rows, change)),
        ),
        Ok(PlanView::Fetch(query)) => (rows, fetch_outcome(query, Ok(answer(rows, query)))),
    }
}

impl Command {
    /// Writes the words that name the command in a report.
    pub fn describe(&self) -> (text: String)
        ensures
            text@ == self@.describe(),
    {
        match self {
            Command::Add(entry) => {
                let mut text = String::from_str("Add' ");
                text.append(entry.name.as_str());
                text.append("' by '");
                text.append(entry.author.as_str());
                text.append("'");
                text
            },
            Command::Search(term) => {
                let mut text = String::from_str("Search with query '");
                text.append(term.as_str());
                text.append("'");
                text
            },
            Command::List => String::from_str("List entries"),
            Command::Finish(id) => {
                let mut text = String::from_str("Finish entry #");
                text.append(decimal_text(*id as u64).as_str());
                text
            },
            Command::Delete(id) => {
                let mut text = String::from_str("Delete entry #");
                text.append(decimal_text(*id as u64).as_str());
                text
            },
            Command::SetPage(id, page) => {
                let mut text = String::from_str("Set last-page-read to ");
                text.append(decimal_text(*page as u64).as_str());
                text.append("for entry #");
                text.append(decimal_text(*id as u64).as_str());
                text
            },
            Command::Rate(id, rating) => {
                let mut text = String::from_str("Rate entry #");
                text.append(decimal_text(*id as u64).as_str());
                text.append(" ");
                text.append(decimal_text(*rating as u64).as_str());
                text.append(" stars");
                text
            },
            Command::Choose => String::from_str("Choose a random entry"),
            Command::Nil => String::from_str("Nil command for implementation reasons"),
        }
    }

    /// What the command, given at `now`, asks of the store.
    pub fn plan(&self, now: Timestamp) -> (plan: Result<Plan, TErr>)
        ensures
            match planned(self@, now) {
                Ok(expected) => plan matches Ok(p) && p@ == expected,
                Err(failure) => plan matches Err(e) && e@ == failure,
            },
    {
        match self {
            Command::Add(entry) => Ok(Plan::Change(Change::Insert(entry.clone()))),
            Command::Search(term) => Ok(Plan::Fetch(Query::Matching { term: term.clone() })),
            Command::List => Ok(Plan::Fetch(Query::All)),
            Command::Finish(id) => Ok(Plan::Change(Change::MarkFinished { id: *id, when: now })),
            Command::Delete(id) => Ok(Plan::Change(Change::Delete { id: *id })),
            Command::SetPage(id, page) => Ok(
                Plan::Change(Change::SetPage { id: *id, page: *page }),
            ),
            Command::Rate(id, rating) => {
                if is_valid_rating(*rating) {
                    Ok(Plan::Change(Change::SetRating { id: *id, rating: *rating }))
                } else {
                    Err(TErr::BadRating)
                }
            },
            Command::Choose => {
                let draw: u32 = if now.nsec >= 0 {
                    now.nsec as u32
                } else {
                    0
                };
                Ok(Plan::Fetch(Query::AnyUnread { draw }))
            },
            Command::Nil => Ok(Plan::Nothing),
        }
    }
}

fn change_text(change: &Change) -> (text: String)
    ensures
        text@ == change_line(change@),
{
    match change {
        Change::Insert(entry) => {
            let mut text = String::from_str("Successfully added ");
            text.append(entry.name.as_str());
            text.append(" by ");
            text.append(entry.author.as_str());
            text
        },
        Change::MarkFinished { id, .. } => {
            let mut text = String::from_str("Entry ");
            text.append(decimal_text(*id as u64).as_str());
            text.append(" marked as read");
            text
        },
        Change::SetRating { id, rating } => {
            let mut text = String::from_str("Entry ");
            text.append(decimal_text(*id as u64).as_str());
            text.append(" rated ");
            text.append(decimal_text(*rating as u64).as_str());
            text.append(" stars");
            text
        },
        Change::SetPage { id, page } => {
            let mut text = String::from_str("Set page to ");
            text.append(decimal_text(*page as u64).as_str());
            text.append(" for entry ");
            text.append(decimal_text(*id as u64).as_str());
            text
        },
        Change::Delete { id } => {
            let mut text = String::from_str("Entry ");
            text.append(decimal_text(*id as u64).as_str());
            text.append(" deleted");
            text
        },
    }
}

/// Tells the reader of `change` once the store has reported the number of
/// rows that it touched, or its failure.
pub fn conclude_change(change: &Change, report: Result<u64, String>) -> (result: Result<
    Outcome,
    TErr,
>)
    ensures
        settles(result, change_outcome(change@, change_report(report))),
{
    match report {
        Err(reason) => Err(TErr::Db(reason)),
        Ok(touched_rows) => {
            let named: Option<u32> = match change {
                Change::Insert(_) => None,
                Change::MarkFinished { id, .. } => Some(*id),
                Change::SetRating { id, .. } => Some(*id),
                Change::SetPage { id, .. } => Some(*id),
                Change::Delete { id } => Some(*id),
            };
            match named {
                Some(id) if touched_rows == 0 => Err(TErr::NoSuchEntry(id)),
                _ => Ok(Outcome { table: None, message: change_text(change) }),
            }
        },
    }
}

/// Tells the reader of `query` once the store has answered with rows, or
/// with its failure.
pub fn conclude_fetch(query: &Query, report: Result<Vec<Entry>, String>) -> (result: Result<
    Outcome,
    TErr,
>)
    ensures
        settles(result, fetch_outcome(query@, fetch_report(report))),
{
    match report {
        Err(reason) => Err(TErr::Db(reason)),
        Ok(rows) => {
            let table = entries_table(&rows);
            let message = match query {
                Query::All => String::from_str("End of List"),
                Query::Matching { .. } => {
                    let mut text = String::from_str("Found ");
                    text.append(decimal_text(rows.len() as u64).as_str());
                    text.append(" result(s)");
                    text
                },
                Query::AnyUnread { .. } => String::from_str("Happy Reading!"),
            };
            Ok(Outcome { table: Some(table), message })
        },
    }
}

/// Runs `command`, given at `now`, against the in-memory table.
pub fn exec_command_at(shelf: &mut Shelf, command: Command, now: Timestamp) -> (result: Result<
    Outcome,
    TErr,
>)
    requires
        old(shelf).wf(),
    ensures
        final(shelf).wf(),
        final(shelf)@ == run(old(shelf)@, command@, now).0,
        settles(result, run(old(shelf)@, command@, now).1),
{
    match command.plan(now) {
        Err(failure) => Err(failure),
        Ok(Plan::Nothing) => Ok(Outcome { table: None, message: String::new() }),
        Ok(Plan::Change(change)) => {
            let report = shelf.apply(&change);
            conclude_change(&change, report)
        },
        Ok(Plan::Fetch(query)) => {
            let rows = shelf.fetch(&query);
            conclude_fetch(&query, Ok(rows))
        },
    }
}

/// Runs `command` against the in-memory table, at the moment that the
/// machine's clock gives: the rows change, and the reader is told, as `run`
/// says of that moment.
pub fn exec_command(shelf: &mut Shelf, command: Command) -> (result: Result<Outcome, TErr>)
    requires
        old(shelf).wf(),
    ensures
        final(shelf).wf(),
        exists|now: Timestamp|
            now.well_formed() && final(shelf)@ == (#[trigger] run(old(shelf)@, command@, now)).0
                && settles(result, run(old(shelf)@, command@, now).1),
{
    let now = clock_now();
    exec_command_at(shelf, command, now)
}

} // verus!
