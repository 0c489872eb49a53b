//! A run of the reading list, once for the program's arguments or line by
//! line: what is remembered of the lines, what each of them asks of the
//! store, and what the reader is shown.

use crate::args::{parse_command_at, parsed, Invocation, InvocationView};
use crate::commands::{
    change_outcome, change_report, conclude_change, conclude_fetch, exec_command_at, fetch_outcome,
    fetch_report, planned, run, settles, Command, CommandView, Outcome, Plan, PlanView, Shown,
};
use crate::data::{clock_now, Entry, Timestamp};
use crate::err::{TErr, TErrView};
use crate::history::{join_lines, joined, lines_of, split_lines, texts};
use crate::store::{Change, ChangeView, Query, QueryView, Rows, Shelf};
use vstd::prelude::*;
use vstd::string::*;

verus! {

/// What the reader sees before each line of a session.
pub const PROMPT: &'static str = "torus->> ";

/// The words of `line`, split at spaces as a shell does it, with quotes and
/// backslashes resolved.
pub uninterp spec fn shell_words(line: Seq<char>) -> Seq<Seq<char>>;

/// `cmdline_parser::unix::Parser`: the words that the parser yields for
/// `line`, from first to last.
#[verifier::external_body]
fn split_words(line: &str) -> (words: Vec<String>)
    ensures
        texts(words@) == shell_words(line@),
{
    cmdline_parser::unix::Parser::new(line).map(|(_, word)| word).collect()
}

/// How the program was started: for one command, or for a session of lines.
#[derive(Debug, Clone, Copy, PartialEq, Eq, Structural)]
pub enum Mode {
    Once,
    Interactive,
}

/// Why the grammar has not matched.
#[derive(Debug, Clone, Copy, PartialEq, Eq, Structural)]
pub enum Refusal {
    /// The reader asked for help; the text is the help.
    Help,
    /// The reader asked for the version; the text names it.
    Version,
    /// The arguments do not fit the grammar; the text says why.
    Malformed,
}

/// What the grammar says where it has not matched.
#[derive(Debug, PartialEq, Eq)]
pub struct GrammarFailure {
    pub kind: Refusal,
    pub text: String,
}

/// What is to be shown to the reader.
#[derive(Debug, PartialEq, Eq)]
pub enum Report {
    /// Nothing.
    Silent,
    /// On the output stream: the table of the outcome, if it has one, then
    /// its line.
    Shown(Outcome),
    /// A text on the output stream.
    Notice(String),
    /// A text on the error stream.
    Failure(String),
}

/// What a `Report` is to show, with its texts as sequences of characters
/// and its table as the entries that it lists.
pub enum Expected {
    Silent,
    Shown(Shown),
    Notice(Seq<char>),
    Failure(Seq<char>),
}

impl Report {
    /// Whether the report shows what `expected` describes.
    pub open spec fn shows(&self, expected: Expected) -> bool {
        match expected {
            Expected::Silent => *self is Silent,
            Expected::Shown(shown) => *self matches Report::Shown(outcome) && outcome.presents(
                shown,
            ),
            Expected::Notice(text) => *self matches Report::Notice(t) && t@ == text,
            Expected::Failure(text) => *self matches Report::Failure(t) && t@ == text,
        }
    }
}

/// What the reader is told where the arguments of a command cannot be read.
pub open spec fn refusal_line(failure: TErrView) -> Seq<char> {
    "Error: "@ + failure.reason()
}

/// What the reader is told of a command that failed: in a session the line
/// names the command, for a single command it does not.
pub open spec fn failure_line(mode: Mode, command: CommandView, failure: TErrView) -> Seq<char> {
    match mode {
        Mode::Once => "Error: "@ + failure.reason(),
        Mode::Interactive => "Command `"@ + command.describe() + "` failed. Caused by: "@
            + failure.reason(),
    }
}

/// What the reader is shown of `command` once it is done: nothing for the
/// empty command, the outcome for every other that succeeded, the failure's
/// line on the error stream for one that failed.
pub open spec fn reported(mode: Mode, command: CommandView, result: Result<Shown, TErrView>) -> Expected {
    match result {
        Ok(shown) => if command is Nil {
            Expected::Silent
        } else {
            Expected::Shown(shown)
        },
        Err(failure) => Expected::Failure(failure_line(mode, command, failure)),
    }
}

/// What the reader is shown where the grammar has not matched: the help on
/// the output stream, anything else on the error stream.
pub open spec fn grammar_report(kind: Refusal, text: Seq<char>) -> Expected {
    match kind {
        Refusal::Help => Expected::Notice(text),
        _ => Expected::Failure(text),
    }
}

/// Where a command stands after its first step.
#[derive(Debug, PartialEq, Eq)]
pub enum Progress {
    /// It is done, and this is to be shown.
    Done(Report),
    /// The store is to make a change; `PendingChange::finish` takes its
    /// report.
    Change(PendingChange),
    /// The store is to read rows; `PendingFetch::finish` takes them.
    Fetch(PendingFetch),
}

/// A command that waits for the store to make a change.
#[derive(Debug, PartialEq, Eq)]
pub struct PendingChange {
    pub mode: Mode,
    pub command: Command,
    pub change: Change,
}

/// A command that waits for the store to read rows.
#[derive(Debug, PartialEq, Eq)]
pub struct PendingFetch {
    pub mode: Mode,
    pub command: Command,
    pub query: Query,
}

/// What a `Progress` holds, as views.
pub enum Step {
    Done(Expected),
    Change { mode: Mode, command: CommandView, change: ChangeView },
    Fetch { mode: Mode, command: CommandView, query: QueryView },
}

impl Progress {
    /// Whether the progress is what `step` describes.
    pub open spec fn is_step(&self, step: Step) -> bool {
        match step {
            Step::Done(expected) => *self matches Progress::Done(report) && report.shows(expected),
            Step::Change { mode, command, change } => *self matches Progress::Change(pending)
                && pending.mode == mode && pending.command@ == command && pending.change@
                == change,
            Step::Fetch { mode, command, query } => *self matches Progress::Fetch(pending)
                && pending.mode == mode && pending.command@ == command && pending.query@ == query,
        }
    }
}

/// The grammar's result, as views.
pub open spec fn grammar_view(matched: Result<Invocation, GrammarFailure>) -> Result<
    InvocationView,
    (Refusal, Seq<char>),
> {
    match matched {
        Ok(invocation) => Ok(invocation@),
        Err(failure) => Err((failure.kind, failure.text@)),
    }
}

/// The first step of what the grammar has matched at `now`: a refusal of the
/// grammar is shown; arguments that cannot be read are refused; a command
/// that needs no store, or fails before it asks, is done; every other asks
/// the store for what `planned` says.
pub open spec fn begun(
    matched: Result<InvocationView, (Refusal, Seq<char>)>,
    mode: Mode,
    now: Timestamp,
) -> Step {
    match matched {
        Err((kind, text)) => Step::Done(grammar_report(kind, text)),
        Ok(invocation) => match parsed(invocation, now) {
            Err(failure) => Step::Done(Expected::Failure(refusal_line(failure))),
            Ok(command) => match planned(command, now) {
                Err(failure) => Step::Done(reported(mode, command, Err(failure))),
                Ok(PlanView::Nothing) => Step::Done(
                    reported(mode, command, Ok(Shown { listing: None, message: Seq::empty() })),
                ),
                Ok(PlanView::Change(change)) => Step::Change { mode, command, change },
                Ok(PlanView::Fetch(query)) => Step::Fetch { mode, command, query },
            },
        },
    }
}

fn failure_text(mode: Mode, command: &Command, failure: &TErr) -> (text: String)
    ensures
        text@ == failure_line(mode, command@, failure@),
{
    match mode {
        Mode::Once => {
            let mut text = String::from_str("Error: ");
            text.append(failure.reason().as_str());
            text
        },
        Mode::Interactive => {
            let mut text = String::from_str("Command `");
            text.append(command.describe().as_str());
            text.append("` failed. Caused by: ");
            text.append(failure.reason().as_str());
            text
        },
    }
}

/// What the reader is shown of `command` once it is done with `result`.
pub fn report(mode: Mode, command: &Command, result: Result<Outcome, TErr>) -> (shown: Report)
    ensures
        forall|expected: Result<Shown, TErrView>| #[trigger]
            settles(result, expected) ==> shown.shows(reported(mode, command@, expected)),
{
    match result {
        Ok(outcome) => match command {
            Command::Nil => Report::Silent,
            _ => Report::Shown(outcome),
        },
        Err(failure) => Report::Failure(failure_text(mode, command, &failure)),
    }
}

/// What the reader is shown where the grammar has not matched.
pub fn report_refusal(failure: GrammarFailure) -> (shown: Report)
    ensures
        shown.shows(grammar_report(failure.kind, failure.text@)),
{
    match failure.kind {
        Refusal::Help => Report::Notice(failure.text),
        _ => Report::Failure(failure.text),
    }
}

/// Takes the first step of what the grammar has matched at `now`.
pub fn begin_at(matched: Result<Invocation, GrammarFailure>, mode: Mode, now: Timestamp) -> (progress:
    Progress)
    ensures
        progress.is_step(begun(grammar_view(matched), mode, now)),
{
    let invocation = match matched {
        Err(failure) => {
            return Progress::Done(report_refusal(failure));
        },
        Ok(invocation) => invocation,
    };
    let command = match parse_command_at(&invocation, now) {
        Err(failure) => {
            let mut text = String::from_str("Error: ");
            text.append(failure.reason().as_str());
            return Progress::Done(Report::Failure(text));
        },
        Ok(command) => command,
    };
    match command.plan(now) {
        Err(failure) => {
            let ghost why = failure@;
            let result: Result<Outcome, TErr> = Err(failure);
            assert(settles(result, Err(why)));
            Progress::Done(report(mode, &command, result))
        },
        Ok(Plan::Nothing) => {
            let nothing = Outcome { table: None, message: String::new() };
            assert(settles(
                Ok(nothing),
                Ok(Shown { listing: None, message: Seq::empty() }),
            ));
            Progress::Done(report(mode, &command, Ok(nothing)))
        },
        Ok(Plan::Change(change)) => Progress::Change(PendingChange { mode, command, change }),
        Ok(Plan::Fetch(query)) => Progress::Fetch(PendingFetch { mode, command, query }),
    }
}

/// Takes the first step of what the grammar has matched, at the moment that
/// the machine's clock gives.
pub fn begin(matched: Result<Invocation, GrammarFailure>, mode: Mode) -> (progress: Progress)
    ensures
        exists|now: Timestamp|
            now.well_formed() && progress.is_step(
                #[trigger] begun(grammar_view(matched), mode, now),
            ),
{
    let now = clock_now();
    begin_at(matched, mode, now)
}

impl PendingChange {
    /// Ends the command with the store's report of the change: the number of
    /// rows that it touched, or its failure.
    pub fn finish(self, applied: Result<u64, String>) -> (shown: Report)
        ensures
            shown.shows(
                reported(
                    self.mode,
                    self.command@,
                    change_outcome(self.change@, change_report(applied)),
                ),
            ),
    {
        let result = conclude_change(&self.change, applied);
        report(self.mode, &self.command, result)
    }
}

impl PendingFetch {
    /// Ends the command with the rows that the store has read, or its
    /// failure.
    pub fn finish(self, fetched: Result<Vec<Entry>, String>) -> (shown: Report)
        ensures
            shown.shows(
                reported(
                    self.mode,
                    self.command@,
                    fetch_outcome(self.query@, fetch_report(fetched)),
                ),
            ),
    {
        let result = conclude_fetch(&self.query, fetched);
        report(self.mode, &self.command, result)
    }
}

/// The rows of the table after `invocation` was carried out at `now`, and
/// what the reader is shown.
pub open spec fn carried_out(rows: Rows, invocation: InvocationView, mode: Mode, now: Timestamp) -> (
    Rows,
    Expected,
) {
    match parsed(invocation, now) {
        Err(failure) => (rows, Expected::Failure(refusal_line(failure))),
        Ok(command) => (run(rows, command, now).0, reported(mode, command, run(rows, command, now).1)),
    }
}

/// Carries out at `now` what the grammar has matched, against the in-memory
/// table.
pub fn ep_at(shelf: &mut Shelf, invocation: &Invocation, mode: Mode, now: Timestamp) -> (shown:
    Report)
    requires
        old(shelf).wf(),
    ensures
        final(shelf).wf(),
        final(shelf)@ == carried_out(old(shelf)@, invocation@, mode, now).0,
        shown.shows(carried_out(old(shelf)@, invocation@, mode, now).1),
{
    match parse_command_at(invocation, now) {
        Err(failure) => {
            let mut text = String::from_str("Error: ");
            text.append(failure.reason().as_str());
            Report::Failure(text)
        },
        Ok(command) => {
            let copy = command.clone();
            let result = exec_command_at(shelf, command, now);
            report(mode, &copy, result)
        },
    }
}

/// Carries out what the grammar has matched, against the in-memory table,
/// at the moment that the machine's clock gives.
pub fn ep(shelf: &mut Shelf, invocation: &Invocation, mode: Mode) -> (shown: Report)
    requires
        old(shelf).wf(),
    ensures
        final(shelf).wf(),
        exists|now: Timestamp|
            now.well_formed() && final(shelf)@ == (#[trigger] carried_out(
                old(shelf)@,
                invocation@,
                mode,
                now,
            )).0 && shown.shows(carried_out(old(shelf)@, invocation@, mode, now).1),
{
    let now = clock_now();
    ep_at(shelf, invocation, mode, now)
}

/// The lines of a session, oldest first.
pub struct Session {
    history: Vec<String>,
}

impl View for Session {
    type V = Seq<Seq<char>>;

    closed spec fn view(&self) -> Seq<Seq<char>> {
        texts(self.history@)
    }
}

impl Session {
    /// A session without lines.
    pub fn new() -> (session: Session)
        ensures
            session@ == Seq::<Seq<char>>::empty(),
    {
        let session = Session { history: Vec::new() };
        assert(session@ =~= Seq::<Seq<char>>::empty());
        session
    }

    /// A session that starts with the lines of `saved`, the text that an
    /// earlier session has left.
    pub fn resume(saved: &str) -> (session: Session)
        ensures
            session@ == lines_of(saved@),
    {
        Session { history: split_lines(saved) }
    }

    /// Takes a line that the reader has typed: a line that is not empty is
    /// remembered, whatever becomes of it; the words of the line are handed
    /// back for the grammar.
    pub fn accept(&mut self, line: &str) -> (words: Vec<String>)
        ensures
            final(self)@ == if line@.len() > 0 {
                old(self)@.push(line@)
            } else {
                old(self)@
            },
            texts(words@) == shell_words(line@),
    {
        let chars = chars_len(line);
        if chars > 0 {
            let ghost before = self.history@;
            let kept = line.to_owned();
            proof {
                assert(texts(before.push(kept)) =~= texts(before).push(kept@));
            }
            self.history.push(kept);
        }
        split_words(line)
    }

    /// The number of remembered lines.
    pub fn len(&self) -> (n: usize)
        ensures
            n == self@.len(),
    {
        self.history.len()
    }

    /// The remembered lines, oldest first.
    pub fn history(&self) -> (lines: Vec<String>)
        ensures
            texts(lines@) == self@,
    {
        let mut lines: Vec<String> = Vec::new();
        let mut i: usize = 0;
        while i < self.history.len()
            invariant
                i <= self.history.len(),
                lines@ == self.history@.take(i as int),
            decreases self.history.len() - i,
        {
            lines.push(self.history[i].clone());
            assert(self.history@.take(i + 1) == self.history@.take(i as int).push(
                self.history@[i as int],
            ));
            i = i + 1;
        }
        assert(self.history@.take(i as int) == self.history@);
        lines
    }

    /// The text to leave for the next session: every remembered line,
    /// oldest first, each followed by a line feed.
    pub fn history_text(&self) -> (text: String)
        ensures
            text@ == joined(self@),
    {
        join_lines(&self.history)
    }
}

fn chars_len(line: &str) -> (n: usize)
    ensures
        n == line@.len(),
{
    line.unicode_len()
}

} // verus!
