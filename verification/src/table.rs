//! The table that shows entries to the reader, one row for each.

use crate::data::{Entry, EntryView, Timestamp};
use crate::text::{
    chars_of, decimal, decimal_text, is_digit, lemma_decimal_digits, push_char, signed_decimal,
    signed_text, truth_text, truth_word,
};
use vstd::prelude::*;
use vstd::string::*;

verus! {

/// The pattern in which a date is shown: month/day/year and the time of day.
pub const DATE_FMT: &'static str = "%D %T";

/// `prettytable::Table`, a table of rows of cells; nothing of its inside is
/// known here.
#[verifier::external_type_specification]
#[verifier::external_body]
pub struct ExTable(prettytable::Table);

/// `prettytable::Row`, a row of cells; nothing of its inside is known here.
#[verifier::external_type_specification]
#[verifier::external_body]
pub struct ExRow(prettytable::Row);

/// What a cell made from `text` holds as its content: the lines that
/// `prettytable::Cell::new` keeps of the text, as
/// `prettytable::Cell::get_content` joins them.
pub uninterp spec fn cell_content(text: Seq<char>) -> Seq<char>;

/// The contents of the cells of `row`, from left to right, each as
/// `prettytable::Cell::get_content` gives it.
pub uninterp spec fn row_cells(row: prettytable::Row) -> Seq<Seq<char>>;

/// The rows of `table` from top to bottom, each as the contents of its cells.
pub uninterp spec fn table_rows(table: prettytable::Table) -> Seq<Seq<Seq<char>>>;

/// Whether `text` holds neither a line feed nor a carriage return.
pub open spec fn single_line(text: Seq<char>) -> bool {
    forall|i: int| 0 <= i < text.len() ==> text[i] != '\n' && text[i] != '\r'
}

/// The character that opens a terminal's control sequence.
pub const ESCAPE: char = '\u{1b}';

/// Whether `text` holds no escape character.
pub open spec fn no_escape(text: Seq<char>) -> bool {
    forall|i: int| 0 <= i < text.len() ==> text[i] != ESCAPE
}

/// The test for a character that is no escape character.
pub open spec fn not_escape() -> spec_fn(char) -> bool {
    |c: char| c != ESCAPE
}

/// `text` without its escape characters, which a cell does not take.
pub open spec fn without_escapes(text: Seq<char>) -> Seq<char> {
    text.filter(not_escape())
}

/// Whether `c` can stand in a date as the table shows it: a digit, a
/// slash, a colon, a space or a minus sign.
pub open spec fn date_char(c: char) -> bool {
    is_digit(c) || c == '/' || c == ':' || c == ' ' || c == '-'
}

/// Whether `text` can be a date as the table shows it: not empty, and made
/// of digits, slashes, colons, spaces and minus signs alone.
pub open spec fn date_like(text: Seq<char>) -> bool {
    &&& text.len() > 0
    &&& forall|i: int| 0 <= i < text.len() ==> date_char(#[trigger] text[i])
}

/// Whether `cell` is the content of a cell made from `text`. A text of a
/// single line is kept as it is.
pub open spec fn cell_shows(cell: Seq<char>, text: Seq<char>) -> bool {
    &&& cell == cell_content(text)
    &&& single_line(text) ==> cell == text
}

/// `prettytable::Table::new`: a table without rows.
#[verifier::external_body]
fn new_table() -> (table: prettytable::Table)
    ensures
        table_rows(table) == Seq::<Seq<Seq<char>>>::empty(),
{
    prettytable::Table::new()
}

/// `prettytable::Table::add_row`: the row becomes the last of the table.
#[verifier::external_body]
fn add_row(table: &mut prettytable::Table, row: prettytable::Row)
    ensures
        table_rows(*final(table)) == table_rows(*old(table)).push(row_cells(row)),
{
    table.add_row(row);
}

/// `prettytable::Row::empty`: a row without cells.
#[verifier::external_body]
fn new_row() -> (row: prettytable::Row)
    ensures
        row_cells(row) == Seq::<Seq<char>>::empty(),
{
    prettytable::Row::empty()
}

/// `prettytable::Row::add_cell` with a cell of `prettytable::Cell::new`: the
/// row gains a last cell made from `text`. The cell keeps the lines of the
/// text, so a text of one line is its content. `Cell::new` measures the
/// text, and stops the program on some texts in which characters follow an
/// escape character; a text without escape characters is always taken.
#[verifier::external_body]
fn add_text_cell(row: &mut prettytable::Row, text: &str)
    requires
        no_escape(text@),
    ensures
        row_cells(*final(row)) == row_cells(*old(row)).push(cell_content(text@)),
        single_line(text@) ==> row_cells(*final(row)).last() == text@,
{
    row.add_cell(prettytable::Cell::new(text));
}

/// `prettytable::Row::add_cell` with the cell of `prettytable::Cell::default`:
/// the row gains a last cell whose content is empty.
#[verifier::external_body]
fn add_blank_cell(row: &mut prettytable::Row)
    ensures
        row_cells(*final(row)) == row_cells(*old(row)).push(Seq::<char>::empty()),
{
    row.add_cell(prettytable::Cell::default());
}

/// `time::at` and `time::strftime`: the point `at` in the machine's own time
/// zone, written after the pattern of the table, which is month, day and
/// the last two digits of the year between slashes, a space, and hour,
/// minute and second between colons. Which numbers these are depends on
/// the time zone, so the text is not named; it is made of the numbers and
/// the marks between them alone. `time::at` stops the program where the
/// system cannot name the year of the point, which happens only to a year
/// that a 32-bit integer cannot hold; `time::strftime` refuses only a
/// pattern it does not know, or a month or weekday out of range, which the
/// system does not give.
#[verifier::external_body]
fn format_local(at: Timestamp, format: &str) -> (text: Option<String>)
    requires
        at.nameable(),
        format@ == DATE_FMT@,
    ensures
        text is Some,
        text matches Some(date) ==> date_like(date@),
{
    time::strftime(format, &time::at(time::Timespec { sec: at.sec, nsec: at.nsec })).ok()
}

/// The date `at` as the table shows it, in the machine's own time zone: a
/// text for every point that a calendar can name, none for any other.
pub fn date_text(at: Timestamp) -> (text: Option<String>)
    ensures
        text is Some <==> at.nameable(),
        text matches Some(t) ==> date_like(t@),
{
    if at.is_nameable() {
        format_local(at, DATE_FMT)
    } else {
        None
    }
}

/// A filter that every character passes keeps the text as it is.
proof fn lemma_filter_keeps(text: Seq<char>, test: spec_fn(char) -> bool)
    requires
        forall|i: int| 0 <= i < text.len() ==> test(#[trigger] text[i]),
    ensures
        text.filter(test) == text,
    decreases text.len(),
{
    reveal(Seq::filter);
    if text.len() > 0 {
        let front = text.drop_last();
        assert forall|i: int| 0 <= i < front.len() implies test(#[trigger] front[i]) by {
            assert(front[i] == text[i]);
        }
        lemma_filter_keeps(front, test);
        assert(test(text[text.len() - 1]));
        assert(front.push(text.last()) == text);
    }
}

/// A text without escape characters is itself without them; every other
/// text loses them and nothing else.
pub proof fn lemma_without_escapes(text: Seq<char>)
    ensures
        no_escape(without_escapes(text)),
        no_escape(text) ==> without_escapes(text) == text,
{
    assert forall|i: int| 0 <= i < without_escapes(text).len() implies without_escapes(text)[i]
        != ESCAPE by {
        text.lemma_filter_pred(not_escape(), i);
    }
    if no_escape(text) {
        assert forall|i: int| 0 <= i < text.len() implies not_escape()(#[trigger] text[i]) by {}
        lemma_filter_keeps(text, not_escape());
    }
}

/// Writes `text` without its escape characters.
pub fn plain_text(text: &str) -> (plain: String)
    ensures
        plain@ == without_escapes(text@),
        no_escape(plain@),
        no_escape(text@) ==> plain@ == text@,
{
    let chars = chars_of(text);
    let mut plain = String::new();
    let mut i: usize = 0;
    proof {
        reveal(Seq::filter);
        assert(chars@.take(0).filter(not_escape()) =~= Seq::<char>::empty());
    }
    while i < chars.len()
        invariant
            i <= chars.len(),
            chars@ == text@,
            plain@ == chars@.take(i as int).filter(not_escape()),
        decreases chars.len() - i,
    {
        let c: char = chars[i];
        proof {
            assert(chars@.take(i + 1) == chars@.take(i as int).push(c));
            chars@.take(i as int).lemma_filter_push(c, not_escape());
        }
        if c != ESCAPE {
            push_char(&mut plain, c);
        }
        i = i + 1;
    }
    proof {
        assert(chars@.take(i as int) == chars@);
        lemma_without_escapes(text@);
    }
    plain
}

/// The first row of every table: the names of the columns.
pub open spec fn header() -> Seq<Seq<char>> {
    seq![
        "ID"@,
        "Name"@,
        "AUTHOR"@,
        "GENRE"@,
        "PAGE"@,
        "READ"@,
        "DATE ADDED"@,
        "DATE FINISHED"@,
        "RATING"@,
    ]
}

/// Whether `cells` is the row that shows the entry `e`: identity, name,
/// author, genre, page, read flag, the two dates and, for a rated entry only,
/// the rating. Name, author and genre are shown without escape characters.
/// A date that a calendar can name fills its cell with numbers and the
/// marks between them, which follow the machine's time zone and are left
/// open; a date that is absent, or that no calendar can name, leaves its
/// cell empty.
pub open spec fn shows(cells: Seq<Seq<char>>, e: EntryView) -> bool {
    &&& cells.len() == if e.rating is Some { 9int } else { 8int }
    &&& cells[0] == signed_decimal(e.id as int)
    &&& cell_shows(cells[1], without_escapes(e.name))
    &&& cell_shows(cells[2], without_escapes(e.author))
    &&& cell_shows(cells[3], without_escapes(e.genre))
    &&& cells[4] == decimal(e.page as nat)
    &&& cells[5] == truth_word(e.read)
    &&& shows_date(cells[6], Some(e.date_added))
    &&& shows_date(cells[7], e.date_finished)
    &&& (e.rating matches Some(stars) ==> cells[8] == decimal(stars as nat))
}

/// Whether `cell` shows the date `at`: filled as a date is written where
/// there is a date that a calendar can name, empty otherwise.
pub open spec fn shows_date(cell: Seq<char>, at: Option<Timestamp>) -> bool {
    match at {
        Some(point) => if point.nameable() {
            date_like(cell)
        } else {
            cell.len() == 0
        },
        None => cell.len() == 0,
    }
}

/// Whether `rows` is the table that shows `entries`: the header, then one
/// row for each entry, in the order of the entries.
pub open spec fn shows_all(rows: Seq<Seq<Seq<char>>>, entries: Seq<EntryView>) -> bool {
    &&& rows.len() == entries.len() + 1
    &&& rows[0] == header()
    &&& forall|i: int| 0 <= i < entries.len() ==> shows(#[trigger] rows[i + 1], entries[i])
}

proof fn lemma_numeral_plain(n: int)
    ensures
        single_line(signed_decimal(n)),
        no_escape(signed_decimal(n)),
        n >= 0 ==> single_line(decimal(n as nat)) && no_escape(decimal(n as nat)),
{
    if n < 0 {
        lemma_decimal_digits((-n) as nat);
    } else {
        lemma_decimal_digits(n as nat);
    }
}

proof fn lemma_truth_word_plain(b: bool)
    ensures
        single_line(truth_word(b)),
        no_escape(truth_word(b)),
{
    reveal_strlit("true");
    reveal_strlit("false");
}

fn add_date_cell(row: &mut prettytable::Row, at: Option<Timestamp>)
    ensures
        row_cells(*final(row)).len() == row_cells(*old(row)).len() + 1,
        row_cells(*final(row)).drop_last() == row_cells(*old(row)),
        shows_date(row_cells(*final(row)).last(), at),
{
    let text = match at {
        Some(point) => date_text(point),
        None => None,
    };
    match text {
        Some(date) => {
            add_text_cell(row, date.as_str());
        },
        None => {
            add_blank_cell(row);
        },
    }
    assert(row_cells(*row).drop_last() == row_cells(*old(row)));
}

/// The row that shows `entry`.
pub fn entry_row(entry: &Entry) -> (row: prettytable::Row)
    ensures
        shows(row_cells(row), entry@),
{
    let mut row = new_row();
    proof {
        lemma_numeral_plain(entry.id as int);
        lemma_numeral_plain(entry.page as int);
        lemma_truth_word_plain(entry.read);
    }
    add_text_cell(&mut row, signed_text(entry.id as i64).as_str());
    add_text_cell(&mut row, plain_text(entry.name.as_str()).as_str());
    add_text_cell(&mut row, plain_text(entry.author.as_str()).as_str());
    add_text_cell(&mut row, plain_text(entry.genre.as_str()).as_str());
    add_text_cell(&mut row, decimal_text(entry.page as u64).as_str());
    add_text_cell(&mut row, truth_text(entry.read).as_str());
    let ghost six = row_cells(row);
    add_date_cell(&mut row, Some(entry.date_added));
    let ghost seven = row_cells(row);
    assert(seven.drop_last() == six);
    assert(forall|i: int| 0 <= i < 6 ==> seven[i] == seven.drop_last()[i]);
    add_date_cell(&mut row, entry.date_finished);
    let ghost eight = row_cells(row);
    assert(eight.drop_last() == seven);
    assert(forall|i: int| 0 <= i < 7 ==> eight[i] == eight.drop_last()[i]);
    match entry.rating {
        Some(stars) => {
            proof {
                lemma_numeral_plain(stars as int);
            }
            add_text_cell(&mut row, decimal_text(stars as u64).as_str());
        },
        None => {},
    }
    row
}

fn header_row() -> (row: prettytable::Row)
    ensures
        row_cells(row) == header(),
{
    let mut row = new_row();
    proof {
        reveal_strlit("ID");
        reveal_strlit("Name");
        reveal_strlit("AUTHOR");
        reveal_strlit("GENRE");
        reveal_strlit("PAGE");
        reveal_strlit("READ");
        reveal_strlit("DATE ADDED");
        reveal_strlit("DATE FINISHED");
        reveal_strlit("RATING");
    }
    add_text_cell(&mut row, "ID");
    add_text_cell(&mut row, "Name");
    add_text_cell(&mut row, "AUTHOR");
    add_text_cell(&mut row, "GENRE");
    add_text_cell(&mut row, "PAGE");
    add_text_cell(&mut row, "READ");
    add_text_cell(&mut row, "DATE ADDED");
    add_text_cell(&mut row, "DATE FINISHED");
    add_text_cell(&mut row, "RATING");
    assert(row_cells(row) =~= header());
    row
}

/// The table that shows `entries`: the header and a row for each entry.
pub fn entries_table(entries: &Vec<Entry>) -> (table: prettytable::Table)
    ensures
        shows_all(table_rows(table), crate::data::views(entries@)),
{
    let mut table = new_table();
    add_row(&mut table, header_row());
    let mut i: usize = 0;
    while i < entries.len()
        invariant
            i <= entries.len(),
            table_rows(table).len() == i + 1,
            table_rows(table)[0] == header(),
            forall|k: int| 0 <= k < i ==> shows(#[trigger] table_rows(table)[k + 1], entries@[k]@),
        decreases entries.len() - i,
    {
        let row = entry_row(&entries[i]);
        add_row(&mut table, row);
        i = i + 1;
    }
    table
}

} // verus!
