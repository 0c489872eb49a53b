//! The record that the reading list keeps for each book or article.

use vstd::prelude::*;

verus! {

/// The number of nanoseconds in a second.
pub const NANOS_PER_SECOND: i32 = 1_000_000_000;

/// The first second that `Timestamp::nameable` takes, counted from
/// 1970-01-01T00:00:00Z: a second of a year some two thousand million years
/// before it.
pub const FIRST_NAMED_SECOND: i64 = -67_000_000_000_000_000;

/// The last second that `Timestamp::nameable` takes, counted from
/// 1970-01-01T00:00:00Z: a second of a year some two thousand million years
/// after it.
pub const LAST_NAMED_SECOND: i64 = 67_000_000_000_000_000;

/// A point in time: whole seconds since 1970-01-01T00:00:00Z and the
/// nanoseconds that follow them.
#[derive(Debug, Clone, Copy, PartialEq, Eq, Structural)]
pub struct Timestamp {
    pub sec: i64,
    pub nsec: i32,
}

impl Timestamp {
    /// Whether the nanoseconds stay below one second.
    pub open spec fn well_formed(self) -> bool {
        0 <= self.nsec < NANOS_PER_SECOND
    }

    /// Whether a calendar can name the point with a year that a 32-bit
    /// integer holds: its seconds lie well inside the years from minus to
    /// plus 2 147 483 647, in every time zone. The nanoseconds do not count.
    pub open spec fn nameable(self) -> bool {
        FIRST_NAMED_SECOND <= self.sec <= LAST_NAMED_SECOND
    }

    /// Tests `nameable`.
    pub fn is_nameable(&self) -> (ok: bool)
        ensures
            ok == self.nameable(),
    {
        FIRST_NAMED_SECOND <= self.sec && self.sec <= LAST_NAMED_SECOND
    }
}

/// `time::get_time`: the moment at which it is called, by the machine's
/// clock. The nanoseconds of what it returns stay below one second.
#[verifier::external_body]
pub(crate) fn clock_now() -> (now: Timestamp)
    ensures
        now.well_formed(),
{
    let moment = time::get_time();
    Timestamp { sec: moment.sec, nsec: moment.nsec }
}

/// Whether `rating` is a number of stars that an entry can carry.
pub open spec fn rating_in_range(rating: u8) -> bool {
    1 <= rating <= 5
}

/// Tests a number of stars against the accepted range.
pub fn is_valid_rating(rating: u8) -> (ok: bool)
    ensures
        ok == rating_in_range(rating),
{
    1 <= rating && rating <= 5
}

/// One item of the reading list.
#[derive(Debug, PartialEq, Eq)]
pub struct Entry {
    /// Identity given by the store; 0 until the entry has been stored.
    pub id: i32,
    pub name: String,
    /// Whether the entry has been finished.
    pub read: bool,
    /// The last page read.
    pub page: u32,
    pub genre: String,
    pub author: String,
    pub date_added: Timestamp,
    /// When the entry was finished, if it was.
    pub date_finished: Option<Timestamp>,
    /// Stars from 1 to 5, if the entry was rated.
    pub rating: Option<u8>,
}

/// What an `Entry` holds, with its texts as sequences of characters.
pub struct EntryView {
    pub id: i32,
    pub name: Seq<char>,
    pub read: bool,
    pub page: u32,
    pub genre: Seq<char>,
    pub author: Seq<char>,
    pub date_added: Timestamp,
    pub date_finished: Option<Timestamp>,
    pub rating: Option<u8>,
}

impl EntryView {
    /// Whether a rating, where there is one, lies between 1 and 5.
    pub open spec fn rating_valid(self) -> bool {
        self.rating matches Some(stars) ==> rating_in_range(stars)
    }

    /// Whether the entry is as a new one is made: not yet stored, unread,
    /// unfinished and unrated.
    pub open spec fn fresh(self) -> bool {
        &&& self.id == 0
        &&& !self.read
        &&& self.date_finished is None
        &&& self.rating is None
    }
}

impl View for Entry {
    type V = EntryView;

    open spec fn view(&self) -> EntryView {
        EntryView {
            id: self.id,
            name: self.name@,
            read: self.read,
            page: self.page,
            genre: self.genre@,
            author: self.author@,
            date_added: self.date_added,
            date_finished: self.date_finished,
            rating: self.rating,
        }
    }
}

impl Clone for Entry {
    fn clone(&self) -> (copy: Self)
        ensures
            copy == *self,
    {
        Entry {
            id: self.id,
            name: self.name.clone(),
            read: self.read,
            page: self.page,
            genre: self.genre.clone(),
            author: self.author.clone(),
            date_added: self.date_added,
            date_finished: self.date_finished,
            rating: self.rating,
        }
    }
}

impl Entry {
    /// A new entry as it stands before it is stored: no identity yet,
    /// unread, no finishing date and no rating.
    pub fn new(name: String, author: String, genre: String, page: u32, now: Timestamp) -> (entry:
        Entry)
        ensures
            entry@ == (EntryView {
                id: 0,
                name: name@,
                read: false,
                page: page,
                genre: genre@,
                author: author@,
                date_added: now,
                date_finished: None,
                rating: None,
            }),
            entry@.fresh(),
    {
        Entry {
            id: 0,
            name,
            read: false,
            page,
            genre,
            author,
            date_added: now,
            date_finished: None,
            rating: None,
        }
    }
}

/// The views of the entries of `entries`, in order.
pub open spec fn views(entries: Seq<Entry>) -> Seq<EntryView> {
    entries.map_values(|e: Entry| e@)
}

/// Copies a list of entries.
pub fn clone_entries(entries: &Vec<Entry>) -> (copy: Vec<Entry>)
    ensures
        copy@ == entries@,
{
    let mut copy: Vec<Entry> = Vec::new();
    let mut i: usize = 0;
    while i < entries.len()
        invariant
            i <= entries.len(),
            copy@ == entries@.take(i as int),
        decreases entries.len() - i,
    {
        copy.push(entries[i].clone());
        assert(entries@.take(i + 1) == entries@.take(i as int).push(entries@[i as int]));
        i = i + 1;
    }
    assert(entries@.take(entries.len() as int) == entries@);
    copy
}

} // verus!
