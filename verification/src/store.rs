//! The table of entries: what a store is asked to do, what each request
//! means for the rows it holds, and an in-memory table that does it.

use crate::data::{clone_entries, views, Entry, EntryView, Timestamp};
use crate::text::{chars_of, contains_folded, contains_ignore_case, push_char};
use vstd::prelude::*;
use vstd::string::*;

verus! {

/// A request that changes the rows of the store.
#[derive(Debug, PartialEq, Eq)]
pub enum Change {
    /// Add a row with the name, author, genre, page, read flag and adding
    /// date of the entry. The store numbers the row; the row starts without a
    /// finishing date and without a rating.
    Insert(Entry),
    /// Mark the row `id` as read and finished at `when`.
    MarkFinished { id: u32, when: Timestamp },
    /// Give the row `id` the rating `rating`.
    SetRating { id: u32, rating: u8 },
    /// Set the last page read of the row `id`.
    SetPage { id: u32, page: u32 },
    /// Remove the row `id`.
    Delete { id: u32 },
}

/// A request that reads rows of the store, furthest page first.
#[derive(Debug, PartialEq, Eq)]
pub enum Query {
    /// Every row.
    All,
    /// The rows whose name, author or genre holds `term`, ASCII case aside.
    Matching { term: String },
    /// One unread row, or none where every row is read. A store without a
    /// source of chance of its own takes the row from `draw`.
    AnyUnread { draw: u32 },
}

/// What a `Change` holds, with its texts as sequences of characters.
pub enum ChangeView {
    Insert(EntryView),
    MarkFinished { id: u32, when: Timestamp },
    SetRating { id: u32, rating: u8 },
    SetPage { id: u32, page: u32 },
    Delete { id: u32 },
}

/// What a `Query` holds, with its text as a sequence of characters.
pub enum QueryView {
    All,
    Matching { term: Seq<char> },
    AnyUnread { draw: u32 },
}

impl View for Change {
    type V = ChangeView;

    open spec fn view(&self) -> ChangeView {
        match *self {
            Change::Insert(entry) => ChangeView::Insert(entry@),
            Change::MarkFinished { id, when } => ChangeView::MarkFinished { id, when },
            Change::SetRating { id, rating } => ChangeView::SetRating { id, rating },
            Change::SetPage { id, page } => ChangeView::SetPage { id, page },
            Change::Delete { id } => ChangeView::Delete { id },
        }
    }
}

impl View for Query {
    type V = QueryView;

    open spec fn view(&self) -> QueryView {
        match *self {
            Query::All => QueryView::All,
            Query::Matching { term } => QueryView::Matching { term: term@ },
            Query::AnyUnread { draw } => QueryView::AnyUnread { draw },
        }
    }
}

impl Clone for Change {
    fn clone(&self) -> (copy: Self)
        ensures
            copy == *self,
    {
        match self {
            Change::Insert(entry) => Change::Insert(entry.clone()),
            Change::MarkFinished { id, when } => Change::MarkFinished { id: *id, when: *when },
            Change::SetRating { id, rating } => Change::SetRating { id: *id, rating: *rating },
            Change::SetPage { id, page } => Change::SetPage { id: *id, page: *page },
            Change::Delete { id } => Change::Delete { id: *id },
        }
    }
}

impl Clone for Query {
    fn clone(&self) -> (copy: Self)
        ensures
            copy == *self,
    {
        match self {
            Query::All => Query::All,
            Query::Matching { term } => Query::Matching { term: term.clone() },
            Query::AnyUnread { draw } => Query::AnyUnread { draw: *draw },
        }
    }
}

/// Whether `c` has a meaning of its own in a pattern of `LIKE`: the two
/// wildcards and the escape character.
pub open spec fn like_special(c: char) -> bool {
    c == '%' || c == '_' || c == '\\'
}

/// `term` with a backslash before each character that has a meaning of its
/// own in a pattern of `LIKE`, so that it stands for itself.
pub open spec fn like_escaped(term: Seq<char>) -> Seq<char>
    decreases term.len(),
{
    if term.len() == 0 {
        Seq::empty()
    } else if like_special(term.last()) {
        like_escaped(term.drop_last()).push('\\').push(term.last())
    } else {
        like_escaped(term.drop_last()).push(term.last())
    }
}

/// The pattern of `LIKE`, with the backslash as its escape character, that
/// a text matches exactly where `term` stands somewhere in it: the term
/// with its special characters escaped, between two `%`.
pub open spec fn like_pattern(term: Seq<char>) -> Seq<char> {
    seq!['%'] + like_escaped(term) + seq!['%']
}

/// Writes the pattern of `LIKE` for `Query::Matching { term }`, for a store
/// that answers in SQL.
pub fn like_pattern_text(term: &str) -> (pattern: String)
    ensures
        pattern@ == like_pattern(term@),
{
    let chars = chars_of(term);
    let mut pattern = String::new();
    push_char(&mut pattern, '%');
    let mut i: usize = 0;
    assert(chars@.take(0) =~= Seq::<char>::empty());
    assert(pattern@ =~= seq!['%'] + like_escaped(chars@.take(0)));
    while i < chars.len()
        invariant
            i <= chars.len(),
            chars@ == term@,
            pattern@ == seq!['%'] + like_escaped(chars@.take(i as int)),
        decreases chars.len() - i,
    {
        let c: char = chars[i];
        proof {
            assert(chars@.take(i + 1).drop_last() == chars@.take(i as int));
            assert(chars@.take(i + 1).last() == c);
        }
        if c == '%' || c == '_' || c == '\\' {
            push_char(&mut pattern, '\\');
        }
        push_char(&mut pattern, c);
        assert(pattern@ =~= seq!['%'] + like_escaped(chars@.take(i + 1)));
        i = i + 1;
    }
    assert(chars@.take(i as int) == chars@);
    push_char(&mut pattern, '%');
    assert(pattern@ =~= like_pattern(term@));
    pattern
}

/// The rows of a store, in the order in which a listing shows them.
pub type Rows = Seq<EntryView>;

/// The test for the row numbered `id`.
pub open spec fn has_id(id: int) -> spec_fn(EntryView) -> bool {
    |e: EntryView| e.id as int == id
}

/// The test for a row whose page lies before `page`.
pub open spec fn page_below(page: u32) -> spec_fn(EntryView) -> bool {
    |e: EntryView| e.page < page
}

/// The test for a row whose name, author or genre holds `term`.
pub open spec fn holds_term(term: Seq<char>) -> spec_fn(EntryView) -> bool {
    |e: EntryView|
        contains_folded(e.name, term) || contains_folded(e.author, term) || contains_folded(
            e.genre,
            term,
        )
}

/// The test for a row that has not been read.
pub open spec fn is_unread() -> spec_fn(EntryView) -> bool {
    |e: EntryView| !e.read
}

/// The position of the first row that passes `test`; the number of rows
/// where none does.
pub open spec fn first_index(rows: Rows, test: spec_fn(EntryView) -> bool) -> int
    decreases rows.len(),
{
    if rows.len() == 0 {
        0
    } else if test(rows[0]) {
        0
    } else {
        1 + first_index(rows.drop_first(), test)
    }
}

/// The position of the row numbered `id`; the number of rows where there is
/// no such row.
pub open spec fn index_of_id(rows: Rows, id: u32) -> int {
    first_index(rows, has_id(id as int))
}

/// Whether a row numbered `id` exists.
pub open spec fn holds_id(rows: Rows, id: u32) -> bool {
    index_of_id(rows, id) < rows.len()
}

/// The position at which a row with `page` enters the listing: behind every
/// row that is at least as far along, before every row that is less far.
pub open spec fn slot(rows: Rows, page: u32) -> int {
    first_index(rows, page_below(page))
}

/// The largest number that a row carries; 0 for a table without rows.
pub open spec fn max_id(rows: Rows) -> int
    decreases rows.len(),
{
    if rows.len() == 0 {
        0
    } else if rows.last().id > max_id(rows.drop_last()) {
        rows.last().id as int
    } else {
        max_id(rows.drop_last())
    }
}

/// Whether the store can number one more row.
pub open spec fn has_room(rows: Rows) -> bool {
    max_id(rows) < i32::MAX
}

/// The row that the store makes of the entry `e` when it numbers it `id`.
pub open spec fn stored(e: EntryView, id: i32) -> EntryView {
    EntryView { id: id, date_finished: None, rating: None, ..e }
}

/// The rows after `e` was added.
pub open spec fn added(rows: Rows, e: EntryView) -> Rows {
    rows.insert(slot(rows, e.page), stored(e, (max_id(rows) + 1) as i32))
}

/// The rows after the row `id` was marked as finished at `when`.
pub open spec fn with_finish(rows: Rows, id: u32, when: Timestamp) -> Rows {
    let i = index_of_id(rows, id);
    if i < rows.len() {
        rows.update(i, EntryView { read: true, date_finished: Some(when), ..rows[i] })
    } else {
        rows
    }
}

/// The rows after the row `id` was rated.
pub open spec fn with_rating(rows: Rows, id: u32, rating: u8) -> Rows {
    let i = index_of_id(rows, id);
    if i < rows.len() {
        rows.update(i, EntryView { rating: Some(rating), ..rows[i] })
    } else {
        rows
    }
}

/// The rows after the row `id` was set to `page`: the row leaves its place
/// and enters where its new page puts it.
pub open spec fn with_page(rows: Rows, id: u32, page: u32) -> Rows {
    let i = index_of_id(rows, id);
    if i < rows.len() {
        let rest = rows.remove(i);
        rest.insert(slot(rest, page), EntryView { page: page, ..rows[i] })
    } else {
        rows
    }
}

/// The rows after the row `id` was removed.
pub open spec fn without(rows: Rows, id: u32) -> Rows {
    let i = index_of_id(rows, id);
    if i < rows.len() {
        rows.remove(i)
    } else {
        rows
    }
}

/// What the in-memory table says when it cannot number another row.
pub open spec fn full_text() -> Seq<char> {
    "the table cannot number another entry"@
}

/// The rows after `change`.
pub open spec fn changed(rows: Rows, change: ChangeView) -> Rows {
    match change {
        ChangeView::Insert(e) => if has_room(rows) {
            added(rows, e)
        } else {
            rows
        },
        ChangeView::MarkFinished { id, when } => with_finish(rows, id, when),
        ChangeView::SetRating { id, rating } => with_rating(rows, id, rating),
        ChangeView::SetPage { id, page } => with_page(rows, id, page),
        ChangeView::Delete { id } => without(rows, id),
    }
}

/// What the store reports of `change`: the number of rows that it touched,
/// or why it refused.
pub open spec fn touched(rows: Rows, change: ChangeView) -> Result<u64, Seq<char>> {
    match change {
        ChangeView::Insert(e) => if has_room(rows) {
            Ok(1)
        } else {
            Err(full_text())
        },
        ChangeView::MarkFinished { id, .. } | ChangeView::SetRating { id, .. } | ChangeView::SetPage {
            id,
            ..
        } | ChangeView::Delete { id } => if holds_id(rows, id) {
            Ok(1)
        } else {
            Ok(0)
        },
    }
}

/// The rows that answer `query`.
pub open spec fn answer(rows: Rows, query: QueryView) -> Rows {
    match query {
        QueryView::All => rows,
        QueryView::Matching { term } => rows.filter(holds_term(term)),
        QueryView::AnyUnread { draw } => {
            let unread = rows.filter(is_unread());
            if unread.len() == 0 {
                unread
            } else {
                seq![unread[draw as int % unread.len() as int]]
            }
        },
    }
}

/// Whether the rows stand furthest page first.
pub open spec fn by_page(rows: Rows) -> bool {
    forall|i: int, j: int| 0 <= i < j < rows.len() ==> rows[i].page >= rows[j].page
}

/// Whether every row has a number of its own, and a positive one.
pub open spec fn numbered(rows: Rows) -> bool {
    &&& forall|i: int| 0 <= i < rows.len() ==> (#[trigger] rows[i]).id >= 1
    &&& forall|i: int, j: int| 0 <= i < j < rows.len() ==> rows[i].id != rows[j].id
}

/// What holds of the rows of every store: each has its own positive number,
/// and they stand furthest page first.
pub open spec fn well_formed(rows: Rows) -> bool {
    numbered(rows) && by_page(rows)
}

/// `first_index` is a position of the sequence or its length, no row before
/// it passes the test, and the row at it does.
pub proof fn lemma_first_index(rows: Rows, test: spec_fn(EntryView) -> bool)
    ensures
        0 <= first_index(rows, test) <= rows.len(),
        forall|j: int| 0 <= j < first_index(rows, test) ==> !test(#[trigger] rows[j]),
        first_index(rows, test) < rows.len() ==> test(rows[first_index(rows, test)]),
    decreases rows.len(),
{
    if rows.len() > 0 && !test(rows[0]) {
        let rest = rows.drop_first();
        lemma_first_index(rest, test);
        assert forall|j: int| 0 <= j < first_index(rows, test) implies !test(#[trigger] rows[j]) by {
            if j > 0 {
                assert(rows[j] == rest[j - 1]);
            }
        }
        if first_index(rows, test) < rows.len() {
            assert(rows[first_index(rows, test)] == rest[first_index(rest, test)]);
        }
    }
}

/// A position before which no row passes the test, and at which one does or
/// the rows end, is `first_index`.
pub proof fn lemma_first_index_is(rows: Rows, test: spec_fn(EntryView) -> bool, k: int)
    requires
        0 <= k <= rows.len(),
        forall|j: int| 0 <= j < k ==> !test(#[trigger] rows[j]),
        k < rows.len() ==> test(rows[k]),
    ensures
        first_index(rows, test) == k,
{
    lemma_first_index(rows, test);
}

/// No row carries a number above `max_id`.
pub proof fn lemma_max_id(rows: Rows)
    ensures
        forall|i: int| 0 <= i < rows.len() ==> (#[trigger] rows[i]).id <= max_id(rows),
        rows.len() == 0 ==> max_id(rows) == 0,
        max_id(rows) <= i32::MAX,
        numbered(rows) ==> max_id(rows) >= 0,
    decreases rows.len(),
{
    if rows.len() > 0 {
        let front = rows.drop_last();
        lemma_max_id(front);
        assert forall|i: int| 0 <= i < rows.len() implies (#[trigger] rows[i]).id <= max_id(
            rows,
        ) by {
            if i < rows.len() - 1 {
                assert(rows[i] == front[i]);
            }
        }
        if numbered(rows) {
            assert(rows[rows.len() - 1].id >= 1);
        }
    }
}

/// A row that enters at its slot, under a number that no row carries, leaves
/// the rows well formed.
pub proof fn lemma_insert_well_formed(rows: Rows, row: EntryView)
    requires
        well_formed(rows),
        row.id >= 1,
        forall|i: int| 0 <= i < rows.len() ==> (#[trigger] rows[i]).id != row.id,
    ensures
        well_formed(rows.insert(slot(rows, row.page), row)),
{
    let k = slot(rows, row.page);
    let after = rows.insert(k, row);
    lemma_first_index(rows, page_below(row.page));
    rows.insert_ensures(k, row);
    assert forall|i: int| 0 <= i < after.len() implies (#[trigger] after[i]).id >= 1 by {
        if i < k {
            assert(after[i] == rows[i]);
        } else if i > k {
            assert(after[i] == rows[i - 1]);
        }
    }
    assert forall|i: int, j: int| 0 <= i < j < after.len() implies after[i].id != after[j].id
        && after[i].page >= after[j].page by {
        let a = if i < k {
            i
        } else {
            i - 1
        };
        let b = if j < k {
            j
        } else {
            j - 1
        };
        if i != k {
            assert(after[i] == rows[a]);
        }
        if j != k {
            assert(after[j] == rows[b]);
        }
        if i == k {
            assert(rows[k].page < row.page);
            assert(k < b || k == b);
        }
        if j == k {
            assert(!(rows[a].page < row.page));
        }
    }
}

/// Rows that lose one of their own stay well formed.
pub proof fn lemma_remove_well_formed(rows: Rows, at: int)
    requires
        well_formed(rows),
        0 <= at < rows.len(),
    ensures
        well_formed(rows.remove(at)),
        forall|i: int|
            0 <= i < rows.remove(at).len() ==> (#[trigger] rows.remove(at)[i]).id != rows[at].id,
{
    let after = rows.remove(at);
    rows.remove_ensures(at);
    assert forall|i: int| 0 <= i < after.len() implies (#[trigger] after[i]).id >= 1 && after[i].id
        != rows[at].id by {
        if i < at {
            assert(after[i] == rows[i]);
        } else {
            assert(after[i] == rows[i + 1]);
        }
    }
    assert forall|i: int, j: int| 0 <= i < j < after.len() implies after[i].id != after[j].id
        && after[i].page >= after[j].page by {
        let a = if i < at {
            i
        } else {
            i + 1
        };
        let b = if j < at {
            j
        } else {
            j + 1
        };
        assert(after[i] == rows[a]);
        assert(after[j] == rows[b]);
    }
}

/// Rows of which one is replaced by a row of the same number and page stay
/// well formed.
pub proof fn lemma_update_well_formed(rows: Rows, at: int, row: EntryView)
    requires
        well_formed(rows),
        0 <= at < rows.len(),
        row.id == rows[at].id,
        row.page == rows[at].page,
    ensures
        well_formed(rows.update(at, row)),
{
    let after = rows.update(at, row);
    assert forall|i: int, j: int| 0 <= i < j < after.len() implies after[i].id != after[j].id
        && after[i].page >= after[j].page by {
        assert(after[i].id == rows[i].id && after[i].page == rows[i].page);
        assert(after[j].id == rows[j].id && after[j].page == rows[j].page);
    }
    assert forall|i: int| 0 <= i < after.len() implies (#[trigger] after[i]).id >= 1 by {
        assert(after[i].id == rows[i].id);
    }
}

/// Every change leaves well-formed rows well formed.
pub proof fn lemma_changed_well_formed(rows: Rows, change: ChangeView)
    requires
        well_formed(rows),
    ensures
        well_formed(changed(rows, change)),
{
    match change {
        ChangeView::Insert(e) => {
            if has_room(rows) {
                lemma_max_id(rows);
                lemma_insert_well_formed(rows, stored(e, (max_id(rows) + 1) as i32));
            }
        },
        ChangeView::MarkFinished { id, when } => {
            let i = index_of_id(rows, id);
            lemma_first_index(rows, has_id(id as int));
            if i < rows.len() {
                lemma_update_well_formed(
                    rows,
                    i,
                    EntryView { read: true, date_finished: Some(when), ..rows[i] },
                );
            }
        },
        ChangeView::SetRating { id, rating } => {
            let i = index_of_id(rows, id);
            lemma_first_index(rows, has_id(id as int));
            if i < rows.len() {
                lemma_update_well_formed(rows, i, EntryView { rating: Some(rating), ..rows[i] });
            }
        },
        ChangeView::SetPage { id, page } => {
            let i = index_of_id(rows, id);
            lemma_first_index(rows, has_id(id as int));
            if i < rows.len() {
                lemma_remove_well_formed(rows, i);
                lemma_insert_well_formed(rows.remove(i), EntryView { page: page, ..rows[i] });
            }
        },
        ChangeView::Delete { id } => {
            let i = index_of_id(rows, id);
            lemma_first_index(rows, has_id(id as int));
            if i < rows.len() {
                lemma_remove_well_formed(rows, i);
            }
        },
    }
}

/// An in-memory table of entries.
pub struct Shelf {
    rows: Vec<Entry>,
}

impl View for Shelf {
    type V = Rows;

    closed spec fn view(&self) -> Rows {
        views(self.rows@)
    }
}

impl Shelf {
    /// Whether the rows are well formed. Every table that `new` made and
    /// `apply` changed is.
    pub open spec fn wf(&self) -> bool {
        well_formed(self@)
    }

    /// A table without rows.
    pub fn new() -> (shelf: Shelf)
        ensures
            shelf@ == Seq::<EntryView>::empty(),
            shelf.wf(),
    {
        let shelf = Shelf { rows: Vec::new() };
        assert(shelf@ =~= Seq::<EntryView>::empty());
        shelf
    }

    /// The number of rows.
    pub fn len(&self) -> (n: usize)
        ensures
            n == self@.len(),
    {
        self.rows.len()
    }

    /// The rows, furthest page first.
    pub fn rows(&self) -> (rows: Vec<Entry>)
        ensures
            views(rows@) == self@,
    {
        clone_entries(&self.rows)
    }

    fn find(&self, id: u32) -> (at: usize)
        ensures
            at == index_of_id(self@, id),
            at <= self.rows.len(),
    {
        let mut at: usize = 0;
        while at < self.rows.len() && !(self.rows[at].id >= 0 && self.rows[at].id as u32 == id)
            invariant
                at <= self.rows.len(),
                forall|j: int| 0 <= j < at ==> !has_id(id as int)(#[trigger] views(self.rows@)[j]),
            decreases self.rows.len() - at,
        {
            at = at + 1;
        }
        proof {
            lemma_first_index_is(self@, has_id(id as int), at as int);
        }
        at
    }

    fn place(&self, page: u32) -> (at: usize)
        ensures
            at == slot(self@, page),
            at <= self.rows.len(),
    {
        let mut at: usize = 0;
        while at < self.rows.len() && self.rows[at].page >= page
            invariant
                at <= self.rows.len(),
                forall|j: int| 0 <= j < at ==> !page_below(page)(#[trigger] views(self.rows@)[j]),
            decreases self.rows.len() - at,
        {
            at = at + 1;
        }
        proof {
            lemma_first_index_is(self@, page_below(page), at as int);
        }
        at
    }

    fn top_id(&self) -> (top: i32)
        ensures
            top == max_id(self@),
    {
        let mut top: i32 = 0;
        let mut i: usize = 0;
        while i < self.rows.len()
            invariant
                i <= self.rows.len(),
                top == max_id(views(self.rows@).take(i as int)),
            decreases self.rows.len() - i,
        {
            proof {
                let upto = views(self.rows@).take(i + 1);
                assert(upto.drop_last() == views(self.rows@).take(i as int));
                assert(upto.last() == self.rows@[i as int]@);
            }
            if self.rows[i].id > top {
                top = self.rows[i].id;
            }
            i = i + 1;
        }
        proof {
            assert(views(self.rows@).take(i as int) == views(self.rows@));
        }
        top
    }

    fn enter(&mut self, row: Entry)
        ensures
            final(self)@ == old(self)@.insert(slot(old(self)@, row.page), row@),
    {
        let at = self.place(row.page);
        let ghost before = self.rows@;
        let ghost shown = row@;
        proof {
            assert(views(before.insert(at as int, row)) =~= views(before).insert(
                at as int,
                shown,
            ));
        }
        self.rows.insert(at, row);
    }

    /// Carries out `change` and reports the number of rows it touched, or
    /// why it could not be done.
    pub fn apply(&mut self, change: &Change) -> (report: Result<u64, String>)
        requires
            old(self).wf(),
        ensures
            final(self).wf(),
            final(self)@ == changed(old(self)@, change@),
            match touched(old(self)@, change@) {
                Ok(n) => report == Ok::<u64, String>(n),
                Err(reason) => report matches Err(text) && text@ == reason,
            },
    {
        proof {
            lemma_changed_well_formed(self@, change@);
            lemma_max_id(self@);
        }
        match change {
            Change::Insert(entry) => {
                let top = self.top_id();
                if top >= i32::MAX {
                    return Err(String::from_str("the table cannot number another entry"));
                }
                let row = Entry {
                    id: top + 1,
                    name: entry.name.clone(),
                    read: entry.read,
                    page: entry.page,
                    genre: entry.genre.clone(),
                    author: entry.author.clone(),
                    date_added: entry.date_added,
                    date_finished: None,
                    rating: None,
                };
                assert(row@ == stored(entry@, (max_id(self@) + 1) as i32));
                self.enter(row);
                Ok(1)
            },
            Change::MarkFinished { id, when } => {
                let at = self.find(*id);
                if at >= self.rows.len() {
                    return Ok(0);
                }
                let row = Entry {
                    id: self.rows[at].id,
                    name: self.rows[at].name.clone(),
                    read: true,
                    page: self.rows[at].page,
                    genre: self.rows[at].genre.clone(),
                    author: self.rows[at].author.clone(),
                    date_added: self.rows[at].date_added,
                    date_finished: Some(*when),
                    rating: self.rows[at].rating,
                };
                let ghost before = self.rows@;
                proof {
                    assert(views(before.update(at as int, row)) =~= views(before).update(
                        at as int,
                        row@,
                    ));
                }
                self.rows.set(at, row);
                Ok(1)
            },
            Change::SetRating { id, rating } => {
                let at = self.find(*id);
                if at >= self.rows.len() {
                    return Ok(0);
                }
                let row = Entry {
                    id: self.rows[at].id,
                    name: self.rows[at].name.clone(),
                    read: self.rows[at].read,
                    page: self.rows[at].page,
                    genre: self.rows[at].genre.clone(),
                    author: self.rows[at].author.clone(),
                    date_added: self.rows[at].date_added,
                    date_finished: self.rows[at].date_finished,
                    rating: Some(*rating),
                };
                let ghost before = self.rows@;
                proof {
                    assert(views(before.update(at as int, row)) =~= views(before).update(
                        at as int,
                        row@,
                    ));
                }
                self.rows.set(at, row);
                Ok(1)
            },
            Change::SetPage { id, page } => {
                let at = self.find(*id);
                if at >= self.rows.len() {
                    return Ok(0);
                }
                let ghost before = self.rows@;
                proof {
                    lemma_first_index(self@, has_id(*id as int));
                    lemma_remove_well_formed(self@, at as int);
                    assert(views(before.remove(at as int)) =~= views(before).remove(at as int));
                }
                let mut row = self.rows.remove(at);
                row.page = *page;
                self.enter(row);
                Ok(1)
            },
            Change::Delete { id } => {
                let at = self.find(*id);
                if at >= self.rows.len() {
                    return Ok(0);
                }
                let ghost before = self.rows@;
                proof {
                    lemma_first_index(self@, has_id(*id as int));
                    lemma_remove_well_formed(self@, at as int);
                    assert(views(before.remove(at as int)) =~= views(before).remove(at as int));
                }
                let _ = self.rows.remove(at);
                Ok(1)
            },
        }
    }

    fn select(&self, term: Option<&str>) -> (found: Vec<Entry>)
        ensures
            views(found@) == self@.filter(
                match term {
                    Some(t) => holds_term(t@),
                    None => is_unread(),
                },
            ),
    {
        let ghost test = match term {
            Some(t) => holds_term(t@),
            None => is_unread(),
        };
        let mut found: Vec<Entry> = Vec::new();
        let mut i: usize = 0;
        proof {
            reveal(Seq::filter);
            assert(views(found@) =~= self@.take(0).filter(test));
        }
        while i < self.rows.len()
            invariant
                i <= self.rows.len(),
                test == match term {
                    Some(t) => holds_term(t@),
                    None => is_unread(),
                },
                views(found@) == self@.take(i as int).filter(test),
            decreases self.rows.len() - i,
        {
            let row = &self.rows[i];
            let keep = match term {
                Some(t) => contains_ignore_case(row.name.as_str(), t) || contains_ignore_case(
                    row.author.as_str(),
                    t,
                ) || contains_ignore_case(row.genre.as_str(), t),
                None => !row.read,
            };
            proof {
                assert(self@.take(i + 1) == self@.take(i as int).push(row@));
                self@.take(i as int).lemma_filter_push(row@, test);
                assert(keep == test(row@));
                if keep {
                    assert(views(found@.push(*row)) =~= views(found@).push(row@));
                }
            }
            if keep {
                found.push(row.clone());
            }
            i = i + 1;
        }
        assert(self@.take(i as int) == self@);
        found
    }

    /// The rows that answer `query`, furthest page first.
    pub fn fetch(&self, query: &Query) -> (rows: Vec<Entry>)
        ensures
            views(rows@) == answer(self@, query@),
    {
        match query {
            Query::All => clone_entries(&self.rows),
            Query::Matching { term } => self.select(Some(term.as_str())),
            Query::AnyUnread { draw } => {
                let unread = self.select(None);
                if unread.len() == 0 {
                    unread
                } else {
                    let at: usize = (*draw as usize) % unread.len();
                    let mut one: Vec<Entry> = Vec::new();
                    one.push(unread[at].clone());
                    assert(views(one@) =~= seq![views(unread@)[at as int]]);
                    one
                }
            },
        }
    }
}

} // verus!
