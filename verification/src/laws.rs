//! What holds of the commands of the reading list, whatever the table holds.

use crate::args::InvocationView;
use crate::commands::{
    change_line, change_outcome, draw_at, fetch_outcome, planned, query_line, run, CommandView,
    Shown,
};
use crate::data::{rating_in_range, EntryView, Timestamp};
use crate::err::TErrView;
use crate::session::{begun, carried_out, reported, Mode, Step};
use crate::store::{
    added, answer, by_page, changed, has_id, has_room, holds_id, holds_term, index_of_id,
    is_unread, lemma_changed_well_formed, lemma_first_index, lemma_first_index_is,
    lemma_insert_well_formed, lemma_max_id, lemma_remove_well_formed, max_id, page_below, slot,
    stored, touched, well_formed, ChangeView, Rows,
};
use crate::text::{decimal, occurs_at};
use vstd::prelude::*;

verus! {

/// Every command leaves a well-formed table well formed.
pub proof fn law_run_keeps_well_formed(rows: Rows, command: CommandView, now: Timestamp)
    requires
        well_formed(rows),
    ensures
        well_formed(run(rows, command, now).0),
{
    match command {
        CommandView::Add(e) => lemma_changed_well_formed(rows, ChangeView::Insert(e)),
        CommandView::Finish(id) => lemma_changed_well_formed(
            rows,
            ChangeView::MarkFinished { id, when: now },
        ),
        CommandView::Delete(id) => lemma_changed_well_formed(rows, ChangeView::Delete { id }),
        CommandView::SetPage(id, page) => lemma_changed_well_formed(
            rows,
            ChangeView::SetPage { id, page },
        ),
        CommandView::Rate(id, rating) => {
            if rating_in_range(rating) {
                lemma_changed_well_formed(rows, ChangeView::SetRating { id, rating });
            }
        },
        _ => {},
    }
}

/// After a new entry was added to a table that can number it, a listing
/// holds exactly one row with the number that the table gave it. That row
/// has the fields of the entry and is unread, unfinished and unrated; its
/// number is positive; every other row of the listing is a row that stood
/// there before, in the order in which they stood.
pub proof fn law_add_then_list(rows: Rows, entry: EntryView, now: Timestamp, later: Timestamp)
    requires
        well_formed(rows),
        has_room(rows),
        entry.fresh(),
    ensures
        run(rows, CommandView::Add(entry), now).1 == Ok::<Shown, TErrView>(
            Shown { listing: None, message: change_line(ChangeView::Insert(entry)) },
        ),
        ({
            let after = run(rows, CommandView::Add(entry), now).0;
            let number = (max_id(rows) + 1) as i32;
            let at = slot(rows, entry.page);
            &&& run(after, CommandView::List, later) == (
                after,
                Ok::<Shown, TErrView>(
                    Shown {
                        listing: Some(after),
                        message: query_line(crate::store::QueryView::All, after.len()),
                    },
                ),
            )
            &&& 0 <= at < after.len()
            &&& number >= 1
            &&& after[at] == EntryView { id: number, ..entry }
            &&& !after[at].read
            &&& forall|j: int| 0 <= j < after.len() && j != at ==> (#[trigger] after[j]).id != number
            &&& after.remove(at) == rows
        }),
{
    let number = (max_id(rows) + 1) as i32;
    let at = slot(rows, entry.page);
    let row = stored(entry, number);
    let after = added(rows, entry);
    lemma_max_id(rows);
    lemma_first_index(rows, page_below(entry.page));
    rows.insert_ensures(at, row);
    assert(row == EntryView { id: number, ..entry });
    assert forall|j: int| 0 <= j < after.len() && j != at implies (#[trigger] after[j]).id
        != number by {
        if j < at {
            assert(after[j] == rows[j]);
        } else {
            assert(after[j] == rows[j - 1]);
        }
    }
    assert(after.remove(at) =~= rows);
}

/// Finishing an entry that the table holds marks that row as read and
/// finished at the moment of the command, and leaves every other row and
/// every other field as it was. Finishing an entry that the table does not
/// hold fails with `NoSuchEntry` and changes nothing.
pub proof fn law_finish(rows: Rows, id: u32, now: Timestamp)
    requires
        well_formed(rows),
    ensures
        ({
            let (after, told) = run(rows, CommandView::Finish(id), now);
            let at = index_of_id(rows, id);
            if holds_id(rows, id) {
                &&& told is Ok
                &&& 0 <= at < rows.len()
                &&& rows[at].id == id
                &&& after == rows.update(
                    at,
                    EntryView { read: true, date_finished: Some(now), ..rows[at] },
                )
                &&& after[at].read
                &&& after[at].date_finished is Some
            } else {
                &&& told == Err::<Shown, TErrView>(TErrView::NoSuchEntry(id))
                &&& after == rows
            }
        }),
{
    lemma_first_index(rows, has_id(id as int));
}

/// A rating outside 1 to 5 is refused with `BadRating` before anything is
/// asked of the store, whether or not the table holds the entry, and the
/// table stays as it was.
pub proof fn law_bad_rating(rows: Rows, id: u32, rating: u8, now: Timestamp)
    requires
        !rating_in_range(rating),
    ensures
        planned(CommandView::Rate(id, rating), now) == Err::<crate::commands::PlanView, TErrView>(
            TErrView::BadRating,
        ),
        run(rows, CommandView::Rate(id, rating), now) == (
            rows,
            Err::<Shown, TErrView>(TErrView::BadRating),
        ),
{
}

/// Deleting an entry that the table holds succeeds; deleting it once more
/// fails with `NoSuchEntry`.
pub proof fn law_delete_twice(rows: Rows, id: u32, now: Timestamp, later: Timestamp)
    requires
        well_formed(rows),
        holds_id(rows, id),
    ensures
        run(rows, CommandView::Delete(id), now).1 == Ok::<Shown, TErrView>(
            Shown { listing: None, message: change_line(ChangeView::Delete { id }) },
        ),
        run(run(rows, CommandView::Delete(id), now).0, CommandView::Delete(id), later).1 == Err::<
            Shown,
            TErrView,
        >(TErrView::NoSuchEntry(id)),
        run(run(rows, CommandView::Delete(id), now).0, CommandView::Delete(id), later).0 == run(
            rows,
            CommandView::Delete(id),
            now,
        ).0,
{
    let at = index_of_id(rows, id);
    lemma_first_index(rows, has_id(id as int));
    lemma_remove_well_formed(rows, at);
    let after = rows.remove(at);
    assert forall|j: int| 0 <= j < after.len() implies !has_id(id as int)(#[trigger] after[j]) by {
        assert(after[j].id != rows[at].id);
    }
    lemma_first_index_is(after, has_id(id as int), after.len() as int);
}

/// Whether `term` stands in the name, the author or the genre of `e`, ASCII
/// case aside.
pub open spec fn matches_term(e: EntryView, term: Seq<char>) -> bool {
    holds_term(term)(e)
}

/// A filter that every row passes keeps the rows as they are.
pub proof fn lemma_filter_all(rows: Rows, test: spec_fn(EntryView) -> bool)
    requires
        forall|i: int| 0 <= i < rows.len() ==> test(#[trigger] rows[i]),
    ensures
        rows.filter(test) == rows,
    decreases rows.len(),
{
    reveal(Seq::filter);
    if rows.len() > 0 {
        let front = rows.drop_last();
        assert forall|i: int| 0 <= i < front.len() implies test(#[trigger] front[i]) by {
            assert(front[i] == rows[i]);
        }
        lemma_filter_all(front, test);
        assert(test(rows[rows.len() - 1]));
        assert(front.push(rows.last()) == rows);
    }
}

/// A search shows the rows in which the term stands, in the order of a
/// listing, and tells their number; the table stays as it was. The empty
/// term stands in every row.
pub proof fn law_search_count(rows: Rows, term: Seq<char>, now: Timestamp)
    ensures
        run(rows, CommandView::Search(term), now) == (
            rows,
            Ok::<Shown, TErrView>(
                Shown {
                    listing: Some(rows.filter(holds_term(term))),
                    message: "Found "@ + decimal(rows.filter(holds_term(term)).len()) + " result(s)"@,
                },
            ),
        ),
        rows.filter(holds_term(term)).len() <= rows.len(),
        forall|i: int|
            0 <= i < rows.filter(holds_term(term)).len() ==> matches_term(
                #[trigger] rows.filter(holds_term(term))[i],
                term,
            ),
        term.len() == 0 ==> rows.filter(holds_term(term)) == rows,
{
    rows.lemma_filter_len(holds_term(term));
    assert forall|i: int| 0 <= i < rows.filter(holds_term(term)).len() implies matches_term(
        #[trigger] rows.filter(holds_term(term))[i],
        term,
    ) by {
        rows.lemma_filter_pred(holds_term(term), i);
    }
    if term.len() == 0 {
        assert forall|i: int| 0 <= i < rows.len() implies holds_term(term)(#[trigger] rows[i]) by {
            assert(occurs_at(rows[i].name, term, 0));
        }
        lemma_filter_all(rows, holds_term(term));
    }
}

/// Setting the page of an entry that the table holds leaves the rows
/// furthest page first: the row stands, with its new page and nothing else
/// changed, behind every row that is at least as far along and before every
/// row that is less far, and the other rows keep their order.
pub proof fn law_set_page_then_list(rows: Rows, id: u32, page: u32, now: Timestamp, later: Timestamp)
    requires
        well_formed(rows),
        holds_id(rows, id),
    ensures
        ({
            let after = run(rows, CommandView::SetPage(id, page), now).0;
            let from = index_of_id(rows, id);
            let to = slot(rows.remove(from), page);
            &&& run(rows, CommandView::SetPage(id, page), now).1 is Ok
            &&& run(after, CommandView::List, later).1 matches Ok(shown) && shown.listing == Some(
                after,
            )
            &&& by_page(after)
            &&& well_formed(after)
            &&& after.len() == rows.len()
            &&& 0 <= from < rows.len()
            &&& 0 <= to < after.len()
            &&& after[to] == EntryView { page: page, ..rows[from] }
            &&& after.remove(to) == rows.remove(from)
            &&& forall|j: int| 0 <= j < to ==> (#[trigger] after[j]).page >= page
            &&& forall|j: int| to < j < after.len() ==> (#[trigger] after[j]).page < page
        }),
{
    let from = index_of_id(rows, id);
    lemma_first_index(rows, has_id(id as int));
    let rest = rows.remove(from);
    let moved = EntryView { page: page, ..rows[from] };
    let to = slot(rest, page);
    let after = rest.insert(to, moved);
    lemma_remove_well_formed(rows, from);
    lemma_insert_well_formed(rest, moved);
    lemma_first_index(rest, page_below(page));
    rest.insert_ensures(to, moved);
    assert(after.remove(to) =~= rest);
    assert forall|j: int| 0 <= j < to implies (#[trigger] after[j]).page >= page by {
        assert(after[j] == rest[j]);
        assert(!page_below(page)(rest[j]));
    }
    assert forall|j: int| to < j < after.len() implies (#[trigger] after[j]).page < page by {
        assert(after[j] == rest[j - 1]);
        assert(page_below(page)(rest[to]));
        if j - 1 > to {
            assert(rest[to].page >= rest[j - 1].page);
        }
    }
}

/// Choosing shows exactly one row where the table holds an unread one, and
/// that row is an unread row of the table; where every row is read it shows
/// none, and succeeds all the same. The table stays as it was.
pub proof fn law_choose_shows_an_unread(rows: Rows, now: Timestamp)
    ensures
        run(rows, CommandView::Choose, now).0 == rows,
        ({
            let unread = rows.filter(is_unread());
            &&& run(rows, CommandView::Choose, now).1 matches Ok(shown)
            &&& shown.message == "Happy Reading!"@
            &&& shown.listing matches Some(listing)
            &&& unread.len() == 0 ==> listing.len() == 0
            &&& unread.len() > 0 ==> listing.len() == 1 && !listing[0].read && rows.contains(
                listing[0],
            )
        }),
{
    let unread = rows.filter(is_unread());
    if unread.len() > 0 {
        let at = draw_at(now) as int % unread.len() as int;
        rows.lemma_filter_pred(is_unread(), at);
        assert(unread.contains(unread[at]));
        rows.lemma_filter_contains_rev(is_unread(), unread[at]);
    }
}

/// The two ways to carry out what the grammar has matched agree: taking the
/// first step, letting a store that holds `rows` do what is asked of it, and
/// ending with its report shows the reader what carrying it out against the
/// in-memory table shows, and leaves the same rows.
pub proof fn law_steps_agree(rows: Rows, invocation: InvocationView, mode: Mode, now: Timestamp)
    ensures
        match begun(Ok(invocation), mode, now) {
            Step::Done(expected) => carried_out(rows, invocation, mode, now) == (rows, expected),
            Step::Change { mode: m, command, change } => carried_out(rows, invocation, mode, now)
                == (
                changed(rows, change),
                reported(m, command, change_outcome(change, touched(rows, change))),
            ),
            Step::Fetch { mode: m, command, query } => carried_out(rows, invocation, mode, now) == (
                rows,
                reported(m, command, fetch_outcome(query, Ok(answer(rows, query)))),
            ),
        },
{
}

/// Whether every row keeps what holds of an entry all its life: a rating,
/// where there is one, lies between 1 and 5, and the row has a finishing
/// date if and only if it was marked as read.
pub open spec fn consistent(rows: Rows) -> bool {
    forall|i: int|
        0 <= i < rows.len() ==> (#[trigger] rows[i]).rating_valid() && (rows[i].read
            <==> rows[i].date_finished is Some)
}

/// No command breaks what holds of an entry all its life, as long as the
/// entries that are added are unread.
pub proof fn law_entries_stay_consistent(rows: Rows, command: CommandView, now: Timestamp)
    requires
        well_formed(rows),
        consistent(rows),
        command matches CommandView::Add(entry) ==> !entry.read,
    ensures
        consistent(run(rows, command, now).0),
{
    let after = run(rows, command, now).0;
    match command {
        CommandView::Add(entry) => {
            if has_room(rows) {
                let at = slot(rows, entry.page);
                let row = stored(entry, (max_id(rows) + 1) as i32);
                lemma_first_index(rows, page_below(entry.page));
                rows.insert_ensures(at, row);
                assert forall|i: int| 0 <= i < after.len() implies (#[trigger] after[i]).rating_valid()
                    && (after[i].read <==> after[i].date_finished is Some) by {
                    if i < at {
                        assert(after[i] == rows[i]);
                    } else if i > at {
                        assert(after[i] == rows[i - 1]);
                    }
                }
            }
        },
        CommandView::Finish(id) => {
            lemma_first_index(rows, has_id(id as int));
            assert forall|i: int| 0 <= i < after.len() implies (#[trigger] after[i]).rating_valid()
                && (after[i].read <==> after[i].date_finished is Some) by {
                assert(rows[i].rating_valid());
            }
        },
        CommandView::Rate(id, rating) => {
            lemma_first_index(rows, has_id(id as int));
            assert forall|i: int| 0 <= i < after.len() implies (#[trigger] after[i]).rating_valid()
                && (after[i].read <==> after[i].date_finished is Some) by {
                assert(rows[i].rating_valid());
            }
        },
        CommandView::Delete(id) => {
            let from = index_of_id(rows, id);
            lemma_first_index(rows, has_id(id as int));
            if from < rows.len() {
                rows.remove_ensures(from);
                assert forall|i: int| 0 <= i < after.len() implies (#[trigger] after[i]).rating_valid()
                    && (after[i].read <==> after[i].date_finished is Some) by {
                    if i < from {
                        assert(after[i] == rows[i]);
                    } else {
                        assert(after[i] == rows[i + 1]);
                    }
                }
            }
        },
        CommandView::SetPage(id, page) => {
            let from = index_of_id(rows, id);
            lemma_first_index(rows, has_id(id as int));
            if from < rows.len() {
                let rest = rows.remove(from);
                let moved = EntryView { page: page, ..rows[from] };
                let to = slot(rest, page);
                rows.remove_ensures(from);
                lemma_first_index(rest, page_below(page));
                rest.insert_ensures(to, moved);
                assert(rows[from].rating_valid());
                assert forall|k: int| 0 <= k < rest.len() implies (#[trigger] rest[k]).rating_valid()
                    && (rest[k].read <==> rest[k].date_finished is Some) by {
                    if k < from {
                        assert(rest[k] == rows[k]);
                    } else {
                        assert(rest[k] == rows[k + 1]);
                    }
                }
                assert forall|i: int| 0 <= i < after.len() implies (#[trigger] after[i]).rating_valid()
                    && (after[i].read <==> after[i].date_finished is Some) by {
                    if i < to {
                        assert(after[i] == rest[i]);
                    } else if i > to {
                        assert(after[i] == rest[i - 1]);
                    }
                }
            }
        },
        _ => {},
    }
}

} // verus!
