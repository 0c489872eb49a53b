use torus::commands::{
    conclude_change, conclude_fetch, exec_command, exec_command_at, Command, Plan,
};
use torus::data::{Entry, Timestamp};
use torus::err::TErr;
use torus::store::{like_pattern_text, Change, Query, Shelf};

fn moment() -> Timestamp {
    Timestamp { sec: 1_500_000_000, nsec: 7 }
}

fn book(name: &str, author: &str, genre: &str, page: u32) -> Entry {
    Entry::new(name.to_string(), author.to_string(), genre.to_string(), page, moment())
}

fn filled() -> Shelf {
    let mut shelf = Shelf::new();
    for entry in [
        book("Dune", "Herbert", "Scifi", 10),
        book("Emma", "Austen", "Novel", 300),
        book("Ulysses", "Joyce", "Novel", 10),
    ] {
        exec_command_at(&mut shelf, Command::Add(entry), moment()).unwrap();
    }
    shelf
}

fn ids(shelf: &Shelf) -> Vec<i32> {
    shelf.rows().iter().map(|e| e.id).collect()
}

#[test]
fn add_list_and_rate_dune() {
    let mut shelf = Shelf::new();
    let added = exec_command_at(&mut shelf, Command::Add(book("Dune", "Herbert", "Scifi", 0)), moment())
        .unwrap();
    assert_eq!(added.message, "Successfully added Dune by Herbert");
    assert!(added.table.is_none());

    let listed = exec_command_at(&mut shelf, Command::List, moment()).unwrap();
    assert_eq!(listed.message, "End of List");
    let table = listed.table.unwrap();
    assert_eq!(table.len(), 2);
    let row = table.get_row(1).unwrap();
    assert_eq!(row.len(), 8);
    assert_eq!(row.get_cell(0).unwrap().get_content(), "1");
    assert_eq!(row.get_cell(1).unwrap().get_content(), "Dune");
    assert_eq!(row.get_cell(2).unwrap().get_content(), "Herbert");
    assert_eq!(row.get_cell(3).unwrap().get_content(), "Scifi");
    assert_eq!(row.get_cell(4).unwrap().get_content(), "0");
    assert_eq!(row.get_cell(5).unwrap().get_content(), "false");
    assert_eq!(row.get_cell(7).unwrap().get_content(), "");

    let bad = exec_command_at(&mut shelf, Command::Rate(1, 6), moment());
    assert_eq!(bad, Err(TErr::BadRating));
    let good = exec_command_at(&mut shelf, Command::Rate(1, 5), moment()).unwrap();
    assert_eq!(good.message, "Entry 1 rated 5 stars");
    assert_eq!(shelf.rows()[0].rating, Some(5));
}

#[test]
fn add_gives_one_new_row_with_a_number() {
    let mut shelf = filled();
    let before = shelf.rows();
    let entry = book("Solaris", "Lem", "Scifi", 42);
    exec_command_at(&mut shelf, Command::Add(entry), moment()).unwrap();
    let after = shelf.rows();
    assert_eq!(after.len(), before.len() + 1);
    let new: Vec<&Entry> = after.iter().filter(|e| e.id == 4).collect();
    assert_eq!(new.len(), 1);
    assert_eq!(new[0].name, "Solaris");
    assert_eq!(new[0].author, "Lem");
    assert_eq!(new[0].genre, "Scifi");
    assert_eq!(new[0].page, 42);
    assert!(!new[0].read);
    assert_eq!(new[0].date_added, moment());
    assert_eq!(new[0].date_finished, None);
    assert_eq!(new[0].rating, None);
    let others: Vec<Entry> = after.iter().filter(|e| e.id != 4).cloned().collect();
    assert_eq!(others, before);
}

#[test]
fn listing_is_furthest_page_first() {
    let shelf = filled();
    assert_eq!(ids(&shelf), vec![2, 1, 3]);
}

#[test]
fn finish_marks_read_and_dates() {
    let mut shelf = filled();
    let later = Timestamp { sec: 1_600_000_000, nsec: 0 };
    let done = exec_command_at(&mut shelf, Command::Finish(3), later).unwrap();
    assert_eq!(done.message, "Entry 3 marked as read");
    let rows = shelf.rows();
    let row = rows.iter().find(|e| e.id == 3).unwrap();
    assert!(row.read);
    assert_eq!(row.date_finished, Some(later));
    let other = rows.iter().find(|e| e.id == 1).unwrap();
    assert!(!other.read);
    assert_eq!(other.date_finished, None);
}

#[test]
fn finish_of_a_missing_entry_changes_nothing() {
    let mut shelf = filled();
    let before = shelf.rows();
    let failed = exec_command_at(&mut shelf, Command::Finish(9), moment());
    assert_eq!(failed, Err(TErr::NoSuchEntry(9)));
    assert_eq!(shelf.rows(), before);
}

#[test]
fn bad_rating_never_reaches_the_store() {
    for rating in [0u8, 6, 7, 255] {
        for id in [1u32, 99] {
            assert_eq!(Command::Rate(id, rating).plan(moment()), Err(TErr::BadRating));
            let mut shelf = filled();
            let before = shelf.rows();
            assert_eq!(
                exec_command_at(&mut shelf, Command::Rate(id, rating), moment()),
                Err(TErr::BadRating)
            );
            assert_eq!(shelf.rows(), before);
        }
    }
}

#[test]
fn rating_of_a_missing_entry() {
    let mut shelf = filled();
    assert_eq!(
        exec_command_at(&mut shelf, Command::Rate(9, 3), moment()),
        Err(TErr::NoSuchEntry(9))
    );
}

#[test]
fn delete_twice() {
    let mut shelf = filled();
    let first = exec_command_at(&mut shelf, Command::Delete(1), moment()).unwrap();
    assert_eq!(first.message, "Entry 1 deleted");
    assert_eq!(ids(&shelf), vec![2, 3]);
    let second = exec_command_at(&mut shelf, Command::Delete(1), moment());
    assert_eq!(second, Err(TErr::NoSuchEntry(1)));
    assert_eq!(ids(&shelf), vec![2, 3]);
}

#[test]
fn search_counts_matches_whatever_the_case() {
    let mut shelf = filled();
    let found = exec_command_at(&mut shelf, Command::Search("NOV".to_string()), moment()).unwrap();
    assert_eq!(found.message, "Found 2 result(s)");
    let table = found.table.unwrap();
    assert_eq!(table.len(), 3);
    assert_eq!(table.get_row(1).unwrap().get_cell(1).unwrap().get_content(), "Emma");
    assert_eq!(table.get_row(2).unwrap().get_cell(1).unwrap().get_content(), "Ulysses");

    let by_author = exec_command_at(&mut shelf, Command::Search("erber".to_string()), moment()).unwrap();
    assert_eq!(by_author.message, "Found 1 result(s)");
    let none = exec_command_at(&mut shelf, Command::Search("zzz".to_string()), moment()).unwrap();
    assert_eq!(none.message, "Found 0 result(s)");
    assert_eq!(none.table.unwrap().len(), 1);
}

#[test]
fn empty_search_matches_every_entry() {
    let mut shelf = filled();
    let all = exec_command_at(&mut shelf, Command::Search(String::new()), moment()).unwrap();
    assert_eq!(all.message, "Found 3 result(s)");
    assert_eq!(all.table.unwrap().len(), 4);
}

#[test]
fn set_page_moves_the_entry() {
    let mut shelf = filled();
    let set = exec_command_at(&mut shelf, Command::SetPage(3, 500), moment()).unwrap();
    assert_eq!(set.message, "Set page to 500 for entry 3");
    assert_eq!(ids(&shelf), vec![3, 2, 1]);
    let rows = shelf.rows();
    assert_eq!(rows[0].page, 500);
    assert_eq!(rows[0].name, "Ulysses");
    for pair in rows.windows(2) {
        assert!(pair[0].page >= pair[1].page);
    }
    exec_command_at(&mut shelf, Command::SetPage(3, 300), moment()).unwrap();
    assert_eq!(ids(&shelf), vec![2, 3, 1]);
    assert_eq!(
        exec_command_at(&mut shelf, Command::SetPage(8, 1), moment()),
        Err(TErr::NoSuchEntry(8))
    );
}

#[test]
fn choose_shows_one_unread_entry() {
    let mut shelf = filled();
    exec_command_at(&mut shelf, Command::Finish(2), moment()).unwrap();
    for nsec in [0, 1, 2, 3] {
        let now = Timestamp { sec: 1, nsec };
        let chosen = exec_command_at(&mut shelf, Command::Choose, now).unwrap();
        assert_eq!(chosen.message, "Happy Reading!");
        let table = chosen.table.unwrap();
        assert_eq!(table.len(), 2);
        let row = table.get_row(1).unwrap();
        assert_eq!(row.get_cell(5).unwrap().get_content(), "false");
        let expected = if nsec % 2 == 0 { "Dune" } else { "Ulysses" };
        assert_eq!(row.get_cell(1).unwrap().get_content(), expected);
    }
}

#[test]
fn choose_among_none_still_succeeds() {
    let mut shelf = Shelf::new();
    let chosen = exec_command_at(&mut shelf, Command::Choose, moment()).unwrap();
    assert_eq!(chosen.message, "Happy Reading!");
    assert_eq!(chosen.table.unwrap().len(), 1);
}

#[test]
fn list_of_nothing_is_a_header() {
    let mut shelf = Shelf::new();
    let listed = exec_command_at(&mut shelf, Command::List, moment()).unwrap();
    assert_eq!(listed.message, "End of List");
    let table = listed.table.unwrap();
    assert_eq!(table.len(), 1);
    let header = table.get_row(0).unwrap();
    let names: Vec<String> = header.iter().map(|c| c.get_content()).collect();
    assert_eq!(
        names,
        vec!["ID", "Name", "AUTHOR", "GENRE", "PAGE", "READ", "DATE ADDED", "DATE FINISHED", "RATING"]
    );
}

#[test]
fn nil_does_nothing() {
    let mut shelf = filled();
    let before = shelf.rows();
    let outcome = exec_command_at(&mut shelf, Command::Nil, moment()).unwrap();
    assert_eq!(outcome.message, "");
    assert!(outcome.table.is_none());
    assert_eq!(shelf.rows(), before);
    assert_eq!(Command::Nil.plan(moment()), Ok(Plan::Nothing));
}

#[test]
fn plans_name_the_request() {
    let now = moment();
    assert_eq!(Command::List.plan(now), Ok(Plan::Fetch(Query::All)));
    assert_eq!(
        Command::Search("x".to_string()).plan(now),
        Ok(Plan::Fetch(Query::Matching { term: "x".to_string() }))
    );
    assert_eq!(Command::Choose.plan(now), Ok(Plan::Fetch(Query::AnyUnread { draw: 7 })));
    assert_eq!(
        Command::Finish(4).plan(now),
        Ok(Plan::Change(Change::MarkFinished { id: 4, when: now }))
    );
    assert_eq!(Command::Delete(4).plan(now), Ok(Plan::Change(Change::Delete { id: 4 })));
    assert_eq!(
        Command::SetPage(4, 9).plan(now),
        Ok(Plan::Change(Change::SetPage { id: 4, page: 9 }))
    );
    assert_eq!(
        Command::Rate(4, 1).plan(now),
        Ok(Plan::Change(Change::SetRating { id: 4, rating: 1 }))
    );
    let entry = book("Dune", "Herbert", "Scifi", 0);
    assert_eq!(
        Command::Add(entry.clone()).plan(now),
        Ok(Plan::Change(Change::Insert(entry)))
    );
}

#[test]
fn conclusions_follow_the_report() {
    let delete = Change::Delete { id: 5 };
    assert_eq!(conclude_change(&delete, Ok(1)).unwrap().message, "Entry 5 deleted");
    assert_eq!(conclude_change(&delete, Ok(0)), Err(TErr::NoSuchEntry(5)));
    assert_eq!(
        conclude_change(&delete, Err("disk full".to_string())),
        Err(TErr::Db("disk full".to_string()))
    );
    let insert = Change::Insert(book("Dune", "Herbert", "Scifi", 0));
    assert_eq!(
        conclude_change(&insert, Ok(0)).unwrap().message,
        "Successfully added Dune by Herbert"
    );
    assert_eq!(
        conclude_fetch(&Query::All, Err("locked".to_string())),
        Err(TErr::Db("locked".to_string()))
    );
    let rows = vec![book("Dune", "Herbert", "Scifi", 0)];
    let found = conclude_fetch(&Query::Matching { term: "d".to_string() }, Ok(rows)).unwrap();
    assert_eq!(found.message, "Found 1 result(s)");
    assert_eq!(found.table.unwrap().len(), 2);
}

#[test]
fn commands_name_themselves() {
    assert_eq!(
        Command::Add(book("Dune", "Herbert", "Scifi", 0)).describe(),
        "Add' Dune' by 'Herbert'"
    );
    assert_eq!(Command::Search("sci".to_string()).describe(), "Search with query 'sci'");
    assert_eq!(Command::List.describe(), "List entries");
    assert_eq!(Command::Finish(3).describe(), "Finish entry #3");
    assert_eq!(Command::Delete(12).describe(), "Delete entry #12");
    assert_eq!(Command::SetPage(3, 40).describe(), "Set last-page-read to 40for entry #3");
    assert_eq!(Command::Rate(3, 4).describe(), "Rate entry #3 4 stars");
    assert_eq!(Command::Choose.describe(), "Choose a random entry");
    assert_eq!(Command::Nil.describe(), "Nil command for implementation reasons");
}

#[test]
fn failures_tell_what_went_wrong() {
    assert_eq!(TErr::Db("no such table".to_string()).message(), "SQLite Error: no such table");
    assert_eq!(TErr::NoSuchEntry(7).message(), "No entry with id 7");
    assert_eq!(TErr::MissingArg("TITLE").message(), "Missing argument <TITLE>");
    assert_eq!(TErr::BadRating.message(), "Ratings must be between 1 and 5");
    assert_eq!(TErr::NoSuchEntry(7).description(), "Invalid entry id");
    assert_eq!(TErr::MissingArg("TITLE").description(), "Missing argument");
    assert_eq!(TErr::BadRating.description(), "Ratings must be between 1 and 5");
    assert_eq!(TErr::Db("gone".to_string()).description(), "gone");
    assert_eq!(TErr::Db("gone".to_string()).cause(), Some("gone".to_string()));
    assert_eq!(TErr::NoSuchEntry(7).cause(), None);
    assert_eq!(TErr::BadRating.cause(), None);
}

#[test]
fn failures_as_a_run_tells_them() {
    assert_eq!(TErr::Db("no such table".to_string()).reason(), "no such table");
    assert_eq!(TErr::NoSuchEntry(7).reason(), "No entry with id `7`");
    assert_eq!(TErr::MissingArg("TITLE").reason(), "Required argument `TITLE` is missing");
    assert_eq!(TErr::BadRating.reason(), "Rating is not an integer between 1 and 5");
    assert_eq!(TErr::BadRating.clone(), TErr::BadRating);
}

#[test]
fn patterns_for_a_store_in_sql() {
    assert_eq!(like_pattern_text(""), "%%");
    assert_eq!(like_pattern_text("dune"), "%dune%");
    assert_eq!(like_pattern_text("100%"), "%100\\%%");
    assert_eq!(like_pattern_text("a_b"), "%a\\_b%");
    assert_eq!(like_pattern_text("a\\b"), "%a\\\\b%");
    assert_eq!(like_pattern_text("%_\\"), "%\\%\\_\\\\%");
    assert_eq!(like_pattern_text("é ✓"), "%é ✓%");
}

#[test]
fn finish_by_the_clock_dates_the_entry() {
    let mut shelf = filled();
    exec_command(&mut shelf, Command::Finish(1)).unwrap();
    let rows = shelf.rows();
    let row = rows.iter().find(|e| e.id == 1).unwrap();
    assert!(row.read);
    let when = row.date_finished.unwrap();
    assert!(when.sec > 1_000_000_000);
    assert!(when.nsec >= 0 && when.nsec < 1_000_000_000);
}

#[test]
fn numbers_follow_the_largest() {
    let mut shelf = filled();
    exec_command_at(&mut shelf, Command::Delete(3), moment()).unwrap();
    exec_command_at(&mut shelf, Command::Add(book("Solaris", "Lem", "Scifi", 0)), moment()).unwrap();
    assert_eq!(ids(&shelf), vec![2, 1, 3]);
    assert_eq!(shelf.len(), 3);
}
