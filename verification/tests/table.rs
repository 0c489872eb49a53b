use torus::data::{clone_entries, Entry, Timestamp};
use torus::table::{date_text, entries_table, entry_row, plain_text, DATE_FMT};

fn moment() -> Timestamp {
    Timestamp { sec: 1_500_000_000, nsec: 0 }
}

fn cells(row: &prettytable::Row) -> Vec<String> {
    row.iter().map(|cell| cell.get_content()).collect()
}

fn rated() -> Entry {
    Entry {
        id: 12,
        name: "Emma".to_string(),
        read: true,
        page: 474,
        genre: "Novel".to_string(),
        author: "Austen".to_string(),
        date_added: moment(),
        date_finished: Some(Timestamp { sec: 1_600_000_000, nsec: 5 }),
        rating: Some(4),
    }
}

#[test]
fn row_of_a_rated_entry() {
    let row = entry_row(&rated());
    let shown = cells(&row);
    assert_eq!(shown.len(), 9);
    assert_eq!(shown[0], "12");
    assert_eq!(shown[1], "Emma");
    assert_eq!(shown[2], "Austen");
    assert_eq!(shown[3], "Novel");
    assert_eq!(shown[4], "474");
    assert_eq!(shown[5], "true");
    assert_eq!(shown[6], date_text(moment()).unwrap());
    assert_eq!(shown[7], date_text(Timestamp { sec: 1_600_000_000, nsec: 5 }).unwrap());
    assert_eq!(shown[8], "4");
}

#[test]
fn row_of_a_new_entry_has_no_rating_cell() {
    let entry = Entry::new("Dune".into(), "Herbert".into(), "Scifi".into(), 0, moment());
    let shown = cells(&entry_row(&entry));
    assert_eq!(shown.len(), 8);
    assert_eq!(shown[0], "0");
    assert_eq!(shown[5], "false");
    assert_eq!(shown[7], "");
}

#[test]
fn dates_read_as_day_and_time() {
    assert_eq!(DATE_FMT, "%D %T");
    let text = date_text(moment()).unwrap();
    let chars: Vec<char> = text.chars().collect();
    assert_eq!(chars.len(), 17);
    for (at, c) in chars.iter().enumerate() {
        match at {
            2 | 5 => assert_eq!(*c, '/'),
            8 => assert_eq!(*c, ' '),
            11 | 14 => assert_eq!(*c, ':'),
            _ => assert!(c.is_ascii_digit()),
        }
    }
    assert_ne!(date_text(moment()), date_text(Timestamp { sec: 1_500_000_001, nsec: 0 }));
}

#[test]
fn dates_that_no_calendar_names_have_no_text() {
    assert_eq!(date_text(Timestamp { sec: i64::MAX, nsec: 0 }), None);
    assert_eq!(date_text(Timestamp { sec: i64::MIN, nsec: 0 }), None);
    assert_eq!(date_text(Timestamp { sec: 67_000_000_000_000_001, nsec: 0 }), None);
    assert_eq!(date_text(Timestamp { sec: -67_000_000_000_000_001, nsec: 0 }), None);
    let entry = Entry::new("Dune".into(), "Herbert".into(), "Scifi".into(), 0, Timestamp {
        sec: i64::MAX,
        nsec: 0,
    });
    assert_eq!(cells(&entry_row(&entry))[6], "");
}

fn is_date(text: &str) -> bool {
    !text.is_empty() && text.chars().all(|c| c.is_ascii_digit() || "/: -".contains(c))
}

#[test]
fn dates_that_a_calendar_names_have_a_text() {
    for sec in [
        0,
        -1,
        253_402_300_799,
        253_402_300_800,
        -62_167_219_200,
        -62_167_219_201,
        1_000_000_000_000_000,
        -1_000_000_000_000_000,
        67_000_000_000_000_000,
        -67_000_000_000_000_000,
    ] {
        for nsec in [0, 999_999_999, -1, 1_000_000_000, i32::MAX, i32::MIN] {
            let text = date_text(Timestamp { sec, nsec }).unwrap();
            assert!(is_date(&text), "{}", text);
        }
    }
    let mut entry = rated();
    entry.date_finished = Some(Timestamp { sec: 253_402_300_800, nsec: -5 });
    let shown = cells(&entry_row(&entry));
    assert!(is_date(&shown[6]));
    assert!(is_date(&shown[7]));
}

#[test]
fn escape_characters_are_left_out() {
    assert_eq!(plain_text("Dune"), "Dune");
    assert_eq!(plain_text(""), "");
    assert_eq!(plain_text("\u{1b}[31mDune\u{1b}[0m"), "[31mDune[0m");
    assert_eq!(plain_text("\u{1b}\u{1b}"), "");
    let mut entry = rated();
    entry.name = "\u{1b}[\u{644}\u{627}\u{644}\u{627}".to_string();
    entry.author = "Aus\u{1b}ten".to_string();
    entry.genre = "\u{1b}[1mNovel".to_string();
    let shown = cells(&entry_row(&entry));
    assert_eq!(shown[1], "[\u{644}\u{627}\u{644}\u{627}");
    assert_eq!(shown[2], "Austen");
    assert_eq!(shown[3], "[1mNovel");
    assert_eq!(entries_table(&vec![entry]).len(), 2);
}

#[test]
fn table_of_entries() {
    let entries = vec![rated(), Entry::new("Dune".into(), "Herbert".into(), "Scifi".into(), 3, moment())];
    let table = entries_table(&entries);
    assert_eq!(table.len(), 3);
    assert_eq!(cells(table.get_row(0).unwrap())[1], "Name");
    assert_eq!(cells(table.get_row(1).unwrap())[1], "Emma");
    assert_eq!(cells(table.get_row(2).unwrap())[1], "Dune");
    assert_eq!(cells(table.get_row(2).unwrap())[4], "3");
    let text = table.to_string();
    assert!(text.contains("| Emma "));
    assert!(text.contains("| DATE FINISHED "));
}

#[test]
fn entries_are_copied() {
    let entries = vec![rated()];
    assert_eq!(clone_entries(&entries), entries);
    assert_eq!(rated().clone(), rated());
}
