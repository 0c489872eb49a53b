use torus::args::{parse_command, parse_command_at, same_text, Argument, Invocation};
use torus::commands::Command;
use torus::data::{Entry, Timestamp};
use torus::err::TErr;
use torus::text::ParseFailure;

fn moment() -> Timestamp {
    Timestamp { sec: 1_500_000_000, nsec: 0 }
}

fn invocation(subcommand: &str, arguments: &[(&str, &str)]) -> Invocation {
    Invocation {
        subcommand: Some(subcommand.to_string()),
        arguments: arguments
            .iter()
            .map(|(name, value)| Argument { name: name.to_string(), value: value.to_string() })
            .collect(),
    }
}

#[test]
fn no_subcommand_is_nil() {
    let nothing = Invocation { subcommand: None, arguments: Vec::new() };
    assert_eq!(parse_command_at(&nothing, moment()), Ok(Command::Nil));
    assert_eq!(parse_command_at(&invocation("shell", &[]), moment()), Ok(Command::Nil));
    assert_eq!(parse_command_at(&invocation("LIST", &[]), moment()), Ok(Command::Nil));
}

#[test]
fn add_makes_a_fresh_entry() {
    let given = invocation(
        "add",
        &[("TITLE", "Dune"), ("AUTHOR", "Herbert"), ("GENRE", "Scifi"), ("PAGE", "0")],
    );
    let expected = Entry {
        id: 0,
        name: "Dune".to_string(),
        read: false,
        page: 0,
        genre: "Scifi".to_string(),
        author: "Herbert".to_string(),
        date_added: moment(),
        date_finished: None,
        rating: None,
    };
    assert_eq!(parse_command_at(&given, moment()), Ok(Command::Add(expected)));
}

#[test]
fn add_names_the_first_missing_argument() {
    let none = invocation("add", &[]);
    assert_eq!(parse_command_at(&none, moment()), Err(TErr::MissingArg("TITLE")));
    let title = invocation("add", &[("TITLE", "Dune")]);
    assert_eq!(parse_command_at(&title, moment()), Err(TErr::MissingArg("GENRE")));
    let genre = invocation("add", &[("TITLE", "Dune"), ("GENRE", "Scifi")]);
    assert_eq!(parse_command_at(&genre, moment()), Err(TErr::MissingArg("PAGE")));
    let page = invocation("add", &[("TITLE", "Dune"), ("GENRE", "Scifi"), ("PAGE", "3")]);
    assert_eq!(parse_command_at(&page, moment()), Err(TErr::MissingArg("AUTHOR")));
    let bad_page = invocation("add", &[("TITLE", "Dune"), ("GENRE", "Scifi"), ("PAGE", "three")]);
    assert_eq!(
        parse_command_at(&bad_page, moment()),
        Err(TErr::Parse(ParseFailure::InvalidDigit))
    );
}

#[test]
fn plain_commands() {
    assert_eq!(parse_command_at(&invocation("list", &[]), moment()), Ok(Command::List));
    assert_eq!(parse_command_at(&invocation("choose", &[]), moment()), Ok(Command::Choose));
    assert_eq!(
        parse_command_at(&invocation("search", &[("QUERY", "sci fi")]), moment()),
        Ok(Command::Search("sci fi".to_string()))
    );
    assert_eq!(
        parse_command_at(&invocation("search", &[]), moment()),
        Err(TErr::MissingArg("QUERY"))
    );
}

#[test]
fn commands_on_an_entry() {
    assert_eq!(
        parse_command_at(&invocation("finish", &[("ENTRY_ID", "3")]), moment()),
        Ok(Command::Finish(3))
    );
    assert_eq!(
        parse_command_at(&invocation("delete", &[("ENTRY_ID", "+3")]), moment()),
        Ok(Command::Delete(3))
    );
    assert_eq!(
        parse_command_at(&invocation("set-page", &[("ENTRY_ID", "3"), ("PAGE", "120")]), moment()),
        Ok(Command::SetPage(3, 120))
    );
    assert_eq!(
        parse_command_at(&invocation("rate", &[("ENTRY_ID", "3"), ("RATING", "6")]), moment()),
        Ok(Command::Rate(3, 6))
    );
}

#[test]
fn numbers_that_are_none() {
    assert_eq!(
        parse_command_at(&invocation("finish", &[]), moment()),
        Err(TErr::MissingArg("ENTRY_ID"))
    );
    assert_eq!(
        parse_command_at(&invocation("finish", &[("ENTRY_ID", "-3")]), moment()),
        Err(TErr::Parse(ParseFailure::InvalidDigit))
    );
    assert_eq!(
        parse_command_at(&invocation("finish", &[("ENTRY_ID", "")]), moment()),
        Err(TErr::Parse(ParseFailure::Empty))
    );
    assert_eq!(
        parse_command_at(&invocation("delete", &[("ENTRY_ID", "4294967296")]), moment()),
        Err(TErr::Parse(ParseFailure::Overflow))
    );
    assert_eq!(
        parse_command_at(&invocation("rate", &[("ENTRY_ID", "3"), ("RATING", "256")]), moment()),
        Err(TErr::Parse(ParseFailure::Overflow))
    );
    assert_eq!(
        parse_command_at(&invocation("rate", &[("ENTRY_ID", "3")]), moment()),
        Err(TErr::MissingArg("RATING"))
    );
    assert_eq!(
        parse_command_at(&invocation("set-page", &[("PAGE", "1")]), moment()),
        Err(TErr::MissingArg("ENTRY_ID"))
    );
}

#[test]
fn parse_failures_as_messages() {
    assert_eq!(
        TErr::Parse(ParseFailure::InvalidDigit).message(),
        "Parsing error: invalid digit found in string"
    );
    assert_eq!(TErr::Parse(ParseFailure::Empty).description(), "Parsing error");
    assert_eq!(
        TErr::Parse(ParseFailure::Empty).reason(),
        "cannot parse integer from empty string"
    );
    assert_eq!(
        TErr::Parse(ParseFailure::Overflow).cause(),
        Some("number too large to fit in target type".to_string())
    );
}

#[test]
fn the_first_of_two_values_counts() {
    let twice = invocation("finish", &[("ENTRY_ID", "1"), ("ENTRY_ID", "2")]);
    assert_eq!(twice.value_of("ENTRY_ID"), Some(&"1".to_string()));
    assert_eq!(twice.value_of("PAGE"), None);
    assert_eq!(parse_command_at(&twice, moment()), Ok(Command::Finish(1)));
}

#[test]
fn add_by_the_clock_dates_the_entry() {
    let given = invocation(
        "add",
        &[("TITLE", "Dune"), ("AUTHOR", "Herbert"), ("GENRE", "Scifi"), ("PAGE", "12")],
    );
    match parse_command(&given) {
        Ok(Command::Add(entry)) => {
            assert_eq!(entry.name, "Dune");
            assert_eq!(entry.page, 12);
            assert!(entry.date_added.sec > 1_000_000_000);
            assert!(entry.date_added.nsec >= 0 && entry.date_added.nsec < 1_000_000_000);
        }
        other => panic!("{:?}", other),
    }
}

#[test]
fn texts_are_the_same_or_not() {
    assert!(same_text("add", "add"));
    assert!(same_text("", ""));
    assert!(!same_text("add", "Add"));
    assert!(!same_text("add", "ad"));
    assert!(!same_text("", "a"));
}
