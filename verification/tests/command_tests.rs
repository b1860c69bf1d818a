use homevoice::command::{Command, CommandParser, CommandType};

/// The English vocabulary the device ships with.
fn english_parser() -> CommandParser {
    CommandParser::new(vec![
        ("weather".to_string(), CommandType::Weather),
        ("news".to_string(), CommandType::News),
        ("timer".to_string(), CommandType::Timer),
    ])
}

#[test]
fn test_basic_parsing() {
    let command_parser = english_parser();
    assert_eq!(command_parser.parse("what is the weather"), Some(Command::Weather));
    assert_eq!(command_parser.parse("weather"), Some(Command::Weather));
    assert_eq!(command_parser.parse("news"), Some(Command::News));

    // In this case, we have multiple commands at once. The naive parsing
    // should just pick up the first one.
    assert_eq!(command_parser.parse("weather news"), Some(Command::Weather));
}

#[test]
fn test_timer() {
    let command_parser = english_parser();
    assert_eq!(
        command_parser.parse("set timer for thirty hours"),
        Some(Command::Timer(30 * 60 * 60))
    );
    assert_eq!(
        command_parser.parse("set timer for fourty two minutes"),
        Some(Command::Timer(42 * 60))
    );
    assert_eq!(
        command_parser.parse("set timer for one hundred and twelve thousand and sixty two seconds"),
        Some(Command::Timer(112_062))
    );
}

#[test]
fn unrecognized_transcript_is_discarded() {
    let command_parser = english_parser();
    assert_eq!(command_parser.parse("hello there"), None);
    assert_eq!(command_parser.parse(""), None);
}

#[test]
fn timer_without_unit_or_number_is_discarded() {
    let command_parser = english_parser();
    // A number but no unit word.
    assert_eq!(command_parser.parse("set timer for thirty"), None);
    // A unit word but no number phrase.
    assert_eq!(command_parser.parse("set timer for some seconds"), None);
}

#[test]
fn timer_rejects_negative_counts() {
    let command_parser = english_parser();
    // This phrase parses to a negative count (see the number parser's
    // misordered-magnitude behaviour); no timer should come of it.
    assert_eq!(
        command_parser.parse("timer two hundred thousand x hundred seconds"),
        None
    );
}

#[test]
fn timer_unit_priority_is_seconds_first() {
    let command_parser = english_parser();
    // Both unit words present: "second" wins.
    assert_eq!(
        command_parser.parse("timer thirty second minute"),
        Some(Command::Timer(30))
    );
}

#[test]
fn first_vocabulary_entry_wins_for_duplicate_keywords() {
    let command_parser = CommandParser::new(vec![
        ("weather".to_string(), CommandType::News),
        ("weather".to_string(), CommandType::Weather),
    ]);
    assert_eq!(command_parser.parse("weather"), Some(Command::News));
}
