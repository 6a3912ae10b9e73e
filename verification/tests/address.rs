use brisbane_bin_data::address::{parse_address, AddressData, ParseError};
use brisbane_bin_data::cli::Cli;
use brisbane_bin_data::text::{
    find_char, find_in, from_chars, is_whitespace, join_all, same_text, split_words,
    text_contains, to_chars, trimmed,
};

fn cli_with(address: Option<&str>) -> Cli {
    Cli {
        address: address.map(|a| a.to_string()),
        debug: false,
        property_id: None,
        show_day: false,
        pretty: false,
        future: false,
    }
}

fn parts(a: &AddressData) -> (&str, &str, &str) {
    (a.street.as_str(), a.address.as_str(), a.suburb.as_str())
}

fn chars(s: &str) -> Vec<char> {
    s.chars().collect()
}

#[test]
fn parses_a_plain_address() {
    let a = parse_address("12 Smith Street, Springfield").unwrap();
    assert_eq!(parts(&a), ("Smith Street", "12 Smith Street", "Springfield"));
}

#[test]
fn joins_street_words_with_single_spaces() {
    let a = parse_address("  12   Smith \t Street  ,   Spring Hill  ").unwrap();
    assert_eq!(parts(&a), ("Smith Street", "12   Smith \t Street", "Spring Hill"));
}

#[test]
fn keeps_the_text_before_the_comma_as_the_address() {
    let a = parse_address("4/7 Upper Cairns Tce,Paddington").unwrap();
    assert_eq!(parts(&a), ("Upper Cairns Tce", "4/7 Upper Cairns Tce", "Paddington"));
}

#[test]
fn takes_all_after_the_first_comma_as_the_suburb() {
    let a = parse_address("1 A St, Suburb, QLD 4000").unwrap();
    assert_eq!(parts(&a), ("A St", "1 A St", "Suburb, QLD 4000"));
}

#[test]
fn accepts_an_empty_suburb() {
    let a = parse_address("1 A St,").unwrap();
    assert_eq!(parts(&a), ("A St", "1 A St", ""));
}

#[test]
fn splits_on_other_white_space_than_blanks() {
    let a = parse_address("12\u{a0}Smith\u{2003}Street\u{3000}, \u{2028}Toowong\u{85}").unwrap();
    assert_eq!(parts(&a), ("Smith Street", "12\u{a0}Smith\u{2003}Street", "Toowong"));
}

#[test]
fn rejects_the_empty_text() {
    assert_eq!(parse_address("").unwrap_err(), ParseError::MissingStreet);
    assert_eq!(parse_address("   ").unwrap_err(), ParseError::MissingStreet);
}

#[test]
fn rejects_a_text_without_a_comma() {
    assert_eq!(parse_address("12 Smith Street").unwrap_err(), ParseError::MissingSuburb);
}

#[test]
fn rejects_a_single_word_before_the_comma() {
    assert_eq!(parse_address("Smith, Springfield").unwrap_err(), ParseError::MissingStreet);
    assert_eq!(parse_address(", Springfield").unwrap_err(), ParseError::MissingStreet);
    assert_eq!(parse_address("Smith").unwrap_err(), ParseError::MissingStreet);
}

#[test]
fn get_data_reports_a_missing_address() {
    assert_eq!(cli_with(None).get_data().unwrap_err(), "No address provided");
}

#[test]
fn get_data_reports_a_missing_street_and_a_missing_suburb() {
    assert_eq!(
        cli_with(Some("Smith, Springfield")).get_data().unwrap_err(),
        "No street provided, specify address like 123 drury lane, suburb"
    );
    assert_eq!(
        cli_with(Some("12 Smith Street")).get_data().unwrap_err(),
        "No suburb provided, specify address like 123 drury lane, suburb"
    );
}

#[test]
fn get_data_parses_what_was_typed() {
    let a = cli_with(Some("123 drury lane, suburb")).get_data().unwrap();
    assert_eq!(parts(&a), ("drury lane", "123 drury lane", "suburb"));
}

#[test]
fn every_error_has_its_sentence() {
    assert_eq!(ParseError::MissingAddress.describe(), "No address provided");
    assert_eq!(
        ParseError::MissingStreet.describe(),
        "No street provided, specify address like 123 drury lane, suburb"
    );
    assert_eq!(
        ParseError::MissingSuburb.describe(),
        "No suburb provided, specify address like 123 drury lane, suburb"
    );
}

#[test]
fn white_space_is_what_the_standard_library_calls_so() {
    let mut code: u32 = 0;
    while code <= 0x10FFFF {
        if let Some(c) = char::from_u32(code) {
            assert_eq!(is_whitespace(c), c.is_whitespace(), "code point {:#x}", code);
        }
        code += 1;
    }
}

#[test]
fn trimming_and_splitting_agree_with_the_standard_library() {
    let samples = [
        "",
        " ",
        "a",
        " a ",
        "\t12  Smith\u{a0}St \n",
        "x\u{2000}\u{2001}y  z",
        "   lead",
        "trail   ",
        "\u{3000}\u{3000}",
    ];
    for s in samples {
        let v = chars(s);
        assert_eq!(from_chars(&trimmed(&v)), s.trim());
        let words: Vec<String> = split_words(&v).iter().map(from_chars).collect();
        let expected: Vec<String> = s.split_whitespace().map(|w| w.to_string()).collect();
        assert_eq!(words, expected);
    }
}

#[test]
fn joining_puts_the_separator_between_neighbours() {
    let sep = chars(", ");
    assert_eq!(from_chars(&join_all(&vec![chars("a"), chars("bc"), chars("d")], &sep)), "a, bc, d");
    assert_eq!(from_chars(&join_all(&vec![chars("d")], &sep)), "d");
    assert_eq!(from_chars(&join_all(&vec![chars(""), chars("")], &sep)), ", ");
    assert_eq!(from_chars(&join_all(&Vec::new(), &sep)), "");
}

#[test]
fn finds_the_first_comma() {
    assert_eq!(find_char(&chars("ab,cd,e"), ','), 2);
    assert_eq!(find_char(&chars("abc"), ','), 3);
    assert_eq!(find_char(&chars(""), ','), 0);
}

#[test]
fn finds_a_text_inside_another() {
    assert!(text_contains("12 Smith Street Unit 1", "12 Smith"));
    assert!(text_contains("12 Smith Street Unit 1", "Unit 1"));
    assert!(text_contains("12 Smith Street Unit 1", ""));
    assert!(text_contains("", ""));
    assert!(!text_contains("12 Smith Street Unit 1", "12 Smyth"));
    assert!(!text_contains("12 Smith", "12 Smith Street"));
    assert!(!text_contains("aab", "abb"));
    assert!(find_in(&chars("aaab"), &chars("aab")));
}

#[test]
fn compares_texts_character_by_character() {
    assert!(same_text("Toowong", "Toowong"));
    assert!(!same_text("Toowong", "toowong"));
    assert!(!same_text("Toowong", "Toowong "));
    assert!(same_text("", ""));
    assert_eq!(to_chars("añ😀"), vec!['a', 'ñ', '😀']);
}
