use brisbane_bin_data::cli::Cli;
use brisbane_bin_data::date::{CalendarDate, DateError, Moment};
use brisbane_bin_data::endpoint::{number_text, Request};
use brisbane_bin_data::resolve::{
    advance, advance_now, resolve_locality, resolve_property, resolve_street, start, start_now,
    Action, Failure, Lookup, Reply, Stage, Turn,
};
use brisbane_bin_data::schedule::{assemble, DecodeError, Element};
use brisbane_bin_data::{
    get_url, BinData, BinDay, BinProperty, CollectionDay, Locality, Property, Street, BASE_URL,
};

fn noon() -> Moment {
    Moment { date: CalendarDate { year: 2024, month: 3, day: 6 }, hour: 12, minute: 0, second: 0 }
}

fn cli(address: Option<&str>, property_id: Option<u64>) -> Cli {
    Cli {
        address: address.map(|a| a.to_string()),
        debug: false,
        property_id,
        show_day: false,
        pretty: false,
        future: false,
    }
}

fn locality(id: u32, name: &str) -> Locality {
    Locality { id, name: name.to_string(), postcode: None, council: "Brisbane".to_string() }
}

fn street(id: u32, name: &str) -> Street {
    Street { id, name: name.to_string(), locality: "Toowong".to_string() }
}

fn property(id: u64, name: &str) -> Property {
    Property { id, name: name.to_string(), zone: "Zone 1".to_string(), voucher_preferences: 0 }
}

fn summary() -> BinData {
    BinData {
        property: BinProperty {
            id: None,
            collection_day: CollectionDay::Monday,
            collection_day_2: None,
            zone: "Zone 1".to_string(),
            shs: None,
            bin_bank_id: None,
            clean_up_code: "C1".to_string(),
            address: "12 Smith Street".to_string(),
            service_type: "Domestic".to_string(),
            collections: Vec::new(),
        },
        color: "#fff".to_string(),
        text_colour: "#000".to_string(),
        border_colour: "#111".to_string(),
        dow: vec![CollectionDay::Monday],
        days_of_week: vec![CollectionDay::Monday],
        start_date: "2024-03-01".to_string(),
        event_type: "special".to_string(),
    }
}

fn event(start: &str) -> BinDay {
    BinDay {
        id: None,
        name: None,
        description: None,
        color: "c".to_string(),
        text_colour: "t".to_string(),
        border_colour: "b".to_string(),
        start: start.to_string(),
        event_type: "recycle".to_string(),
    }
}

fn as_summary(data: BinData) -> Element {
    Element { summary: Some(data), event: None }
}

fn as_event(day: BinDay) -> Element {
    Element { summary: None, event: Some(day) }
}

fn neither() -> Element {
    Element { summary: None, event: None }
}

fn pairs(request: &Request) -> Vec<(&str, &str)> {
    request.query.iter().map(|p| (p.key.as_str(), p.value.as_str())).collect()
}

fn fetched(turn: &Turn) -> &Request {
    match &turn.action {
        Action::Fetch(request) => request,
        other => panic!("no request: {:?}", other),
    }
}

fn failure(turn: Turn) -> Failure {
    assert!(matches!(turn.state, Lookup::Finished));
    match turn.action {
        Action::Fail(failure) => failure,
        other => panic!("no failure: {:?}", other),
    }
}

#[test]
fn documents_live_below_the_base() {
    assert_eq!(BASE_URL, "https://brisbane.waste-info.com.au/api/v1/");
    assert_eq!(get_url("localities.json"), "https://brisbane.waste-info.com.au/api/v1/localities.json");
    assert_eq!(get_url(""), BASE_URL);
}

#[test]
fn numbers_are_written_in_base_ten() {
    assert_eq!(number_text(0), "0");
    assert_eq!(number_text(7), "7");
    assert_eq!(number_text(10), "10");
    assert_eq!(number_text(1234567890), "1234567890");
    assert_eq!(number_text(u64::MAX), "18446744073709551615");
}

#[test]
fn requests_name_the_document_and_the_search_key() {
    let r = Request::localities();
    assert_eq!(r.url, "https://brisbane.waste-info.com.au/api/v1/localities.json");
    assert!(r.query.is_empty());
    let r = Request::streets(17);
    assert_eq!(r.url, "https://brisbane.waste-info.com.au/api/v1/streets.json");
    assert_eq!(pairs(&r), vec![("locality", "17")]);
    let r = Request::properties(4021);
    assert_eq!(r.url, "https://brisbane.waste-info.com.au/api/v1/properties.json");
    assert_eq!(pairs(&r), vec![("street", "4021")]);
}

#[test]
fn the_schedule_request_carries_the_window() {
    let window = brisbane_bin_data::date::schedule_window(&noon()).unwrap();
    let r = Request::schedule(987654, &window).unwrap();
    assert_eq!(r.url, "https://brisbane.waste-info.com.au/api/v1/properties/987654.json");
    assert_eq!(
        pairs(&r),
        vec![("start", "2024-02-29T14:00:00Z"), ("end", "2024-03-31T12:00:00Z")]
    );
}

#[test]
fn the_schedule_request_needs_a_window_that_can_be_written() {
    let bad = Moment { date: CalendarDate { year: 2024, month: 2, day: 31 }, hour: 0, minute: 0, second: 0 };
    let window = brisbane_bin_data::date::ScheduleWindow { start: bad, end: noon() };
    assert_eq!(Request::schedule(1, &window).unwrap_err(), DateError::Unprintable);
    let window = brisbane_bin_data::date::ScheduleWindow { start: noon(), end: bad };
    assert_eq!(Request::schedule(1, &window).unwrap_err(), DateError::Unprintable);
}

#[test]
fn a_locality_is_found_by_its_exact_name() {
    let list = vec![locality(1, "Toowong West"), locality(2, "toowong"), locality(3, "Toowong"), locality(4, "Toowong")];
    assert_eq!(resolve_locality(&list, "Toowong").unwrap().id, 3);
    assert_eq!(resolve_locality(&list, "toowong").unwrap().id, 2);
    match resolve_locality(&list, "Toowon") {
        Err(Failure::SuburbNotFound(key)) => assert_eq!(key, "Toowon"),
        other => panic!("{:?}", other),
    }
    assert!(matches!(resolve_locality(&Vec::new(), "Toowong"), Err(Failure::SuburbNotFound(_))));
}

#[test]
fn a_street_is_found_by_its_exact_name() {
    let list = vec![street(10, "Smith Street West"), street(11, "Smith Street"), street(12, "Smith Street")];
    assert_eq!(resolve_street(&list, "Smith Street").unwrap().id, 11);
    match resolve_street(&list, "Smith") {
        Err(Failure::StreetNotFound(key)) => assert_eq!(key, "Smith"),
        other => panic!("{:?}", other),
    }
}

#[test]
fn a_property_is_found_by_a_part_of_its_name() {
    let list = vec![property(100, "10 Smith Street"), property(101, "12 Smith Street Unit 1"), property(102, "12 Smith Street Unit 2")];
    assert_eq!(resolve_property(&list, "12 Smith").unwrap().id, 101);
    assert_eq!(resolve_property(&list, "Unit 2").unwrap().id, 102);
    assert_eq!(resolve_property(&list, "Smith").unwrap().id, 100);
    match resolve_property(&list, "14 Smith") {
        Err(Failure::PropertyNotFound(key)) => assert_eq!(key, "14 Smith"),
        other => panic!("{:?}", other),
    }
}

#[test]
fn a_lookup_goes_from_the_address_to_the_schedule() {
    let turn = start(&cli(Some("12 Smith Street, Toowong"), None), &noon());
    assert_eq!(fetched(&turn).url, get_url("localities.json"));
    assert!(fetched(&turn).query.is_empty());
    assert!(matches!(turn.state, Lookup::Localities(_)));

    let turn = advance(turn.state, Reply::Localities(vec![locality(1, "Taringa"), locality(2, "Toowong")]), &noon());
    assert_eq!(fetched(&turn).url, get_url("streets.json"));
    assert_eq!(pairs(fetched(&turn)), vec![("locality", "2")]);
    assert!(matches!(turn.state, Lookup::Streets(_)));

    let turn = advance(turn.state, Reply::Streets(vec![street(30, "Smith Street")]), &noon());
    assert_eq!(fetched(&turn).url, get_url("properties.json"));
    assert_eq!(pairs(fetched(&turn)), vec![("street", "30")]);
    assert!(matches!(turn.state, Lookup::Properties(_)));

    let turn = advance(
        turn.state,
        Reply::Properties(vec![property(500, "10 Smith Street"), property(501, "12 Smith Street Unit 1")]),
        &noon(),
    );
    assert_eq!(fetched(&turn).url, get_url("properties/501.json"));
    assert_eq!(
        pairs(fetched(&turn)),
        vec![("start", "2024-02-29T14:00:00Z"), ("end", "2024-03-31T12:00:00Z")]
    );
    assert!(matches!(turn.state, Lookup::Schedule(501)));

    let turn = advance(
        turn.state,
        Reply::Schedule(vec![as_summary(summary()), as_event(event("2024-03-05")), as_event(event("2024-03-12"))]),
        &noon(),
    );
    assert!(matches!(turn.state, Lookup::Finished));
    match turn.action {
        Action::Show(schedule) => {
            assert_eq!(schedule.data.property.id, Some(501));
            assert_eq!(schedule.data.property.address, "12 Smith Street");
            let starts: Vec<&str> = schedule.days.iter().map(|d| d.start.as_str()).collect();
            assert_eq!(starts, vec!["2024-03-05", "2024-03-12"]);
        }
        other => panic!("{:?}", other),
    }
}

#[test]
fn a_property_identifier_skips_the_address() {
    let turn = start(&cli(Some("never read"), Some(77)), &noon());
    assert_eq!(fetched(&turn).url, get_url("properties/77.json"));
    assert!(matches!(turn.state, Lookup::Schedule(77)));
}

#[test]
fn a_lookup_fails_on_what_is_no_address() {
    assert!(matches!(
        failure(start(&cli(None, None), &noon())),
        Failure::Input(brisbane_bin_data::address::ParseError::MissingAddress)
    ));
    assert!(matches!(
        failure(start(&cli(Some("Smith, Toowong"), None), &noon())),
        Failure::Input(brisbane_bin_data::address::ParseError::MissingStreet)
    ));
    assert!(matches!(
        failure(start(&cli(Some("12 Smith Street"), None), &noon())),
        Failure::Input(brisbane_bin_data::address::ParseError::MissingSuburb)
    ));
}

#[test]
fn a_lookup_fails_where_a_stage_finds_nothing() {
    let begun = || start(&cli(Some("12 Smith Street, Toowong"), None), &noon()).state;
    let f = failure(advance(begun(), Reply::Localities(vec![locality(1, "Taringa")]), &noon()));
    assert_eq!(f.describe(), "Suburb Toowong not found");

    let at_streets = advance(begun(), Reply::Localities(vec![locality(2, "Toowong")]), &noon()).state;
    let f = failure(advance(at_streets, Reply::Streets(vec![street(3, "Smith Road")]), &noon()));
    assert_eq!(f.describe(), "Street 'Smith Street' not found");

    let at_streets = advance(begun(), Reply::Localities(vec![locality(2, "Toowong")]), &noon()).state;
    let at_properties = advance(at_streets, Reply::Streets(vec![street(3, "Smith Street")]), &noon()).state;
    let f = failure(advance(at_properties, Reply::Properties(vec![property(9, "14 Smith Street")]), &noon()));
    assert_eq!(f.describe(), "Property 12 Smith Street not found");
}

#[test]
fn a_lookup_fails_where_a_document_cannot_be_fetched() {
    let begun = start(&cli(Some("12 Smith Street, Toowong"), None), &noon()).state;
    let f = failure(advance(begun, Reply::Failed("timed out".to_string()), &noon()));
    assert!(matches!(&f, Failure::Transport(Stage::Localities, reason) if reason == "timed out"));
    assert_eq!(f.describe(), "Failed to query localities: timed out");

    let f = failure(advance(Lookup::Schedule(5), Reply::Failed("404".to_string()), &noon()));
    assert!(matches!(&f, Failure::Transport(Stage::Schedule, _)));
    assert_eq!(f.describe(), "Failed to query bin data for property: 404");
}

#[test]
fn a_lookup_refuses_an_answer_out_of_turn() {
    let begun = start(&cli(Some("12 Smith Street, Toowong"), None), &noon()).state;
    assert!(matches!(failure(advance(begun, Reply::Streets(Vec::new()), &noon())), Failure::OutOfTurn));
    assert!(matches!(
        failure(advance(Lookup::Finished, Reply::Localities(Vec::new()), &noon())),
        Failure::OutOfTurn
    ));
    assert!(matches!(
        failure(advance(Lookup::Finished, Reply::Failed("late".to_string()), &noon())),
        Failure::OutOfTurn
    ));
    assert!(matches!(
        failure(advance(Lookup::Schedule(5), Reply::Properties(Vec::new()), &noon())),
        Failure::OutOfTurn
    ));
}

#[test]
fn a_lookup_fails_where_there_is_no_window() {
    let early = Moment { date: CalendarDate { year: -9999, month: 1, day: 3 }, hour: 1, minute: 2, second: 3 };
    assert!(matches!(
        failure(start(&cli(None, Some(5)), &early)),
        Failure::Window(DateError::OutOfRange)
    ));
    let none = Moment { date: CalendarDate { year: 2024, month: 2, day: 30 }, hour: 1, minute: 2, second: 3 };
    let f = failure(start(&cli(None, Some(5)), &none));
    assert!(matches!(f, Failure::Window(DateError::Invalid)));
    assert_eq!(f.describe(), "Failed to calculate the dates of the query!");
}

#[test]
fn a_lookup_by_the_clock_asks_for_the_current_month() {
    let turn = start_now(&cli(None, Some(12)));
    let now = time::OffsetDateTime::now_utc();
    assert_eq!(fetched(&turn).url, get_url("properties/12.json"));
    let query = pairs(fetched(&turn));
    assert_eq!(query.len(), 2);
    assert_eq!(query[0].0, "start");
    assert!(query[0].1.ends_with("T14:00:00Z"));
    assert_eq!(query[1].0, "end");
    assert!(query[1].1.len() == 20);
    let _ = now;
    let turn = advance_now(Lookup::Schedule(12), Reply::Schedule(vec![as_summary(summary())]));
    assert!(matches!(turn.action, Action::Show(_)));
}

#[test]
fn a_schedule_is_the_summary_and_the_events_in_their_order() {
    let s = assemble(
        31,
        vec![as_summary(summary()), as_event(event("2024-03-12")), as_event(event("2024-03-05")), as_event(event("x"))],
    )
    .unwrap();
    assert_eq!(s.data.property.id, Some(31));
    assert_eq!(s.data.start_date, "2024-03-01");
    let starts: Vec<&str> = s.days.iter().map(|d| d.start.as_str()).collect();
    assert_eq!(starts, vec!["2024-03-12", "2024-03-05", "x"]);
    let s = assemble(32, vec![as_summary(summary())]).unwrap();
    assert_eq!(s.data.property.id, Some(32));
    assert!(s.days.is_empty());
}

#[test]
fn a_schedule_takes_each_element_by_its_position() {
    let both = Element { summary: Some(summary()), event: Some(event("2024-03-01")) };
    let again = Element { summary: Some(summary()), event: Some(event("2024-03-02")) };
    let s = assemble(1, vec![both, again]).unwrap();
    assert_eq!(s.days.len(), 1);
    assert_eq!(s.days[0].start, "2024-03-02");
}

#[test]
fn an_answer_without_elements_is_no_schedule() {
    assert_eq!(assemble(1, Vec::new()).unwrap_err(), DecodeError::Empty);
}

#[test]
fn an_answer_must_begin_with_the_summary() {
    assert_eq!(assemble(1, vec![as_event(event("2024-03-05"))]).unwrap_err(), DecodeError::Summary);
    assert_eq!(assemble(1, vec![neither(), neither()]).unwrap_err(), DecodeError::Summary);
}

#[test]
fn an_answer_fails_on_its_first_element_that_is_no_event() {
    let e = assemble(
        1,
        vec![as_summary(summary()), as_event(event("a")), neither(), as_event(event("b")), as_summary(summary())],
    )
    .unwrap_err();
    assert_eq!(e, DecodeError::Event { index: 2 });
    let e = assemble(1, vec![as_summary(summary()), as_summary(summary())]).unwrap_err();
    assert_eq!(e, DecodeError::Event { index: 1 });
}

#[test]
fn every_failure_has_its_sentence() {
    assert_eq!(
        Failure::Input(brisbane_bin_data::address::ParseError::MissingAddress).describe(),
        "No address provided"
    );
    assert_eq!(Failure::SuburbNotFound("Oz".to_string()).describe(), "Suburb Oz not found");
    assert_eq!(Failure::StreetNotFound("Yellow Brick Rd".to_string()).describe(), "Street 'Yellow Brick Rd' not found");
    assert_eq!(Failure::PropertyNotFound("1 Yellow".to_string()).describe(), "Property 1 Yellow not found");
    assert_eq!(Failure::Transport(Stage::Streets, "down".to_string()).describe(), "Failed to query streets: down");
    assert_eq!(Failure::Transport(Stage::Properties, "down".to_string()).describe(), "Failed to query properties: down");
    assert_eq!(
        Failure::Decode(DecodeError::Empty).describe(),
        "Failed to find the first result, which should be a property!"
    );
    assert_eq!(Failure::Decode(DecodeError::Summary).describe(), "Failed to parse property data!");
    assert_eq!(
        Failure::Decode(DecodeError::Event { index: 12 }).describe(),
        "Failed to parse a bin day! Element 12"
    );
    assert_eq!(
        Failure::Window(DateError::Unprintable).describe(),
        "Failed to string-format the dates of the query!"
    );
    assert_eq!(
        Failure::Window(DateError::OutOfRange).describe(),
        "Failed to calculate the dates of the query!"
    );
    assert_eq!(Failure::OutOfTurn.describe(), "An answer came that was not asked for");
}

#[test]
fn a_lookup_fails_on_an_answer_that_is_no_schedule() {
    let f = failure(advance(Lookup::Schedule(5), Reply::Schedule(Vec::new()), &noon()));
    assert!(matches!(f, Failure::Decode(DecodeError::Empty)));
    let f = failure(advance(Lookup::Schedule(5), Reply::Schedule(vec![as_event(event("2024-03-05"))]), &noon()));
    assert!(matches!(f, Failure::Decode(DecodeError::Summary)));
    let f = failure(advance(
        Lookup::Schedule(5),
        Reply::Schedule(vec![as_summary(summary()), as_event(event("2024-03-05")), neither()]),
        &noon(),
    ));
    assert!(matches!(f, Failure::Decode(DecodeError::Event { index: 2 })));
    assert_eq!(f.describe(), "Failed to parse a bin day! Element 2");
}

#[test]
fn a_lookup_knows_what_it_waits_for() {
    let begun = start(&cli(Some("12 Smith Street, Toowong"), None), &noon()).state;
    assert_eq!(begun.waits_for(), Some(Stage::Localities));
    assert_eq!(Lookup::Schedule(1).waits_for(), Some(Stage::Schedule));
    assert_eq!(Lookup::Finished.waits_for(), None);
    let at_streets = advance(begun, Reply::Localities(vec![locality(2, "Toowong")]), &noon()).state;
    assert_eq!(at_streets.waits_for(), Some(Stage::Streets));
    let at_properties = advance(at_streets, Reply::Streets(vec![street(3, "Smith Street")]), &noon()).state;
    assert_eq!(at_properties.waits_for(), Some(Stage::Properties));
}
