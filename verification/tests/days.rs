use brisbane_bin_data::day::{merged_days, CollectionDay, InvalidDay};

use CollectionDay::{Friday, Monday, Saturday, Sunday, Thursday, Tuesday, Wednesday};

#[test]
fn merging_drops_the_day_that_both_lists_hold() {
    let merged = merged_days(&vec![Monday, Tuesday], &vec![Tuesday, Wednesday]);
    assert_eq!(merged, vec![Monday, Tuesday, Wednesday]);
}

#[test]
fn merging_does_not_depend_on_the_order_of_the_lists() {
    let one = merged_days(&vec![Wednesday, Monday], &vec![Tuesday, Wednesday, Tuesday]);
    let other = merged_days(&vec![Tuesday, Wednesday, Tuesday], &vec![Monday, Wednesday]);
    assert_eq!(one, vec![Monday, Tuesday, Wednesday]);
    assert_eq!(other, one);
}

#[test]
fn merging_two_empty_lists_gives_no_day() {
    assert_eq!(merged_days(&Vec::new(), &Vec::new()), Vec::<CollectionDay>::new());
}

#[test]
fn merging_keeps_a_day_of_either_list() {
    assert_eq!(merged_days(&vec![Saturday], &Vec::new()), vec![Saturday]);
    assert_eq!(merged_days(&Vec::new(), &vec![Sunday, Sunday]), vec![Sunday]);
}

#[test]
fn merging_all_days_gives_the_week_from_sunday() {
    let all = vec![Saturday, Friday, Thursday, Wednesday, Tuesday, Monday, Sunday];
    assert_eq!(
        merged_days(&all, &all),
        vec![Sunday, Monday, Tuesday, Wednesday, Thursday, Friday, Saturday]
    );
}

#[test]
fn wire_numbers_start_at_sunday() {
    let week = [Sunday, Monday, Tuesday, Wednesday, Thursday, Friday, Saturday];
    for (code, day) in week.iter().enumerate() {
        assert_eq!(CollectionDay::from(code as u8), *day);
        assert_eq!(day.number(), code as u8);
        assert_eq!(CollectionDay::decode(code as u8), Ok(*day));
    }
}

#[test]
fn a_wire_number_above_six_is_no_day() {
    assert_eq!(CollectionDay::decode(7), Err(InvalidDay { code: 7 }));
    assert_eq!(CollectionDay::decode(255), Err(InvalidDay { code: 255 }));
}

#[test]
fn days_are_shown_by_their_names() {
    let names: Vec<String> = [Sunday, Monday, Tuesday, Wednesday, Thursday, Friday, Saturday]
        .iter()
        .map(|d| d.to_string())
        .collect();
    assert_eq!(
        names,
        vec!["Sunday", "Monday", "Tuesday", "Wednesday", "Thursday", "Friday", "Saturday"]
    );
}
