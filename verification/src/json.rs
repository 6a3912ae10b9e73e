//! A schedule as structured text: JSON, laid out over lines, two spaces to a
//! level.
//!
//! Which members a record has, their names and their order are decided here,
//! and so is the layout. Strings are quoted and escaped by `serde_json`.

use crate::day::CollectionDay;
use crate::model::{
    day_views, optional_text, BinData, BinDataView, BinDay, BinDayView, BinProperty,
    BinPropertyView,
};
use crate::schedule::{Schedule, ScheduleView};
use crate::text::{
    decimal, from_chars, join, join_all, push_all, push_decimal, push_str, strings, to_chars,
    views,
};
use vstd::prelude::*;

verus! {

/// The character that stands for the hexadecimal digit `d`, in lower case.
pub open spec fn hex_char(d: int) -> char {
    if d == 0 {
        '0'
    } else if d == 1 {
        '1'
    } else if d == 2 {
        '2'
    } else if d == 3 {
        '3'
    } else if d == 4 {
        '4'
    } else if d == 5 {
        '5'
    } else if d == 6 {
        '6'
    } else if d == 7 {
        '7'
    } else if d == 8 {
        '8'
    } else if d == 9 {
        '9'
    } else if d == 10 {
        'a'
    } else if d == 11 {
        'b'
    } else if d == 12 {
        'c'
    } else if d == 13 {
        'd'
    } else if d == 14 {
        'e'
    } else {
        'f'
    }
}

/// A character as it stands inside a JSON string: the quotation mark and the
/// backslash after a backslash; back space, tab, line feed, form feed and
/// carriage return as a backslash and a letter; any other character below
/// the blank as `\u00` and two hexadecimal digits; every other character as
/// it is.
pub open spec fn escaped(c: char) -> Seq<char> {
    if c == '"' {
        seq!['\\', '"']
    } else if c == '\\' {
        seq!['\\', '\\']
    } else if c == '\u{8}' {
        seq!['\\', 'b']
    } else if c == '\t' {
        seq!['\\', 't']
    } else if c == '\n' {
        seq!['\\', 'n']
    } else if c == '\u{c}' {
        seq!['\\', 'f']
    } else if c == '\r' {
        seq!['\\', 'r']
    } else if (c as u32) < 0x20 {
        seq![
            '\\',
            'u',
            '0',
            '0',
            hex_char((c as u32) as int / 16),
            hex_char((c as u32) as int % 16),
        ]
    } else {
        seq![c]
    }
}

/// The characters of `text`, each as it stands inside a JSON string.
pub open spec fn escaped_text(text: Seq<char>) -> Seq<char>
    decreases text.len(),
{
    if text.len() == 0 {
        Seq::empty()
    } else {
        escaped_text(text.drop_last()) + escaped(text.last())
    }
}

/// A string as JSON: its characters, escaped, between quotation marks.
pub open spec fn json_string(text: Seq<char>) -> Seq<char> {
    seq!['"'] + escaped_text(text) + seq!['"']
}

/// `serde_json::to_string` on a string. It does not fail on a string, and
/// what it writes is the string between quotation marks, each character
/// escaped as its table of escapes says.
#[verifier::external_body]
fn encode_string(text: &str) -> (r: Option<String>)
    ensures
        r is Some,
        r->Some_0@ == json_string(text@),
{
    serde_json::to_string(text).ok()
}

/// The white space that begins a line at the level `depth`.
pub open spec fn indent(depth: nat) -> Seq<char>
    decreases depth,
{
    if depth == 0 {
        Seq::empty()
    } else {
        indent((depth - 1) as nat) + "  "@
    }
}

/// What stands between two items of a list or record at the level `depth`.
pub open spec fn item_break(depth: nat) -> Seq<char> {
    ",\n"@ + indent(depth + 1)
}

/// A list or record at the level `depth`: the items between `open` and
/// `close`, each on a line of its own one level deeper; where there is no
/// item, `open` and `close` alone.
pub open spec fn block(open: char, close: char, items: Seq<Seq<char>>, depth: nat) -> Seq<char> {
    if items.len() == 0 {
        seq![open, close]
    } else {
        seq![open] + "\n"@ + indent(depth + 1) + join(items, item_break(depth)) + "\n"@ + indent(
            depth,
        ) + seq![close]
    }
}

/// A member of a record: its name, quoted, and its value.
pub open spec fn member(key: Seq<char>, value: Seq<char>) -> Seq<char> {
    "\""@ + key + "\": "@ + value
}

/// The members with one more, named `key`, where there is a value for it.
pub open spec fn with_optional(members: Seq<Seq<char>>, key: Seq<char>, value: Option<Seq<char>>) -> Seq<
    Seq<char>,
> {
    match value {
        Some(v) => members.push(member(key, v)),
        None => members,
    }
}

/// The strings of `texts`, each as JSON.
pub open spec fn string_items(texts: Seq<Seq<char>>) -> Seq<Seq<char>> {
    Seq::new(texts.len(), |i: int| json_string(texts[i]))
}

/// The names of `days`, in order.
pub open spec fn day_names(days: Seq<CollectionDay>) -> Seq<Seq<char>> {
    Seq::new(days.len(), |i: int| days[i].name())
}

/// A number as the value of an optional member.
pub open spec fn optional_number(value: Option<u64>) -> Option<Seq<char>> {
    match value {
        Some(n) => Some(decimal(n as nat)),
        None => None,
    }
}

/// A string as the value of an optional member.
pub open spec fn optional_string(value: Option<Seq<char>>) -> Option<Seq<char>> {
    match value {
        Some(v) => Some(json_string(v)),
        None => None,
    }
}

/// The name of a day as the value of an optional member.
pub open spec fn optional_day(value: Option<CollectionDay>) -> Option<Seq<char>> {
    match value {
        Some(day) => Some(json_string(day.name())),
        None => None,
    }
}

/// The identifier of an event as the value of an optional member.
pub open spec fn optional_id(value: Option<u32>) -> Option<Seq<char>> {
    match value {
        Some(n) => Some(decimal(n as nat)),
        None => None,
    }
}

/// The record of a property at the level `depth`. The identifier, the second
/// collection day, `shs` and `bin_bank_id` are members only where they are
/// present.
pub open spec fn property_json(p: BinPropertyView, depth: nat) -> Seq<char> {
    let m = Seq::<Seq<char>>::empty();
    let m = with_optional(m, "id"@, optional_number(p.id));
    let m = m.push(member("collection_day"@, json_string(p.collection_day.name())));
    let m = with_optional(m, "collection_day_2"@, optional_day(p.collection_day_2));
    let m = m.push(member("zone"@, json_string(p.zone)));
    let m = with_optional(m, "shs"@, optional_string(p.shs));
    let m = with_optional(m, "bin_bank_id"@, optional_string(p.bin_bank_id));
    let m = m.push(member("clean_up_code"@, json_string(p.clean_up_code)));
    let m = m.push(member("address"@, json_string(p.address)));
    let m = m.push(member("service_type"@, json_string(p.service_type)));
    let m = m.push(
        member("collections"@, block('[', ']', string_items(p.collections), depth + 1)),
    );
    block('{', '}', m, depth)
}

/// The record of the first element of a schedule at the level `depth`.
pub open spec fn data_json(d: BinDataView, depth: nat) -> Seq<char> {
    let m = Seq::<Seq<char>>::empty();
    let m = m.push(member("property"@, property_json(d.property, depth + 1)));
    let m = m.push(member("color"@, json_string(d.color)));
    let m = m.push(member("textColor"@, json_string(d.text_colour)));
    let m = m.push(member("borderColor"@, json_string(d.border_colour)));
    let m = m.push(member("dow"@, block('[', ']', string_items(day_names(d.dow)), depth + 1)));
    let m = m.push(
        member("daysOfWeek"@, block('[', ']', string_items(day_names(d.days_of_week)), depth + 1)),
    );
    let m = m.push(member("start_date"@, json_string(d.start_date)));
    let m = m.push(member("event_type"@, json_string(d.event_type)));
    block('{', '}', m, depth)
}

/// The record of an event at the level `depth`. The identifier, the name and
/// the description are members only where they are present.
pub open spec fn event_json(e: BinDayView, depth: nat) -> Seq<char> {
    let m = Seq::<Seq<char>>::empty();
    let m = with_optional(m, "id"@, optional_id(e.id));
    let m = with_optional(m, "name"@, optional_string(e.name));
    let m = with_optional(m, "description"@, optional_string(e.description));
    let m = m.push(member("color"@, json_string(e.color)));
    let m = m.push(member("textColor"@, json_string(e.text_colour)));
    let m = m.push(member("borderColor"@, json_string(e.border_colour)));
    let m = m.push(member("start"@, json_string(e.start)));
    let m = m.push(member("event_type"@, json_string(e.event_type)));
    block('{', '}', m, depth)
}

/// The records of `events`, in order, at the level `depth`.
pub open spec fn event_items(events: Seq<BinDayView>, depth: nat) -> Seq<Seq<char>> {
    Seq::new(events.len(), |i: int| event_json(events[i], depth))
}

/// A schedule as JSON: a list of two, the record of the first element and
/// the list of the events.
pub open spec fn schedule_json(schedule: ScheduleView) -> Seq<char> {
    block(
        '[',
        ']',
        seq![data_json(schedule.data, 1), block('[', ']', event_items(schedule.days, 2), 1)],
        0,
    )
}

/// The view of a character vector that may be missing.
pub open spec fn value_view(value: Option<Vec<char>>) -> Option<Seq<char>> {
    match value {
        Some(v) => Some(v@),
        None => None,
    }
}

/// Appends the white space that begins a line at the level `depth`.
fn push_indent(out: &mut Vec<char>, depth: usize)
    ensures
        final(out)@ == old(out)@ + indent(depth as nat),
{
    let mut k: usize = 0;
    proof {
        assert(out@ =~= old(out)@ + indent(0));
    }
    while k < depth
        invariant
            k <= depth,
            out@ == old(out)@ + indent(k as nat),
        decreases depth - k,
    {
        push_str(out, "  ");
        proof {
            assert(out@ =~= old(out)@ + indent((k + 1) as nat));
        }
        k += 1;
    }
}

/// The list or record of `items` at the level `depth`.
fn block_text(open: char, close: char, items: &Vec<Vec<char>>, depth: usize) -> (out: Vec<char>)
    requires
        depth < 1000,
    ensures
        out@ == block(open, close, views(items@), depth as nat),
{
    let mut out: Vec<char> = Vec::new();
    out.push(open);
    if items.len() > 0 {
        let mut sep: Vec<char> = Vec::new();
        push_str(&mut sep, ",\n");
        push_indent(&mut sep, depth + 1);
        assert(sep@ =~= item_break(depth as nat));
        let joined = join_all(items, &sep);
        push_str(&mut out, "\n");
        push_indent(&mut out, depth + 1);
        push_all(&mut out, &joined);
        push_str(&mut out, "\n");
        push_indent(&mut out, depth);
    }
    out.push(close);
    proof {
        assert(out@ =~= block(open, close, views(items@), depth as nat));
    }
    out
}

/// Adds `item` to `items`.
fn add_item(items: &mut Vec<Vec<char>>, item: Vec<char>)
    ensures
        views(final(items)@) == views(old(items)@).push(item@),
{
    items.push(item);
    proof {
        assert(views(items@) =~= views(old(items)@).push(item@));
    }
}

/// Adds the member named `key` to `members`.
fn add_member(members: &mut Vec<Vec<char>>, key: &str, value: &Vec<char>)
    ensures
        views(final(members)@) == views(old(members)@).push(member(key@, value@)),
{
    let mut text: Vec<char> = Vec::new();
    push_str(&mut text, "\"");
    push_str(&mut text, key);
    push_str(&mut text, "\": ");
    push_all(&mut text, value);
    proof {
        assert(text@ =~= member(key@, value@));
    }
    add_item(members, text);
}

/// Adds the member named `key` to `members`, where there is a value for it.
fn add_optional(members: &mut Vec<Vec<char>>, key: &str, value: &Option<Vec<char>>)
    ensures
        views(final(members)@) == with_optional(views(old(members)@), key@, value_view(*value)),
{
    match value {
        Some(v) => add_member(members, key, v),
        None => {},
    }
}

/// A string as JSON.
fn string_value(text: &str) -> (out: Vec<char>)
    ensures
        out@ == json_string(text@),
{
    match encode_string(text) {
        Some(t) => to_chars(t.as_str()),
        None => Vec::new(),
    }
}

/// A number as JSON.
fn number_value(n: u64) -> (out: Vec<char>)
    ensures
        out@ == decimal(n as nat),
{
    let mut text: Vec<char> = Vec::new();
    push_decimal(&mut text, n);
    proof {
        assert(text@ =~= decimal(n as nat));
    }
    text
}

/// The name of a day as JSON.
fn day_value(day: &CollectionDay) -> (out: Vec<char>)
    ensures
        out@ == json_string(day.name()),
{
    let name = day.to_string();
    string_value(name.as_str())
}

/// A string that may be missing as the value of an optional member.
fn optional_string_value(value: &Option<String>) -> (out: Option<Vec<char>>)
    ensures
        value_view(out) == optional_string(optional_text(*value)),
{
    match value {
        Some(v) => Some(string_value(v.as_str())),
        None => None,
    }
}

/// The list of the strings `texts` at the level `depth`.
fn string_list(texts: &Vec<String>, depth: usize) -> (out: Vec<char>)
    requires
        depth < 1000,
    ensures
        out@ == block('[', ']', string_items(strings(texts@)), depth as nat),
{
    let mut items: Vec<Vec<char>> = Vec::new();
    let mut k: usize = 0;
    while k < texts.len()
        invariant
            k <= texts.len(),
            views(items@) =~= string_items(strings(texts@)).take(k as int),
        decreases texts.len() - k,
    {
        add_item(&mut items, string_value(texts[k].as_str()));
        k += 1;
    }
    proof {
        assert(views(items@) =~= string_items(strings(texts@)));
    }
    block_text('[', ']', &items, depth)
}

/// The list of the names of `days` at the level `depth`.
fn day_list(days: &Vec<CollectionDay>, depth: usize) -> (out: Vec<char>)
    requires
        depth < 1000,
    ensures
        out@ == block('[', ']', string_items(day_names(days@)), depth as nat),
{
    let mut items: Vec<Vec<char>> = Vec::new();
    let mut k: usize = 0;
    while k < days.len()
        invariant
            k <= days.len(),
            views(items@) =~= string_items(day_names(days@)).take(k as int),
        decreases days.len() - k,
    {
        add_item(&mut items, day_value(&days[k]));
        k += 1;
    }
    proof {
        assert(views(items@) =~= string_items(day_names(days@)));
    }
    block_text('[', ']', &items, depth)
}

/// The record of a property at the level `depth`.
fn property_value(p: &BinProperty, depth: usize) -> (out: Vec<char>)
    requires
        depth < 900,
    ensures
        out@ == property_json(p@, depth as nat),
{
    let mut m: Vec<Vec<char>> = Vec::new();
    proof {
        assert(views(m@) =~= Seq::<Seq<char>>::empty());
    }
    let id = match p.id {
        Some(n) => Some(number_value(n)),
        None => None,
    };
    add_optional(&mut m, "id", &id);
    add_member(&mut m, "collection_day", &day_value(&p.collection_day));
    let second = match &p.collection_day_2 {
        Some(day) => Some(day_value(day)),
        None => None,
    };
    add_optional(&mut m, "collection_day_2", &second);
    add_member(&mut m, "zone", &string_value(p.zone.as_str()));
    add_optional(&mut m, "shs", &optional_string_value(&p.shs));
    add_optional(&mut m, "bin_bank_id", &optional_string_value(&p.bin_bank_id));
    add_member(&mut m, "clean_up_code", &string_value(p.clean_up_code.as_str()));
    add_member(&mut m, "address", &string_value(p.address.as_str()));
    add_member(&mut m, "service_type", &string_value(p.service_type.as_str()));
    add_member(&mut m, "collections", &string_list(&p.collections, depth + 1));
    block_text('{', '}', &m, depth)
}

/// The record of the first element of a schedule at the level `depth`.
fn data_value(d: &BinData, depth: usize) -> (out: Vec<char>)
    requires
        depth < 800,
    ensures
        out@ == data_json(d@, depth as nat),
{
    let mut m: Vec<Vec<char>> = Vec::new();
    proof {
        assert(views(m@) =~= Seq::<Seq<char>>::empty());
    }
    add_member(&mut m, "property", &property_value(&d.property, depth + 1));
    add_member(&mut m, "color", &string_value(d.color.as_str()));
    add_member(&mut m, "textColor", &string_value(d.text_colour.as_str()));
    add_member(&mut m, "borderColor", &string_value(d.border_colour.as_str()));
    add_member(&mut m, "dow", &day_list(&d.dow, depth + 1));
    add_member(&mut m, "daysOfWeek", &day_list(&d.days_of_week, depth + 1));
    add_member(&mut m, "start_date", &string_value(d.start_date.as_str()));
    add_member(&mut m, "event_type", &string_value(d.event_type.as_str()));
    block_text('{', '}', &m, depth)
}

/// The record of an event at the level `depth`.
fn event_value(e: &BinDay, depth: usize) -> (out: Vec<char>)
    requires
        depth < 900,
    ensures
        out@ == event_json(e@, depth as nat),
{
    let mut m: Vec<Vec<char>> = Vec::new();
    proof {
        assert(views(m@) =~= Seq::<Seq<char>>::empty());
    }
    let id = match e.id {
        Some(n) => Some(number_value(n as u64)),
        None => None,
    };
    add_optional(&mut m, "id", &id);
    add_optional(&mut m, "name", &optional_string_value(&e.name));
    add_optional(&mut m, "description", &optional_string_value(&e.description));
    add_member(&mut m, "color", &string_value(e.color.as_str()));
    add_member(&mut m, "textColor", &string_value(e.text_colour.as_str()));
    add_member(&mut m, "borderColor", &string_value(e.border_colour.as_str()));
    add_member(&mut m, "start", &string_value(e.start.as_str()));
    add_member(&mut m, "event_type", &string_value(e.event_type.as_str()));
    block_text('{', '}', &m, depth)
}

/// The list of the records of `events` at the level `depth`.
fn event_list(events: &Vec<BinDay>, depth: usize) -> (out: Vec<char>)
    requires
        depth < 800,
    ensures
        out@ == block('[', ']', event_items(day_views(events@), (depth + 1) as nat), depth as nat),
{
    let mut items: Vec<Vec<char>> = Vec::new();
    let mut k: usize = 0;
    while k < events.len()
        invariant
            k <= events.len(),
            depth < 800,
            views(items@) =~= event_items(day_views(events@), (depth + 1) as nat).take(k as int),
        decreases events.len() - k,
    {
        add_item(&mut items, event_value(&events[k], depth + 1));
        k += 1;
    }
    proof {
        assert(views(items@) =~= event_items(day_views(events@), (depth + 1) as nat));
    }
    block_text('[', ']', &items, depth)
}

/// `schedule` as JSON.
pub fn to_json(schedule: &Schedule) -> (out: String)
    ensures
        out@ == schedule_json(schedule@),
{
    let mut items: Vec<Vec<char>> = Vec::new();
    add_item(&mut items, data_value(&schedule.data, 1));
    add_item(&mut items, event_list(&schedule.days, 1));
    proof {
        assert(views(items@) =~= seq![
            data_json(schedule@.data, 1),
            block('[', ']', event_items(schedule@.days, 2), 1),
        ]);
    }
    from_chars(&block_text('[', ']', &items, 0))
}

} // verus!
