//! The records of the lookup service and of a schedule.
//!
//! Each record has a view that holds its texts as sequences of characters;
//! what is said of a record is said of its view.

use crate::date::{date_of, parse_date, CalendarDate, DateError};
use crate::day::CollectionDay;
use crate::text::{
    decimal, from_chars, join, labelled, push_decimal, push_joined, push_labelled, push_str,
    strings,
};
use vstd::prelude::*;

verus! {

/// A suburb that the lookup service knows.
#[derive(Debug)]
pub struct Locality {
    pub id: u32,
    pub name: String,
    pub postcode: Option<String>,
    pub council: String,
}

/// The answer to a query for all localities.
#[derive(Debug)]
pub struct Localities {
    pub localities: Vec<Locality>,
}

/// A street of one locality.
#[derive(Debug)]
pub struct Street {
    pub id: u32,
    pub name: String,
    pub locality: String,
}

/// The answer to a query for the streets of a locality.
#[derive(Debug)]
pub struct Streets {
    pub streets: Vec<Street>,
}

/// A property on one street.
#[derive(Debug)]
pub struct Property {
    pub id: u64,
    pub name: String,
    pub zone: String,
    pub voucher_preferences: u32,
}

/// The answer to a query for the properties of a street.
#[derive(Debug)]
pub struct Properties {
    pub properties: Vec<Property>,
}

/// One scheduled collection.
#[derive(Debug, Clone)]
pub struct BinDay {
    pub id: Option<u32>,
    pub name: Option<String>,
    pub description: Option<String>,
    pub color: String,
    pub text_colour: String,
    pub border_colour: String,
    /// The date of the event, written as year, month and day.
    pub start: String,
    pub event_type: String,
}

/// What a schedule says of the property itself.
#[derive(Debug, Clone)]
pub struct BinProperty {
    /// The identifier that the schedule was asked for. The service does not
    /// send it.
    pub id: Option<u64>,
    pub collection_day: CollectionDay,
    pub collection_day_2: Option<CollectionDay>,
    pub zone: String,
    pub shs: Option<String>,
    pub bin_bank_id: Option<String>,
    pub clean_up_code: String,
    pub address: String,
    pub service_type: String,
    pub collections: Vec<String>,
}

/// The first element of a schedule: the property and its weekly days.
#[derive(Debug, Clone)]
pub struct BinData {
    pub property: BinProperty,
    pub color: String,
    pub text_colour: String,
    pub border_colour: String,
    pub dow: Vec<CollectionDay>,
    pub days_of_week: Vec<CollectionDay>,
    pub start_date: String,
    pub event_type: String,
}

/// What a [`Locality`] holds.
pub struct LocalityView {
    pub id: u32,
    pub name: Seq<char>,
    pub postcode: Option<Seq<char>>,
    pub council: Seq<char>,
}

/// What a [`Street`] holds.
pub struct StreetView {
    pub id: u32,
    pub name: Seq<char>,
    pub locality: Seq<char>,
}

/// What a [`Property`] holds.
pub struct PropertyView {
    pub id: u64,
    pub name: Seq<char>,
    pub zone: Seq<char>,
    pub voucher_preferences: u32,
}

/// What a [`BinDay`] holds.
pub struct BinDayView {
    pub id: Option<u32>,
    pub name: Option<Seq<char>>,
    pub description: Option<Seq<char>>,
    pub color: Seq<char>,
    pub text_colour: Seq<char>,
    pub border_colour: Seq<char>,
    pub start: Seq<char>,
    pub event_type: Seq<char>,
}

/// What a [`BinProperty`] holds.
pub struct BinPropertyView {
    pub id: Option<u64>,
    pub collection_day: CollectionDay,
    pub collection_day_2: Option<CollectionDay>,
    pub zone: Seq<char>,
    pub shs: Option<Seq<char>>,
    pub bin_bank_id: Option<Seq<char>>,
    pub clean_up_code: Seq<char>,
    pub address: Seq<char>,
    pub service_type: Seq<char>,
    pub collections: Seq<Seq<char>>,
}

/// What a [`BinData`] holds.
pub struct BinDataView {
    pub property: BinPropertyView,
    pub color: Seq<char>,
    pub text_colour: Seq<char>,
    pub border_colour: Seq<char>,
    pub dow: Seq<CollectionDay>,
    pub days_of_week: Seq<CollectionDay>,
    pub start_date: Seq<char>,
    pub event_type: Seq<char>,
}

/// The view of a string that may be missing.
pub open spec fn optional_text(value: Option<String>) -> Option<Seq<char>> {
    match value {
        Some(v) => Some(v@),
        None => None,
    }
}

impl View for Locality {
    type V = LocalityView;

    open spec fn view(&self) -> LocalityView {
        LocalityView {
            id: self.id,
            name: self.name@,
            postcode: optional_text(self.postcode),
            council: self.council@,
        }
    }
}

impl View for Street {
    type V = StreetView;

    open spec fn view(&self) -> StreetView {
        StreetView { id: self.id, name: self.name@, locality: self.locality@ }
    }
}

impl View for Property {
    type V = PropertyView;

    open spec fn view(&self) -> PropertyView {
        PropertyView {
            id: self.id,
            name: self.name@,
            zone: self.zone@,
            voucher_preferences: self.voucher_preferences,
        }
    }
}

impl View for BinDay {
    type V = BinDayView;

    open spec fn view(&self) -> BinDayView {
        BinDayView {
            id: self.id,
            name: optional_text(self.name),
            description: optional_text(self.description),
            color: self.color@,
            text_colour: self.text_colour@,
            border_colour: self.border_colour@,
            start: self.start@,
            event_type: self.event_type@,
        }
    }
}

impl View for BinProperty {
    type V = BinPropertyView;

    open spec fn view(&self) -> BinPropertyView {
        BinPropertyView {
            id: self.id,
            collection_day: self.collection_day,
            collection_day_2: self.collection_day_2,
            zone: self.zone@,
            shs: optional_text(self.shs),
            bin_bank_id: optional_text(self.bin_bank_id),
            clean_up_code: self.clean_up_code@,
            address: self.address@,
            service_type: self.service_type@,
            collections: strings(self.collections@),
        }
    }
}

impl View for BinData {
    type V = BinDataView;

    open spec fn view(&self) -> BinDataView {
        BinDataView {
            property: self.property@,
            color: self.color@,
            text_colour: self.text_colour@,
            border_colour: self.border_colour@,
            dow: self.dow@,
            days_of_week: self.days_of_week@,
            start_date: self.start_date@,
            event_type: self.event_type@,
        }
    }
}

/// The views of `days`, in order.
pub open spec fn day_views(days: Seq<BinDay>) -> Seq<BinDayView> {
    Seq::new(days.len(), |i: int| days[i]@)
}

/// The text of an optional line: label, value and line end, or nothing.
pub open spec fn optional_line(label: Seq<char>, value: Option<Seq<char>>) -> Seq<char> {
    match value {
        Some(v) => labelled(label, v),
        None => Seq::empty(),
    }
}

/// The collection labels of a service in brackets, or nothing where there
/// are none.
pub open spec fn bracketed(labels: Seq<Seq<char>>) -> Seq<char> {
    if labels.len() > 0 {
        "("@ + join(labels, ", "@) + ")"@
    } else {
        Seq::empty()
    }
}

impl BinDayView {
    /// The date of the event as it is shown: the date where `start` holds
    /// one, else `start` as it stands.
    pub open spec fn shown_date(self) -> Seq<char> {
        match date_of(self.start) {
            Ok(d) => d.text(),
            Err(_) => self.start,
        }
    }

    /// The name of the event followed by a space, or nothing.
    pub open spec fn shown_name(self) -> Seq<char> {
        match self.name {
            Some(n) => n + " "@,
            None => Seq::empty(),
        }
    }

    /// The line that shows the event: date, name if any, and type of event.
    pub open spec fn text(self) -> Seq<char> {
        self.shown_date() + " "@ + self.shown_name() + self.event_type
    }
}

impl BinPropertyView {
    /// The first line of the block: the identifier, where it is known.
    pub open spec fn id_line(self) -> Seq<char> {
        match self.id {
            Some(id) => labelled("Property ID: "@, decimal(id as nat)),
            None => Seq::empty(),
        }
    }

    /// The line of the second collection day, where there is one.
    pub open spec fn second_day_line(self) -> Seq<char> {
        match self.collection_day_2 {
            Some(day) => labelled("Collection Day 2: "@, day.name()),
            None => Seq::empty(),
        }
    }

    /// The line of the service: its type, and its collection labels in
    /// brackets where it has any.
    pub open spec fn service_line(self) -> Seq<char> {
        "Service Type: "@ + self.service_type + bracketed(self.collections) + " \n"@
    }

    /// The line of the address, with the zone in brackets.
    pub open spec fn address_line(self) -> Seq<char> {
        "Address: "@ + self.address + " ("@ + self.zone + ")\n"@
    }

    /// The block of lines that shows the property.
    pub open spec fn text(self) -> Seq<char> {
        self.id_line() + labelled("Collection Day: "@, self.collection_day.name())
            + self.second_day_line() + optional_line("Bin Bank ID: "@, self.bin_bank_id)
            + optional_line("SHS: "@, self.shs) + self.service_line() + self.address_line()
    }
}

impl BinDay {
    /// The date of the event.
    pub fn get_start_date(&self) -> (r: Result<CalendarDate, DateError>)
        ensures
            r == date_of(self@.start),
            r matches Ok(d) ==> d.is_valid(),
    {
        parse_date(self.start.as_str())
    }

    /// The line that shows the event.
    pub fn to_string(&self) -> (line: String)
        ensures
            line@ == self@.text(),
    {
        let mut out: Vec<char> = Vec::new();
        match self.get_start_date() {
            Ok(d) => {
                match d.to_string() {
                    Some(shown) => push_str(&mut out, shown.as_str()),
                    None => {},
                }
            },
            Err(_) => push_str(&mut out, self.start.as_str()),
        }
        push_str(&mut out, " ");
        match &self.name {
            Some(n) => {
                push_str(&mut out, n.as_str());
                push_str(&mut out, " ");
            },
            None => {},
        }
        push_str(&mut out, self.event_type.as_str());
        proof {
            assert(out@ =~= self@.text());
        }
        from_chars(&out)
    }
}

impl BinProperty {
    /// The block of lines that shows the property.
    pub fn to_string(&self) -> (block: String)
        ensures
            block@ == self@.text(),
    {
        let mut out: Vec<char> = Vec::new();
        match self.id {
            Some(id) => {
                push_str(&mut out, "Property ID: ");
                push_decimal(&mut out, id);
                out.push('\n');
            },
            None => {},
        }
        assert(out@ =~= self@.id_line());
        let day = self.collection_day.to_string();
        push_labelled(&mut out, "Collection Day: ", day.as_str());
        match &self.collection_day_2 {
            Some(second) => {
                let day = second.to_string();
                push_labelled(&mut out, "Collection Day 2: ", day.as_str());
            },
            None => {},
        }
        match &self.bin_bank_id {
            Some(id) => push_labelled(&mut out, "Bin Bank ID: ", id.as_str()),
            None => {},
        }
        match &self.shs {
            Some(shs) => push_labelled(&mut out, "SHS: ", shs.as_str()),
            None => {},
        }
        let ghost before_service = out@;
        push_str(&mut out, "Service Type: ");
        push_str(&mut out, self.service_type.as_str());
        if self.collections.len() > 0 {
            push_str(&mut out, "(");
            push_joined(&mut out, &self.collections, ", ");
            push_str(&mut out, ")");
        }
        push_str(&mut out, " \n");
        assert(out@ =~= before_service + self@.service_line());
        let ghost before_address = out@;
        push_str(&mut out, "Address: ");
        push_str(&mut out, self.address.as_str());
        push_str(&mut out, " (");
        push_str(&mut out, self.zone.as_str());
        push_str(&mut out, ")\n");
        assert(out@ =~= before_address + self@.address_line());
        from_chars(&out)
    }
}

} // verus!
