//! What was typed on the command line, and what it asks for.

pub use crate::address::AddressData;
use crate::address::{parse_address, parsed, ParseError};
use crate::render::{RenderMode, RenderOptions};
use vstd::prelude::*;

verus! {

/// What was typed on the command line.
#[derive(Debug, Clone)]
pub struct Cli {
    /// The address to look up.
    pub address: Option<String>,
    /// Whether to report each step.
    pub debug: bool,
    /// A property identifier that makes the address lookup unnecessary.
    pub property_id: Option<u64>,
    /// Whether only the collection days are wanted.
    pub show_day: bool,
    /// Whether the readable report is wanted.
    pub pretty: bool,
    /// Whether the report leaves out past events.
    pub future: bool,
}

impl Cli {
    /// The search keys of the address that was typed, or the sentence that
    /// says what is missing.
    pub fn get_data(&self) -> (r: Result<AddressData, String>)
        ensures
            match self.address {
                None => r is Err && r->Err_0@ == ParseError::MissingAddress.message(),
                Some(text) => match parsed(text@) {
                    Ok(a) => r is Ok && r->Ok_0@ == a,
                    Err(e) => r is Err && r->Err_0@ == e.message(),
                },
            },
    {
        match &self.address {
            None => Err(ParseError::MissingAddress.describe()),
            Some(text) => match parse_address(text.as_str()) {
                Ok(a) => Ok(a),
                Err(e) => Err(e.describe()),
            },
        }
    }

    /// The way of showing the schedule that was asked for: the collection
    /// days where they were asked for, else the report where it was, else
    /// the structured text.
    pub open spec fn mode_spec(self) -> RenderMode {
        if self.show_day {
            RenderMode::DayList
        } else if self.pretty {
            RenderMode::Report
        } else {
            RenderMode::Raw
        }
    }

    /// The way of showing the schedule that was asked for.
    pub fn mode(&self) -> (mode: RenderMode)
        ensures
            mode == self.mode_spec(),
    {
        if self.show_day {
            RenderMode::DayList
        } else if self.pretty {
            RenderMode::Report
        } else {
            RenderMode::Raw
        }
    }

    /// What the report is to leave out.
    pub fn options(&self) -> (options: RenderOptions)
        ensures
            options.future_only == self.future,
    {
        RenderOptions { future_only: self.future }
    }
}

} // verus!
