//! Locations of the lookup service's documents, and the requests for them.

use crate::date::{DateError, ScheduleWindow};
use crate::text::{decimal, from_chars, push_decimal, push_str};
use vstd::prelude::*;
use vstd::string::StringExecFns;

verus! {

/// Root under which every document of the lookup service lives.
pub const BASE_URL: &'static str = "https://brisbane.waste-info.com.au/api/v1/";

/// One parameter of a query.
#[derive(Debug)]
pub struct QueryPair {
    pub key: String,
    pub value: String,
}

/// A document to fetch: its address, and the parameters of the query in the
/// order in which they are sent. The values are plain text; whoever sends the
/// request encodes them.
#[derive(Debug)]
pub struct Request {
    pub url: String,
    pub query: Vec<QueryPair>,
}

/// What a [`Request`] holds.
pub struct RequestView {
    pub url: Seq<char>,
    pub query: Seq<(Seq<char>, Seq<char>)>,
}

impl View for Request {
    type V = RequestView;

    open spec fn view(&self) -> RequestView {
        RequestView {
            url: self.url@,
            query: Seq::new(self.query@.len(), |i: int| (self.query@[i].key@, self.query@[i].value@)),
        }
    }
}

/// The address of `filename` below `base`.
pub open spec fn url_of(base: Seq<char>, filename: Seq<char>) -> Seq<char> {
    base + filename
}

/// The name of the document that holds the schedule of a property.
pub open spec fn schedule_document(property_id: u64) -> Seq<char> {
    "properties/"@ + decimal(property_id as nat) + ".json"@
}

/// The request for all localities.
pub open spec fn localities_request() -> RequestView {
    RequestView { url: url_of(BASE_URL@, "localities.json"@), query: Seq::empty() }
}

/// The request for the streets of the locality `locality_id`.
pub open spec fn streets_request(locality_id: u32) -> RequestView {
    RequestView {
        url: url_of(BASE_URL@, "streets.json"@),
        query: seq![("locality"@, decimal(locality_id as nat))],
    }
}

/// The request for the properties on the street `street_id`.
pub open spec fn properties_request(street_id: u32) -> RequestView {
    RequestView {
        url: url_of(BASE_URL@, "properties.json"@),
        query: seq![("street"@, decimal(street_id as nat))],
    }
}

/// The request for the schedule of the property `property_id` within
/// `window`, or the reason for which a bound of the window cannot be written.
pub open spec fn schedule_request(property_id: u64, window: ScheduleWindow) -> Result<
    RequestView,
    DateError,
> {
    match (window.start.text(), window.end.text()) {
        (Some(start), Some(end)) => Ok(
            RequestView {
                url: url_of(BASE_URL@, schedule_document(property_id)),
                query: seq![("start"@, start), ("end"@, end)],
            },
        ),
        _ => Err(DateError::Unprintable),
    }
}

/// The view of the outcome of making a request.
pub open spec fn request_view(r: Result<Request, DateError>) -> Result<RequestView, DateError> {
    match r {
        Ok(request) => Ok(request@),
        Err(e) => Err(e),
    }
}

/// The address of `filename` below [`BASE_URL`].
pub fn get_url(filename: &str) -> (url: String)
    ensures
        url@ == url_of(BASE_URL@, filename@),
{
    let mut url = String::from_str(BASE_URL);
    url.append(filename);
    url
}

/// The number `n` written in base ten.
pub fn number_text(n: u64) -> (text: String)
    ensures
        text@ == decimal(n as nat),
{
    let mut out: Vec<char> = Vec::new();
    push_decimal(&mut out, n);
    from_chars(&out)
}

impl Request {
    /// The request for all localities.
    pub fn localities() -> (request: Request)
        ensures
            request@ == localities_request(),
    {
        let request = Request { url: get_url("localities.json"), query: Vec::new() };
        assert(request@.query =~= Seq::empty());
        request
    }

    /// The request for the streets of the locality `locality_id`.
    pub fn streets(locality_id: u32) -> (request: Request)
        ensures
            request@ == streets_request(locality_id),
    {
        let mut query: Vec<QueryPair> = Vec::new();
        query.push(
            QueryPair { key: String::from_str("locality"), value: number_text(locality_id as u64) },
        );
        let request = Request { url: get_url("streets.json"), query };
        assert(request@.query =~= streets_request(locality_id).query);
        request
    }

    /// The request for the properties on the street `street_id`.
    pub fn properties(street_id: u32) -> (request: Request)
        ensures
            request@ == properties_request(street_id),
    {
        let mut query: Vec<QueryPair> = Vec::new();
        query.push(
            QueryPair { key: String::from_str("street"), value: number_text(street_id as u64) },
        );
        let request = Request { url: get_url("properties.json"), query };
        assert(request@.query =~= properties_request(street_id).query);
        request
    }

    /// The request for the schedule of the property `property_id` within
    /// `window`.
    pub fn schedule(property_id: u64, window: &ScheduleWindow) -> (r: Result<Request, DateError>)
        ensures
            request_view(r) == schedule_request(property_id, *window),
    {
        let start = match window.start.to_string() {
            Ok(text) => text,
            Err(e) => {
                return Err(e);
            },
        };
        let end = match window.end.to_string() {
            Ok(text) => text,
            Err(e) => {
                return Err(e);
            },
        };
        let mut name: Vec<char> = Vec::new();
        push_str(&mut name, "properties/");
        push_decimal(&mut name, property_id);
        push_str(&mut name, ".json");
        assert(name@ =~= schedule_document(property_id));
        let document = from_chars(&name);
        let mut query: Vec<QueryPair> = Vec::new();
        query.push(QueryPair { key: String::from_str("start"), value: start });
        query.push(QueryPair { key: String::from_str("end"), value: end });
        let request = Request { url: get_url(document.as_str()), query };
        assert(request@.query =~= schedule_request(property_id, *window)->Ok_0.query);
        Ok(request)
    }
}

} // verus!
