//! From an address to a schedule, one document at a time.
//!
//! The lookup narrows in four stages: the locality whose name is the suburb,
//! the street of that locality whose name is the street, the first property
//! on that street whose name holds the address, and the schedule of that
//! property. Fetching is not done here. [`start`] and [`advance`] say which
//! document to fetch next, and what the answer to it leads to.

use crate::address::{parse_address, parsed, AddressData, ParseError};
use crate::cli::Cli;
use crate::date::{
    lemma_previous_month_end, now, schedule_window, window_of, DateError, Moment, MIN_YEAR,
};
use crate::endpoint::{
    localities_request, properties_request, schedule_document, schedule_request, streets_request,
    url_of, Request, BASE_URL,
};
use crate::model::{Locality, Property, Street};
use crate::schedule::{assemble, events_of, fault, stamped, DecodeError, Element, Schedule};
use crate::text::{contains, decimal, from_chars, push_decimal, push_str, same_text, text_contains};
use vstd::prelude::*;

verus! {

/// A stage of the lookup, named by the document that it fetches.
#[derive(Debug, Clone, Copy, PartialEq, Eq, Structural)]
pub enum Stage {
    Localities,
    Streets,
    Properties,
    Schedule,
}

/// Why a lookup ended without a schedule.
#[derive(Debug)]
pub enum Failure {
    /// The text that was typed is no address.
    Input(ParseError),
    /// No locality has the suburb, which is given, as its name.
    SuburbNotFound(String),
    /// No street of the locality has the street, which is given, as its name.
    StreetNotFound(String),
    /// No property on the street holds the address, which is given, in its
    /// name.
    PropertyNotFound(String),
    /// The document of a stage could not be fetched or read; the text says
    /// why.
    Transport(Stage, String),
    /// The answer of the last stage is no schedule.
    Decode(DecodeError),
    /// The window of the schedule query could not be had.
    Window(DateError),
    /// An answer came that was not asked for.
    OutOfTurn,
}

/// Where a lookup stands: which answer it waits for, and what it still needs
/// in order to go on from there.
#[derive(Debug)]
pub enum Lookup {
    Localities(AddressData),
    Streets(AddressData),
    Properties(AddressData),
    Schedule(u64),
    Finished,
}

/// The answer to a request, as far as it could be fetched and decoded.
#[derive(Debug)]
pub enum Reply {
    Localities(Vec<Locality>),
    Streets(Vec<Street>),
    Properties(Vec<Property>),
    Schedule(Vec<Element>),
    /// Fetching or decoding failed; the text says why.
    Failed(String),
}

/// What is to be done next.
#[derive(Debug)]
pub enum Action {
    /// Fetch this document and hand its answer to [`advance`].
    Fetch(Request),
    /// The lookup is over: this is the schedule.
    Show(Schedule),
    /// The lookup is over: it failed.
    Fail(Failure),
}

/// One turn of a lookup: the state that it leads to, and what is to be done.
#[derive(Debug)]
pub struct Turn {
    pub state: Lookup,
    pub action: Action,
}

/// Whether `name` answers the search for `key`: by being `key` (`whole`), or
/// by holding `key` somewhere.
pub open spec fn is_match(name: Seq<char>, key: Seq<char>, whole: bool) -> bool {
    if whole {
        name == key
    } else {
        contains(name, key)
    }
}

/// The position of the first name that answers the search for `key`, or the
/// number of names where none does.
pub open spec fn first_match(names: Seq<Seq<char>>, key: Seq<char>, whole: bool) -> nat
    decreases names.len(),
{
    if names.len() > 0 && !is_match(names[0], key, whole) {
        1 + first_match(names.drop_first(), key, whole)
    } else {
        0
    }
}

/// The names of `list`, in order.
pub open spec fn locality_names(list: Seq<Locality>) -> Seq<Seq<char>> {
    Seq::new(list.len(), |i: int| list[i]@.name)
}

/// The names of `list`, in order.
pub open spec fn street_names(list: Seq<Street>) -> Seq<Seq<char>> {
    Seq::new(list.len(), |i: int| list[i]@.name)
}

/// The names of `list`, in order.
pub open spec fn property_names(list: Seq<Property>) -> Seq<Seq<char>> {
    Seq::new(list.len(), |i: int| list[i]@.name)
}

/// A first match that is known name by name is at `k`.
pub proof fn lemma_first_match_is(names: Seq<Seq<char>>, key: Seq<char>, whole: bool, k: int)
    requires
        0 <= k <= names.len(),
        forall|j: int| 0 <= j < k ==> !is_match(#[trigger] names[j], key, whole),
        k < names.len() ==> is_match(names[k], key, whole),
    ensures
        first_match(names, key, whole) == k,
    decreases k,
{
    if k > 0 {
        let rest = names.drop_first();
        assert forall|j: int| 0 <= j < k - 1 implies !is_match(#[trigger] rest[j], key, whole) by {
            assert(rest[j] == names[j + 1]);
        }
        lemma_first_match_is(rest, key, whole, k - 1);
    }
}

/// The first match is a match, and no name before it is one.
pub proof fn lemma_first_match(names: Seq<Seq<char>>, key: Seq<char>, whole: bool)
    ensures
        first_match(names, key, whole) <= names.len(),
        first_match(names, key, whole) < names.len() ==> is_match(
            names[first_match(names, key, whole) as int],
            key,
            whole,
        ),
        forall|j: int|
            0 <= j < first_match(names, key, whole) ==> !is_match(#[trigger] names[j], key, whole),
    decreases names.len(),
{
    if names.len() > 0 && !is_match(names[0], key, whole) {
        let rest = names.drop_first();
        lemma_first_match(rest, key, whole);
        assert forall|j: int| 0 <= j < first_match(names, key, whole) implies !is_match(
            #[trigger] names[j],
            key,
            whole,
        ) by {
            if j > 0 {
                assert(names[j] == rest[j - 1]);
            }
        }
    }
}

/// Where a name answers the search, the first match is that name or one
/// before it: a search fails only where no name answers it.
pub proof fn lemma_a_match_is_found(names: Seq<Seq<char>>, key: Seq<char>, whole: bool, i: int)
    requires
        0 <= i < names.len(),
        is_match(names[i], key, whole),
    ensures
        first_match(names, key, whole) <= i,
{
    lemma_first_match(names, key, whole);
}

/// The first locality whose name is `suburb`.
pub fn resolve_locality<'a>(localities: &'a Vec<Locality>, suburb: &str) -> (r: Result<
    &'a Locality,
    Failure,
>)
    ensures
        match r {
            Ok(found) => {
                let i = first_match(locality_names(localities@), suburb@, true);
                i < localities.len() && *found == localities@[i as int]
            },
            Err(f) => {
                &&& first_match(locality_names(localities@), suburb@, true) == localities.len()
                &&& f matches Failure::SuburbNotFound(key)
                &&& key@ == suburb@
            },
        },
{
    let mut i: usize = 0;
    while i < localities.len()
        invariant
            i <= localities.len(),
            forall|j: int|
                0 <= j < i ==> !is_match(#[trigger] locality_names(localities@)[j], suburb@, true),
        decreases localities.len() - i,
    {
        if same_text(localities[i].name.as_str(), suburb) {
            proof {
                lemma_first_match_is(locality_names(localities@), suburb@, true, i as int);
            }
            return Ok(&localities[i]);
        }
        i += 1;
    }
    proof {
        lemma_first_match_is(locality_names(localities@), suburb@, true, i as int);
    }
    Err(Failure::SuburbNotFound(suburb.to_owned()))
}

/// The first street whose name is `street`.
pub fn resolve_street<'a>(streets: &'a Vec<Street>, street: &str) -> (r: Result<
    &'a Street,
    Failure,
>)
    ensures
        match r {
            Ok(found) => {
                let i = first_match(street_names(streets@), street@, true);
                i < streets.len() && *found == streets@[i as int]
            },
            Err(f) => {
                &&& first_match(street_names(streets@), street@, true) == streets.len()
                &&& f matches Failure::StreetNotFound(key)
                &&& key@ == street@
            },
        },
{
    let mut i: usize = 0;
    while i < streets.len()
        invariant
            i <= streets.len(),
            forall|j: int|
                0 <= j < i ==> !is_match(#[trigger] street_names(streets@)[j], street@, true),
        decreases streets.len() - i,
    {
        if same_text(streets[i].name.as_str(), street) {
            proof {
                lemma_first_match_is(street_names(streets@), street@, true, i as int);
            }
            return Ok(&streets[i]);
        }
        i += 1;
    }
    proof {
        lemma_first_match_is(street_names(streets@), street@, true, i as int);
    }
    Err(Failure::StreetNotFound(street.to_owned()))
}

/// The first property whose name holds `address`.
pub fn resolve_property<'a>(properties: &'a Vec<Property>, address: &str) -> (r: Result<
    &'a Property,
    Failure,
>)
    ensures
        match r {
            Ok(found) => {
                let i = first_match(property_names(properties@), address@, false);
                i < properties.len() && *found == properties@[i as int]
            },
            Err(f) => {
                &&& first_match(property_names(properties@), address@, false) == properties.len()
                &&& f matches Failure::PropertyNotFound(key)
                &&& key@ == address@
            },
        },
{
    let mut i: usize = 0;
    while i < properties.len()
        invariant
            i <= properties.len(),
            forall|j: int|
                0 <= j < i ==> !is_match(
                    #[trigger] property_names(properties@)[j],
                    address@,
                    false,
                ),
        decreases properties.len() - i,
    {
        if text_contains(properties[i].name.as_str(), address) {
            proof {
                lemma_first_match_is(property_names(properties@), address@, false, i as int);
            }
            return Ok(&properties[i]);
        }
        i += 1;
    }
    proof {
        lemma_first_match_is(property_names(properties@), address@, false, i as int);
    }
    Err(Failure::PropertyNotFound(address.to_owned()))
}

impl Lookup {
    /// The stage whose answer the lookup waits for.
    pub open spec fn stage(self) -> Option<Stage> {
        match self {
            Lookup::Localities(_) => Some(Stage::Localities),
            Lookup::Streets(_) => Some(Stage::Streets),
            Lookup::Properties(_) => Some(Stage::Properties),
            Lookup::Schedule(_) => Some(Stage::Schedule),
            Lookup::Finished => None,
        }
    }

    /// The stage whose answer the lookup waits for.
    pub fn waits_for(&self) -> (stage: Option<Stage>)
        ensures
            stage == self.stage(),
    {
        match self {
            Lookup::Localities(_) => Some(Stage::Localities),
            Lookup::Streets(_) => Some(Stage::Streets),
            Lookup::Properties(_) => Some(Stage::Properties),
            Lookup::Schedule(_) => Some(Stage::Schedule),
            Lookup::Finished => None,
        }
    }
}

impl Turn {
    /// Whether this turn ends the lookup with a failure.
    pub open spec fn is_failure(self) -> bool {
        self.state is Finished && self.action is Fail
    }

    /// The failure that this turn ends the lookup with.
    pub open spec fn failure(self) -> Failure {
        self.action->Fail_0
    }
}

/// Whether `turn` asks for the schedule of the property `property_id` at the
/// moment `now`, or fails because the window of the query cannot be had.
pub open spec fn asks_for_schedule(property_id: u64, now: Moment, turn: Turn) -> bool {
    match window_of(now) {
        Err(e) => turn.is_failure() && turn.failure() == Failure::Window(e),
        Ok(window) => match schedule_request(property_id, window) {
            Err(e) => turn.is_failure() && turn.failure() == Failure::Window(e),
            Ok(request) => {
                &&& turn.state == Lookup::Schedule(property_id)
                &&& turn.action matches Action::Fetch(r)
                &&& r@ == request
            },
        },
    }
}

/// At any moment but one in the first month that can be represented, the
/// schedule is asked for: from 14:00:00 on the last day of the month before
/// to the moment's time of day on the last day of its month.
pub proof fn lemma_schedule_is_asked_for(property_id: u64, now: Moment, turn: Turn)
    requires
        now.is_valid(),
        !(now.date.year == MIN_YEAR && now.date.month == 1),
        asks_for_schedule(property_id, now, turn),
    ensures
        turn.state == Lookup::Schedule(property_id),
        turn.action is Fetch,
        turn.action->Fetch_0@.url == url_of(BASE_URL@, schedule_document(property_id)),
        turn.action->Fetch_0@.query == seq![
            (
                "start"@,
                (Moment {
                    date: now.date.previous_month_end(),
                    hour: 14,
                    minute: 0,
                    second: 0,
                }).timestamp(),
            ),
            (
                "end"@,
                (Moment {
                    date: now.date.month_end(),
                    hour: now.hour,
                    minute: now.minute,
                    second: now.second,
                }).timestamp(),
            ),
        ],
{
    lemma_previous_month_end(now.date);
}

/// Whether `turn` is the first turn of a lookup for what was typed: with a
/// property identifier, the schedule is asked for at once; without it, the
/// address is parsed and the localities are asked for.
pub open spec fn begins(cli: Cli, now: Moment, turn: Turn) -> bool {
    match cli.property_id {
        Some(id) => asks_for_schedule(id, now, turn),
        None => match cli.address {
            None => turn.is_failure() && turn.failure() == Failure::Input(
                ParseError::MissingAddress,
            ),
            Some(text) => match parsed(text@) {
                Err(e) => turn.is_failure() && turn.failure() == Failure::Input(e),
                Ok(address) => {
                    &&& turn.state matches Lookup::Localities(a)
                    &&& a@ == address
                    &&& turn.action matches Action::Fetch(r)
                    &&& r@ == localities_request()
                },
            },
        },
    }
}

/// Whether `turn` follows the answer `list` to the request for localities.
pub open spec fn follows_localities(address: AddressData, list: Seq<Locality>, turn: Turn) -> bool {
    let i = first_match(locality_names(list), address.suburb@, true);
    if i < list.len() {
        &&& turn.state == Lookup::Streets(address)
        &&& turn.action matches Action::Fetch(r)
        &&& r@ == streets_request(list[i as int].id)
    } else {
        &&& turn.is_failure()
        &&& turn.failure() matches Failure::SuburbNotFound(key)
        &&& key@ == address.suburb@
    }
}

/// Whether `turn` follows the answer `list` to the request for streets.
pub open spec fn follows_streets(address: AddressData, list: Seq<Street>, turn: Turn) -> bool {
    let i = first_match(street_names(list), address.street@, true);
    if i < list.len() {
        &&& turn.state == Lookup::Properties(address)
        &&& turn.action matches Action::Fetch(r)
        &&& r@ == properties_request(list[i as int].id)
    } else {
        &&& turn.is_failure()
        &&& turn.failure() matches Failure::StreetNotFound(key)
        &&& key@ == address.street@
    }
}

/// Whether `turn` follows the answer `list` to the request for properties.
pub open spec fn follows_properties(
    address: AddressData,
    list: Seq<Property>,
    now: Moment,
    turn: Turn,
) -> bool {
    let i = first_match(property_names(list), address.address@, false);
    if i < list.len() {
        asks_for_schedule(list[i as int].id, now, turn)
    } else {
        &&& turn.is_failure()
        &&& turn.failure() matches Failure::PropertyNotFound(key)
        &&& key@ == address.address@
    }
}

/// Whether `turn` follows the answer `elements` to the request for the
/// schedule of the property `property_id`.
pub open spec fn follows_schedule(property_id: u64, elements: Seq<Element>, turn: Turn) -> bool {
    match fault(elements) {
        Some(e) => turn.is_failure() && turn.failure() == Failure::Decode(e),
        None => {
            &&& turn.state is Finished
            &&& turn.action matches Action::Show(schedule)
            &&& schedule.data == stamped(elements[0].summary->Some_0, property_id)
            &&& schedule.days@ == events_of(elements)
        },
    }
}

/// Whether `turn` follows the answer `reply` in the state `state`, at the
/// moment `now`.
///
/// A failure to fetch ends the lookup with the stage and the reason. The
/// answer that was asked for leads to the next stage, or to the failure of
/// this one. Any other answer, and any answer after the end, is out of turn.
pub open spec fn follows(state: Lookup, reply: Reply, now: Moment, turn: Turn) -> bool {
    match (state, reply) {
        (Lookup::Finished, _) => turn.is_failure() && turn.failure() == Failure::OutOfTurn,
        (_, Reply::Failed(reason)) => turn.is_failure() && turn.failure() == Failure::Transport(
            state.stage()->Some_0,
            reason,
        ),
        (Lookup::Localities(address), Reply::Localities(list)) => follows_localities(
            address,
            list@,
            turn,
        ),
        (Lookup::Streets(address), Reply::Streets(list)) => follows_streets(address, list@, turn),
        (Lookup::Properties(address), Reply::Properties(list)) => follows_properties(
            address,
            list@,
            now,
            turn,
        ),
        (Lookup::Schedule(property_id), Reply::Schedule(elements)) => follows_schedule(
            property_id,
            elements@,
            turn,
        ),
        _ => turn.is_failure() && turn.failure() == Failure::OutOfTurn,
    }
}

/// The turn that ends a lookup with `failure`.
fn fail(failure: Failure) -> (turn: Turn)
    ensures
        turn.is_failure(),
        turn.failure() == failure,
{
    Turn { state: Lookup::Finished, action: Action::Fail(failure) }
}

/// The turn that asks for the schedule of the property `property_id`.
fn ask_for_schedule(property_id: u64, now: &Moment) -> (turn: Turn)
    ensures
        asks_for_schedule(property_id, *now, turn),
{
    match schedule_window(now) {
        Err(e) => fail(Failure::Window(e)),
        Ok(window) => match Request::schedule(property_id, &window) {
            Err(e) => fail(Failure::Window(e)),
            Ok(request) => Turn {
                state: Lookup::Schedule(property_id),
                action: Action::Fetch(request),
            },
        },
    }
}

/// The first turn of a lookup for what was typed, at the moment `now`.
pub fn start(cli: &Cli, now: &Moment) -> (turn: Turn)
    ensures
        begins(*cli, *now, turn),
{
    match cli.property_id {
        Some(id) => ask_for_schedule(id, now),
        None => match &cli.address {
            None => fail(Failure::Input(ParseError::MissingAddress)),
            Some(text) => match parse_address(text.as_str()) {
                Err(e) => fail(Failure::Input(e)),
                Ok(address) => Turn {
                    state: Lookup::Localities(address),
                    action: Action::Fetch(Request::localities()),
                },
            },
        },
    }
}

/// The turn that follows the answer `reply` in the state `state`, at the
/// moment `now`.
pub fn advance(state: Lookup, reply: Reply, now: &Moment) -> (turn: Turn)
    ensures
        follows(state, reply, *now, turn),
{
    let waited = state.waits_for();
    match (state, reply) {
        (Lookup::Finished, _) => fail(Failure::OutOfTurn),
        (_, Reply::Failed(reason)) => match waited {
            Some(stage) => fail(Failure::Transport(stage, reason)),
            None => fail(Failure::OutOfTurn),
        },
        (Lookup::Localities(address), Reply::Localities(list)) => {
            match resolve_locality(&list, address.suburb.as_str()) {
                Ok(found) => {
                    let request = Request::streets(found.id);
                    Turn { state: Lookup::Streets(address), action: Action::Fetch(request) }
                },
                Err(f) => fail(f),
            }
        },
        (Lookup::Streets(address), Reply::Streets(list)) => {
            match resolve_street(&list, address.street.as_str()) {
                Ok(found) => {
                    let request = Request::properties(found.id);
                    Turn { state: Lookup::Properties(address), action: Action::Fetch(request) }
                },
                Err(f) => fail(f),
            }
        },
        (Lookup::Properties(address), Reply::Properties(list)) => {
            match resolve_property(&list, address.address.as_str()) {
                Ok(found) => ask_for_schedule(found.id, now),
                Err(f) => fail(f),
            }
        },
        (Lookup::Schedule(property_id), Reply::Schedule(elements)) => {
            match assemble(property_id, elements) {
                Ok(schedule) => Turn { state: Lookup::Finished, action: Action::Show(schedule) },
                Err(e) => fail(Failure::Decode(e)),
            }
        },
        _ => fail(Failure::OutOfTurn),
    }
}

/// The first turn of a lookup for what was typed, at the moment that the
/// clock shows.
pub fn start_now(cli: &Cli) -> (turn: Turn)
    ensures
        exists|moment: Moment| moment.is_valid() && #[trigger] begins(*cli, moment, turn),
{
    let moment = now();
    start(cli, &moment)
}

/// The turn that follows the answer `reply` in the state `state`, at the
/// moment that the clock shows.
pub fn advance_now(state: Lookup, reply: Reply) -> (turn: Turn)
    ensures
        exists|moment: Moment| moment.is_valid() && #[trigger] follows(state, reply, moment, turn),
{
    let moment = now();
    advance(state, reply, &moment)
}

/// What is said of a failure to fetch at `stage`, before the reason.
pub open spec fn stage_prefix(stage: Stage) -> Seq<char> {
    match stage {
        Stage::Localities => "Failed to query localities: "@,
        Stage::Streets => "Failed to query streets: "@,
        Stage::Properties => "Failed to query properties: "@,
        Stage::Schedule => "Failed to query bin data for property: "@,
    }
}

impl Failure {
    /// The sentence shown to the person who asked: it names the stage that
    /// failed and what was searched for.
    pub open spec fn message(self) -> Seq<char> {
        match self {
            Failure::Input(e) => e.message(),
            Failure::SuburbNotFound(key) => "Suburb "@ + key@ + " not found"@,
            Failure::StreetNotFound(key) => "Street '"@ + key@ + "' not found"@,
            Failure::PropertyNotFound(key) => "Property "@ + key@ + " not found"@,
            Failure::Transport(stage, reason) => stage_prefix(stage) + reason@,
            Failure::Decode(DecodeError::Empty) => "Failed to find the first result, which should be a property!"@,
            Failure::Decode(DecodeError::Summary) => "Failed to parse property data!"@,
            Failure::Decode(DecodeError::Event { index }) => "Failed to parse a bin day! Element "@
                + decimal(index as nat),
            Failure::Window(DateError::Unprintable) => "Failed to string-format the dates of the query!"@,
            Failure::Window(_) => "Failed to calculate the dates of the query!"@,
            Failure::OutOfTurn => "An answer came that was not asked for"@,
        }
    }

    /// The sentence shown to the person who asked.
    pub fn describe(&self) -> (text: String)
        ensures
            text@ == self.message(),
    {
        let mut out: Vec<char> = Vec::new();
        match self {
            Failure::Input(e) => {
                return e.describe();
            },
            Failure::SuburbNotFound(key) => {
                push_str(&mut out, "Suburb ");
                push_str(&mut out, key.as_str());
                push_str(&mut out, " not found");
            },
            Failure::StreetNotFound(key) => {
                push_str(&mut out, "Street '");
                push_str(&mut out, key.as_str());
                push_str(&mut out, "' not found");
            },
            Failure::PropertyNotFound(key) => {
                push_str(&mut out, "Property ");
                push_str(&mut out, key.as_str());
                push_str(&mut out, " not found");
            },
            Failure::Transport(stage, reason) => {
                match stage {
                    Stage::Localities => push_str(&mut out, "Failed to query localities: "),
                    Stage::Streets => push_str(&mut out, "Failed to query streets: "),
                    Stage::Properties => push_str(&mut out, "Failed to query properties: "),
                    Stage::Schedule => push_str(
                        &mut out,
                        "Failed to query bin data for property: ",
                    ),
                }
                push_str(&mut out, reason.as_str());
            },
            Failure::Decode(DecodeError::Empty) => {
                push_str(&mut out, "Failed to find the first result, which should be a property!");
            },
            Failure::Decode(DecodeError::Summary) => {
                push_str(&mut out, "Failed to parse property data!");
            },
            Failure::Decode(DecodeError::Event { index }) => {
                push_str(&mut out, "Failed to parse a bin day! Element ");
                push_decimal(&mut out, *index as u64);
            },
            Failure::Window(DateError::Unprintable) => {
                push_str(&mut out, "Failed to string-format the dates of the query!");
            },
            Failure::Window(_) => {
                push_str(&mut out, "Failed to calculate the dates of the query!");
            },
            Failure::OutOfTurn => {
                push_str(&mut out, "An answer came that was not asked for");
            },
        }
        proof {
            assert(out@ =~= self.message());
        }
        from_chars(&out)
    }
}

} // verus!
