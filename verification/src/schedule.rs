//! Putting a schedule together from the elements of the service's answer.
//!
//! The answer is a list whose first element describes the property and whose
//! other elements are the scheduled events, in order. Whoever decodes the
//! answer tries both shapes on each element; which shape an element must have
//! is decided here, by its position.

use crate::day::{merge_of, merged_days, CollectionDay};
use crate::model::{day_views, BinData, BinDataView, BinDay, BinDayView, BinProperty};
use vstd::prelude::*;

verus! {

/// One element of the answer, decoded in both shapes: each is present where
/// the element has that shape.
#[derive(Debug)]
pub struct Element {
    pub summary: Option<BinData>,
    pub event: Option<BinDay>,
}

/// Why an answer is no schedule.
#[derive(Debug, Clone, Copy, PartialEq, Eq, Structural)]
pub enum DecodeError {
    /// The answer has no element.
    Empty,
    /// The first element does not describe a property.
    Summary,
    /// The element at `index` is no event.
    Event { index: usize },
}

/// A schedule: the property with its weekly days, and the scheduled events.
#[derive(Debug)]
pub struct Schedule {
    pub data: BinData,
    pub days: Vec<BinDay>,
}

/// What a [`Schedule`] holds.
pub struct ScheduleView {
    pub data: BinDataView,
    pub days: Seq<BinDayView>,
}

impl View for Schedule {
    type V = ScheduleView;

    open spec fn view(&self) -> ScheduleView {
        ScheduleView { data: self.data@, days: day_views(self.days@) }
    }
}

/// `data` with the identifier `property_id` on its property.
pub open spec fn stamped(data: BinData, property_id: u64) -> BinData {
    BinData { property: BinProperty { id: Some(property_id), ..data.property }, ..data }
}

/// The position of the first element after the summary that is no event, or
/// the length of `elements` where each is one.
pub open spec fn first_bad_event(elements: Seq<Element>) -> int
    decreases elements.len(),
{
    if elements.len() <= 1 {
        elements.len() as int
    } else {
        let before = first_bad_event(elements.drop_last());
        if before < elements.len() - 1 {
            before
        } else if elements.last().event is None {
            elements.len() - 1
        } else {
            elements.len() as int
        }
    }
}

/// The events of an answer whose elements after the first are all events.
pub open spec fn events_of(elements: Seq<Element>) -> Seq<BinDay> {
    Seq::new((elements.len() - 1) as nat, |i: int| elements[i + 1].event->Some_0)
}

/// What an answer fails on, if it is no schedule: on being empty, then on its
/// first element, then on the first element after it that is no event.
pub open spec fn fault(elements: Seq<Element>) -> Option<DecodeError> {
    if elements.len() == 0 {
        Some(DecodeError::Empty)
    } else if elements[0].summary is None {
        Some(DecodeError::Summary)
    } else if first_bad_event(elements) < elements.len() {
        Some(DecodeError::Event { index: first_bad_event(elements) as usize })
    } else {
        None
    }
}

/// The position that is known element by element is that of the first
/// element that is no event.
pub proof fn lemma_first_bad_event_is(elements: Seq<Element>, k: int)
    requires
        1 <= k <= elements.len(),
        forall|j: int| 1 <= j < k ==> (#[trigger] elements[j]).event is Some,
        k < elements.len() ==> elements[k].event is None,
    ensures
        first_bad_event(elements) == k,
    decreases elements.len(),
{
    if elements.len() > 1 {
        let front = elements.drop_last();
        if k < elements.len() - 1 {
            lemma_first_bad_event_is(front, k);
        } else if front.len() >= 1 {
            lemma_first_bad_event_is(front, front.len() as int);
        }
    }
}

/// The schedule of the property `property_id` that the elements of an answer
/// make: the first as the property, with the identifier put on it, and the
/// others as the events, in their order.
pub fn assemble(property_id: u64, elements: Vec<Element>) -> (r: Result<Schedule, DecodeError>)
    ensures
        match fault(elements@) {
            Some(e) => r == Err::<Schedule, DecodeError>(e),
            None => r is Ok && r->Ok_0.data == stamped(elements@[0].summary->Some_0, property_id)
                && r->Ok_0.days@ == events_of(elements@),
        },
{
    let ghost all = elements@;
    let ghost n = elements@.len() as int;
    let mut elements = elements;
    if elements.len() == 0 {
        return Err(DecodeError::Empty);
    }
    let mut reversed: Vec<BinDay> = Vec::new();
    let mut bad: Option<usize> = None;
    while elements.len() > 1
        invariant
            n == all.len(),
            1 <= elements.len() <= n,
            elements@ == all.take(elements.len() as int),
            match bad {
                Some(b) => elements.len() <= b < n && all[b as int].event is None && forall|j: int|
                    elements.len() <= j < b ==> (#[trigger] all[j]).event is Some,
                None => reversed.len() == n - elements.len() && forall|k: int|
                    0 <= k < reversed.len() ==> Some(#[trigger] reversed[k]) == all[n - 1
                        - k].event,
            },
        decreases elements.len(),
    {
        let index = elements.len() - 1;
        match elements.pop() {
            Some(element) => {
                assert(element == all[index as int]);
                match element.event {
                    Some(day) => {
                        if bad.is_none() {
                            reversed.push(day);
                        }
                    },
                    None => {
                        bad = Some(index);
                    },
                }
            },
            None => {},
        }
    }
    let first = elements.pop();
    let ghost rest = reversed@;
    match first {
        Some(Element { summary: Some(data), event: _ }) => {
            assert(all[0].summary == Some(data));
            match bad {
                Some(b) => {
                    proof {
                        lemma_first_bad_event_is(all, b as int);
                    }
                    Err(DecodeError::Event { index: b })
                },
                None => {
                    proof {
                        assert forall|j: int| 1 <= j < n implies (#[trigger] all[j]).event
                            is Some by {
                            assert(Some(reversed[n - 1 - j]) == all[j].event);
                        }
                        lemma_first_bad_event_is(all, n);
                    }
                    let mut days: Vec<BinDay> = Vec::new();
                    while reversed.len() > 0
                        invariant
                            n == all.len(),
                            rest.len() == n - 1,
                            reversed@ == rest.take(reversed.len() as int),
                            days.len() + reversed.len() == n - 1,
                            days@ == events_of(all).take(days.len() as int),
                            forall|k: int|
                                0 <= k < rest.len() ==> Some(#[trigger] rest[k]) == all[n - 1
                                    - k].event,
                        decreases reversed.len(),
                    {
                        let ghost done = days@;
                        match reversed.pop() {
                            Some(day) => {
                                assert(day == rest[reversed.len() as int]);
                                days.push(day);
                                assert(days@ =~= events_of(all).take(days.len() as int));
                            },
                            None => {},
                        }
                    }
                    assert(days@ =~= events_of(all));
                    let mut data = data;
                    data.property.id = Some(property_id);
                    Ok(Schedule { data, days })
                },
            }
        },
        _ => {
            assert(all[0].summary is None);
            Err(DecodeError::Summary)
        },
    }
}

impl Schedule {
    /// The days of the week on which bins are collected: those of both lists
    /// that the service sends, each once, Sunday first.
    pub fn collection_days(&self) -> (days: Vec<CollectionDay>)
        ensures
            days@ == merge_of(self@.data.dow, self@.data.days_of_week),
    {
        merged_days(&self.data.dow, &self.data.days_of_week)
    }
}

} // verus!
