//! The three ways of showing a schedule: the events as a report, the
//! collection days as a list, and the whole as structured text.

use crate::date::{date_of, today, CalendarDate};
use crate::day::{merge_of, CollectionDay};
use crate::json::{schedule_json, to_json};
use crate::model::{day_views, BinDay, BinDayView};
use crate::schedule::{Schedule, ScheduleView};
use crate::text::{from_chars, push_str};
use vstd::prelude::*;
use vstd::string::StringExecFns;

verus! {

/// A way of showing a schedule.
#[derive(Debug, Clone, Copy, PartialEq, Eq, Structural)]
pub enum RenderMode {
    /// The whole schedule as structured text.
    Raw,
    /// The property and its events, for reading.
    Report,
    /// The collection days alone.
    DayList,
}

/// What a report leaves out.
#[derive(Debug, Clone, Copy, PartialEq, Eq, Structural)]
pub struct RenderOptions {
    /// Whether events before today, and events without a date, are left out.
    pub future_only: bool,
}

/// The date of an event, where its text holds one.
pub open spec fn event_date(day: BinDayView) -> Option<CalendarDate> {
    match date_of(day.start) {
        Ok(d) => Some(d),
        Err(_) => None,
    }
}

/// The dates of `days`, in order.
pub open spec fn event_dates(days: Seq<BinDayView>) -> Seq<Option<CalendarDate>> {
    Seq::new(days.len(), |i: int| event_date(days[i]))
}

/// Whether an event with the date `date` is shown: always, unless only
/// future events are wanted; then only with a date that is not before
/// `today`.
pub open spec fn is_shown(date: Option<CalendarDate>, today: CalendarDate, future_only: bool) -> bool {
    !future_only || (date matches Some(d) && d.rank() >= today.rank())
}

/// What an event with the date `date` is sorted by: its date, or `today`
/// where it has none.
pub open spec fn sort_key(date: Option<CalendarDate>, today: CalendarDate) -> int {
    match date {
        Some(d) => d.rank(),
        None => today.rank(),
    }
}

/// Whether the event at `i` stands before the event at `j` in a report: its
/// key is smaller, or the keys are equal and it came first.
pub open spec fn comes_before(
    dates: Seq<Option<CalendarDate>>,
    today: CalendarDate,
    i: int,
    j: int,
) -> bool {
    sort_key(dates[i], today) < sort_key(dates[j], today) || (sort_key(dates[i], today)
        == sort_key(dates[j], today) && i < j)
}

/// Whether each position of `order` stands before those after it.
pub open spec fn is_sorted(
    order: Seq<usize>,
    dates: Seq<Option<CalendarDate>>,
    today: CalendarDate,
) -> bool {
    forall|a: int, b: int|
        0 <= a < b < order.len() ==> comes_before(dates, today, order[a] as int, order[b] as int)
}

/// Whether `order` lists the positions of the events that a report shows, in
/// the order in which it shows them.
pub open spec fn is_report_order(
    order: Seq<usize>,
    dates: Seq<Option<CalendarDate>>,
    today: CalendarDate,
    future_only: bool,
) -> bool {
    &&& forall|k: int|
        0 <= k < order.len() ==> (#[trigger] order[k]) < dates.len() && is_shown(
            dates[order[k] as int],
            today,
            future_only,
        )
    &&& forall|j: usize|
        j < dates.len() && is_shown(dates[j as int], today, future_only) ==> #[trigger] order.contains(
            j,
        )
    &&& is_sorted(order, dates, today)
}

/// The positions of the events that a report shows, in the order in which it
/// shows them.
pub open spec fn report_order_of(
    dates: Seq<Option<CalendarDate>>,
    today: CalendarDate,
    future_only: bool,
) -> Seq<usize> {
    choose|order: Seq<usize>| is_report_order(order, dates, today, future_only)
}

/// Two sorted lists that hold the same positions are one list.
pub proof fn lemma_sorted_is_unique(
    x: Seq<usize>,
    y: Seq<usize>,
    dates: Seq<Option<CalendarDate>>,
    today: CalendarDate,
)
    requires
        is_sorted(x, dates, today),
        is_sorted(y, dates, today),
        forall|i: usize| x.contains(i) <==> y.contains(i),
    ensures
        x == y,
    decreases x.len() + y.len(),
{
    if x.len() == 0 {
        if y.len() > 0 {
            assert(y.contains(y[0]));
        }
        assert(x =~= y);
    } else if y.len() == 0 {
        assert(x.contains(x[0]));
    } else {
        let a = x.last();
        let b = y.last();
        assert(x.contains(a));
        assert(y.contains(b));
        let i = choose|i: int| 0 <= i < y.len() && y[i] == a;
        let j = choose|j: int| 0 <= j < x.len() && x[j] == b;
        assert(a == b) by {
            if i < y.len() - 1 {
                assert(comes_before(dates, today, y[i] as int, y[y.len() - 1] as int));
            }
            if j < x.len() - 1 {
                assert(comes_before(dates, today, x[j] as int, x[x.len() - 1] as int));
            }
        }
        let xs = x.drop_last();
        let ys = y.drop_last();
        assert forall|d: usize| xs.contains(d) <==> ys.contains(d) by {
            if xs.contains(d) {
                let k = choose|k: int| 0 <= k < xs.len() && xs[k] == d;
                assert(x[k] == d);
                assert(x.contains(d));
                assert(comes_before(dates, today, x[k] as int, x[x.len() - 1] as int));
                let m = choose|m: int| 0 <= m < y.len() && y[m] == d;
                assert(m < y.len() - 1);
                assert(ys[m] == d);
            }
            if ys.contains(d) {
                let k = choose|k: int| 0 <= k < ys.len() && ys[k] == d;
                assert(y[k] == d);
                assert(y.contains(d));
                assert(comes_before(dates, today, y[k] as int, y[y.len() - 1] as int));
                let m = choose|m: int| 0 <= m < x.len() && x[m] == d;
                assert(m < x.len() - 1);
                assert(xs[m] == d);
            }
        }
        assert(is_sorted(xs, dates, today)) by {
            assert forall|p: int, q: int| 0 <= p < q < xs.len() implies comes_before(
                dates,
                today,
                xs[p] as int,
                xs[q] as int,
            ) by {
                assert(comes_before(dates, today, x[p] as int, x[q] as int));
            }
        }
        assert(is_sorted(ys, dates, today)) by {
            assert forall|p: int, q: int| 0 <= p < q < ys.len() implies comes_before(
                dates,
                today,
                ys[p] as int,
                ys[q] as int,
            ) by {
                assert(comes_before(dates, today, y[p] as int, y[q] as int));
            }
        }
        lemma_sorted_is_unique(xs, ys, dates, today);
        assert(x =~= xs.push(a));
        assert(y =~= ys.push(b));
    }
}

/// There is one order in which a report shows its events.
pub proof fn lemma_report_order_is_unique(
    order: Seq<usize>,
    dates: Seq<Option<CalendarDate>>,
    today: CalendarDate,
    future_only: bool,
)
    requires
        is_report_order(order, dates, today, future_only),
    ensures
        order == report_order_of(dates, today, future_only),
{
    let other = report_order_of(dates, today, future_only);
    assert forall|i: usize| order.contains(i) <==> other.contains(i) by {
        if order.contains(i) {
            let k = choose|k: int| 0 <= k < order.len() && order[k] == i;
            assert(is_shown(dates[order[k] as int], today, future_only));
            assert(is_shown(dates[i as int], today, future_only));
        }
        if other.contains(i) {
            let k = choose|k: int| 0 <= k < other.len() && other[k] == i;
            assert(is_shown(dates[other[k] as int], today, future_only));
            assert(is_shown(dates[i as int], today, future_only));
        }
    }
    lemma_sorted_is_unique(order, other, dates, today);
}

/// In the order of a report the dates never go back, an event without a date
/// standing where today's events stand. A report of future events lists the
/// events with a date that is not before today, and no others.
pub proof fn lemma_report_order_shows(
    order: Seq<usize>,
    dates: Seq<Option<CalendarDate>>,
    today: CalendarDate,
    future_only: bool,
)
    requires
        is_report_order(order, dates, today, future_only),
        dates.len() <= usize::MAX,
    ensures
        forall|a: int, b: int|
            0 <= a <= b < order.len() ==> sort_key(dates[order[a] as int], today) <= sort_key(
                dates[order[b] as int],
                today,
            ),
        forall|a: int, b: int| 0 <= a < b < order.len() ==> order[a] != order[b],
        future_only ==> forall|i: usize|
            i < dates.len() ==> (#[trigger] order.contains(i) <==> dates[i as int] is Some
                && dates[i as int]->Some_0.rank() >= today.rank()),
        !future_only ==> order.len() == dates.len(),
{
    assert forall|a: int, b: int| 0 <= a <= b < order.len() implies sort_key(
        dates[order[a] as int],
        today,
    ) <= sort_key(dates[order[b] as int], today) by {
        if a < b {
            assert(comes_before(dates, today, order[a] as int, order[b] as int));
        }
    }
    assert forall|a: int, b: int| 0 <= a < b < order.len() implies order[a] != order[b] by {
        assert(comes_before(dates, today, order[a] as int, order[b] as int));
    }
    if future_only {
        assert forall|i: usize| i < dates.len() implies (#[trigger] order.contains(i)
            <==> dates[i as int] is Some && dates[i as int]->Some_0.rank() >= today.rank()) by {
            if order.contains(i) {
                let k = choose|k: int| 0 <= k < order.len() && order[k] == i;
                assert(is_shown(dates[order[k] as int], today, future_only));
            }
        }
    } else {
        assert forall|j: usize| j < dates.len() implies order.contains(j) by {
            assert(is_shown(dates[j as int], today, future_only));
        }
        lemma_listing_is_whole(order, dates.len());
    }
}

/// A list without repeats that holds each of the first `n` positions, and
/// nothing else, has `n` items.
pub proof fn lemma_listing_is_whole(order: Seq<usize>, n: nat)
    requires
        forall|k: int| 0 <= k < order.len() ==> (#[trigger] order[k]) < n,
        forall|j: usize| j < n ==> order.contains(j),
        forall|a: int, b: int| 0 <= a < b < order.len() ==> order[a] != order[b],
        n <= usize::MAX,
    ensures
        order.len() == n,
    decreases n,
{
    if n == 0 {
        if order.len() > 0 {
            assert(order[0] < n);
        }
    } else {
        let last = (n - 1) as usize;
        assert(order.contains(last));
        let p = choose|p: int| 0 <= p < order.len() && order[p] == last;
        let rest = order.remove(p);
        assert forall|k: int| 0 <= k < rest.len() implies (#[trigger] rest[k]) < n - 1 by {
            let k0 = if k < p {
                k
            } else {
                k + 1
            };
            assert(rest[k] == order[k0]);
            assert(order[k0] < n);
            assert(order[k0] != order[p]);
        }
        assert forall|j: usize| j < n - 1 implies rest.contains(j) by {
            assert(order.contains(j));
            let q = choose|q: int| 0 <= q < order.len() && order[q] == j;
            let q0 = if q < p {
                q
            } else {
                q - 1
            };
            assert(rest[q0] == j);
        }
        assert forall|a: int, b: int| 0 <= a < b < rest.len() implies rest[a] != rest[b] by {
            let a0 = if a < p {
                a
            } else {
                a + 1
            };
            let b0 = if b < p {
                b
            } else {
                b + 1
            };
            assert(rest[a] == order[a0]);
            assert(rest[b] == order[b0]);
        }
        lemma_listing_is_whole(rest, (n - 1) as nat);
    }
}

/// Whether an event with the date `date` is shown.
fn shows(date: &Option<CalendarDate>, today: &CalendarDate, future_only: bool) -> (b: bool)
    ensures
        b == is_shown(*date, *today, future_only),
{
    if !future_only {
        return true;
    }
    match date {
        Some(d) => !d.is_before(today),
        None => false,
    }
}

/// The date that an event with the date `date` is sorted by.
fn key_of(date: &Option<CalendarDate>, today: &CalendarDate) -> (key: CalendarDate)
    ensures
        key.rank() == sort_key(*date, *today),
{
    match date {
        Some(d) => *d,
        None => *today,
    }
}

/// The positions of the events that a report shows, in the order in which it
/// shows them: by date, an event without a date as if it were of `today`,
/// and events of one date in the order in which they came. Where only future
/// events are wanted, those before `today` and those without a date are left
/// out.
pub fn report_order(dates: &Vec<Option<CalendarDate>>, today: &CalendarDate, future_only: bool) -> (order:
    Vec<usize>)
    ensures
        is_report_order(order@, dates@, *today, future_only),
        order@ == report_order_of(dates@, *today, future_only),
{
    let mut order: Vec<usize> = Vec::new();
    let mut i: usize = 0;
    while i < dates.len()
        invariant
            i <= dates.len(),
            forall|k: int|
                0 <= k < order.len() ==> (#[trigger] order[k]) < i && is_shown(
                    dates[order[k] as int],
                    *today,
                    future_only,
                ),
            forall|j: usize|
                j < i && is_shown(dates[j as int], *today, future_only) ==> #[trigger] order@.contains(
                    j,
                ),
            is_sorted(order@, dates@, *today),
        decreases dates.len() - i,
    {
        if shows(&dates[i], today, future_only) {
            let key = key_of(&dates[i], today);
            let mut p: usize = order.len();
            while p > 0 && key.is_before(&key_of(&dates[order[p - 1]], today))
                invariant
                    p <= order.len(),
                    i < dates.len(),
                    forall|k: int| 0 <= k < order.len() ==> (#[trigger] order[k]) < i,
                    key.rank() == sort_key(dates[i as int], *today),
                    forall|k: int|
                        p <= k < order.len() ==> sort_key(dates[i as int], *today) < sort_key(
                            dates[(#[trigger] order[k]) as int],
                            *today,
                        ),
                decreases p,
            {
                p -= 1;
            }
            let ghost before = order@;
            order.insert(p, i);
            proof {
                before.insert_ensures(p as int, i);
                assert forall|a: int, b: int| 0 <= a < b < order.len() implies comes_before(
                    dates@,
                    *today,
                    order[a] as int,
                    order[b] as int,
                ) by {
                    if b == p {
                        assert(order[a] == before[a]);
                        assert(before[a] < i);
                        if a < p - 1 {
                            assert(comes_before(
                                dates@,
                                *today,
                                before[a] as int,
                                before[p - 1] as int,
                            ));
                        }
                    } else if a == p {
                        assert(order[b] == before[b - 1]);
                    } else {
                        let a0 = if a < p {
                            a
                        } else {
                            a - 1
                        };
                        let b0 = if b < p {
                            b
                        } else {
                            b - 1
                        };
                        assert(order[a] == before[a0]);
                        assert(order[b] == before[b0]);
                        assert(comes_before(dates@, *today, before[a0] as int, before[b0] as int));
                    }
                }
                assert forall|j: usize|
                    j < i + 1 && is_shown(
                        dates[j as int],
                        *today,
                        future_only,
                    ) implies #[trigger] order@.contains(j) by {
                    if j == i {
                        assert(order@[p as int] == i);
                    } else {
                        assert(before.contains(j));
                        let k = choose|k: int| 0 <= k < before.len() && before[k] == j;
                        let k2 = if k < p {
                            k
                        } else {
                            k + 1
                        };
                        assert(order@[k2] == j);
                    }
                }
                assert forall|k: int| 0 <= k < order.len() implies (#[trigger] order[k]) < i + 1
                    && is_shown(dates[order[k] as int], *today, future_only) by {
                    if k < p {
                        assert(order[k] == before[k]);
                    } else if k > p {
                        assert(order[k] == before[k - 1]);
                    }
                }
            }
        }
        i += 1;
    }
    proof {
        lemma_report_order_is_unique(order@, dates@, *today, future_only);
    }
    order
}

/// The line of a report that shows one event.
pub open spec fn event_line(day: BinDayView) -> Seq<char> {
    "- "@ + day.text() + "\n"@
}

/// The lines of a report that show the events at the positions `order`.
pub open spec fn report_lines(days: Seq<BinDayView>, order: Seq<usize>) -> Seq<char>
    decreases order.len(),
{
    if order.len() == 0 {
        Seq::empty()
    } else {
        report_lines(days, order.drop_last()) + event_line(days[order.last() as int])
    }
}

/// The report on a schedule: the block that shows the property, an empty
/// line, and a line for each event that is shown, in date order.
pub open spec fn report_text(schedule: ScheduleView, today: CalendarDate, future_only: bool) -> Seq<
    char,
> {
    schedule.data.property.text() + "\n"@ + report_lines(
        schedule.days,
        report_order_of(event_dates(schedule.days), today, future_only),
    )
}

/// The lines that name the days `days`, one day to a line.
pub open spec fn day_lines(days: Seq<CollectionDay>) -> Seq<char>
    decreases days.len(),
{
    if days.len() == 0 {
        Seq::empty()
    } else {
        day_lines(days.drop_last()) + days.last().name() + "\n"@
    }
}

/// The list of the collection days of a schedule: each day of either list of
/// the schedule once, Sunday first, one day to a line.
pub open spec fn day_list_text(schedule: ScheduleView) -> Seq<char> {
    day_lines(merge_of(schedule.data.dow, schedule.data.days_of_week))
}

/// The dates of the events of `days`, in order.
pub fn dates_of(days: &Vec<BinDay>) -> (dates: Vec<Option<CalendarDate>>)
    ensures
        dates@ == event_dates(day_views(days@)),
{
    let mut dates: Vec<Option<CalendarDate>> = Vec::new();
    let mut i: usize = 0;
    while i < days.len()
        invariant
            i <= days.len(),
            dates@ == event_dates(day_views(days@)).take(i as int),
        decreases days.len() - i,
    {
        let date = match days[i].get_start_date() {
            Ok(d) => Some(d),
            Err(_) => None,
        };
        dates.push(date);
        proof {
            assert(dates@ =~= event_dates(day_views(days@)).take(i + 1));
        }
        i += 1;
    }
    proof {
        assert(event_dates(day_views(days@)).take(days.len() as int) =~= event_dates(day_views(days@)));
    }
    dates
}

/// The report on `schedule` as of the day `today`.
pub fn render_report(schedule: &Schedule, today: &CalendarDate, future_only: bool) -> (text: String)
    ensures
        text@ == report_text(schedule@, *today, future_only),
{
    let mut out: Vec<char> = Vec::new();
    let block = schedule.data.property.to_string();
    push_str(&mut out, block.as_str());
    push_str(&mut out, "\n");
    let dates = dates_of(&schedule.days);
    let order = report_order(&dates, today, future_only);
    let ghost head = out@;
    let mut k: usize = 0;
    proof {
        assert(order@.take(0) =~= Seq::<usize>::empty());
        assert(out@ =~= head + report_lines(schedule@.days, order@.take(0)));
    }
    while k < order.len()
        invariant
            k <= order.len(),
            forall|j: int| 0 <= j < order.len() ==> (#[trigger] order[j]) < schedule.days.len(),
            out@ == head + report_lines(schedule@.days, order@.take(k as int)),
        decreases order.len() - k,
    {
        let line = schedule.days[order[k]].to_string();
        push_str(&mut out, "- ");
        push_str(&mut out, line.as_str());
        push_str(&mut out, "\n");
        proof {
            let next = order@.take(k + 1);
            assert(next.drop_last() =~= order@.take(k as int));
            assert(next.last() == order@[k as int]);
            assert(out@ =~= head + report_lines(schedule@.days, next));
        }
        k += 1;
    }
    proof {
        assert(order@.take(order.len() as int) =~= order@);
    }
    from_chars(&out)
}

/// The list of the collection days of `schedule`.
pub fn render_day_list(schedule: &Schedule) -> (text: String)
    ensures
        text@ == day_list_text(schedule@),
{
    let days = schedule.collection_days();
    let mut out: Vec<char> = Vec::new();
    let mut k: usize = 0;
    proof {
        assert(days@.take(0) =~= Seq::<CollectionDay>::empty());
    }
    while k < days.len()
        invariant
            k <= days.len(),
            out@ == day_lines(days@.take(k as int)),
        decreases days.len() - k,
    {
        let name = days[k].to_string();
        push_str(&mut out, name.as_str());
        push_str(&mut out, "\n");
        proof {
            let next = days@.take(k + 1);
            assert(next.drop_last() =~= days@.take(k as int));
            assert(next.last() == days@[k as int]);
        }
        k += 1;
    }
    proof {
        assert(days@.take(days.len() as int) =~= days@);
    }
    from_chars(&out)
}

/// What is printed for a schedule in the mode `mode`, on the day `today`.
pub open spec fn rendered(
    schedule: ScheduleView,
    mode: RenderMode,
    options: RenderOptions,
    today: CalendarDate,
) -> Seq<char> {
    match mode {
        RenderMode::Raw => schedule_json(schedule) + "\n"@,
        RenderMode::Report => report_text(schedule, today, options.future_only),
        RenderMode::DayList => day_list_text(schedule),
    }
}

/// Showing two schedules that hold the same gives the same text twice. In the
/// modes other than the report, neither the day nor the options matter to
/// it.
pub proof fn lemma_rendering_is_repeatable(
    first: String,
    second: String,
    schedule: Schedule,
    same: Schedule,
    mode: RenderMode,
    options: RenderOptions,
    other_options: RenderOptions,
    today: CalendarDate,
    other_day: CalendarDate,
)
    requires
        schedule@ == same@,
        first@ == rendered(schedule@, mode, options, today),
        second@ == rendered(same@, mode, other_options, other_day),
        mode is Report ==> today == other_day && options == other_options,
    ensures
        first@ == second@,
{
}

/// What is printed for `schedule` in the mode `mode`, on the day `today`.
pub fn render_at(
    schedule: &Schedule,
    mode: RenderMode,
    options: &RenderOptions,
    today: &CalendarDate,
) -> (text: String)
    ensures
        text@ == rendered(schedule@, mode, *options, *today),
{
    match mode {
        RenderMode::Raw => {
            let mut text = to_json(schedule);
            text.append("\n");
            text
        },
        RenderMode::Report => render_report(schedule, today, options.future_only),
        RenderMode::DayList => render_day_list(schedule),
    }
}

/// What is printed for `schedule` in the mode `mode`, on the day that the
/// clock shows. Only the report depends on the day.
pub fn render(schedule: &Schedule, mode: RenderMode, options: &RenderOptions) -> (text: String)
    ensures
        exists|day: CalendarDate|
            day.is_valid() && text@ == #[trigger] rendered(schedule@, mode, *options, day),
        mode is Raw ==> text@ == schedule_json(schedule@) + "\n"@,
        mode is DayList ==> text@ == day_list_text(schedule@),
{
    let day = today();
    render_at(schedule, mode, options, &day)
}

} // verus!
