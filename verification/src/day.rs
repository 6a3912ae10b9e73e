//! Days of the week on which bins are collected.

use vstd::prelude::*;
use vstd::string::StringExecFns;

verus! {

/// A day of the week. On the wire it is a number from 0 to 6, 0 for Sunday.
#[derive(Debug, Clone, Copy, PartialEq, Eq, Hash, Structural)]
pub enum CollectionDay {
    Sunday,
    Monday,
    Tuesday,
    Wednesday,
    Thursday,
    Friday,
    Saturday,
}

/// A wire number that stands for no day of the week.
#[derive(Debug, Clone, Copy, PartialEq, Eq, Structural)]
pub struct InvalidDay {
    /// The number that was met.
    pub code: u8,
}

impl CollectionDay {
    /// The wire number of the day.
    pub open spec fn code(self) -> int {
        match self {
            CollectionDay::Sunday => 0,
            CollectionDay::Monday => 1,
            CollectionDay::Tuesday => 2,
            CollectionDay::Wednesday => 3,
            CollectionDay::Thursday => 4,
            CollectionDay::Friday => 5,
            CollectionDay::Saturday => 6,
        }
    }

    /// The English name of the day.
    pub open spec fn name(self) -> Seq<char> {
        match self {
            CollectionDay::Sunday => "Sunday"@,
            CollectionDay::Monday => "Monday"@,
            CollectionDay::Tuesday => "Tuesday"@,
            CollectionDay::Wednesday => "Wednesday"@,
            CollectionDay::Thursday => "Thursday"@,
            CollectionDay::Friday => "Friday"@,
            CollectionDay::Saturday => "Saturday"@,
        }
    }

    /// The wire number of the day.
    pub fn number(&self) -> (n: u8)
        ensures
            n == self.code(),
    {
        match self {
            CollectionDay::Sunday => 0,
            CollectionDay::Monday => 1,
            CollectionDay::Tuesday => 2,
            CollectionDay::Wednesday => 3,
            CollectionDay::Thursday => 4,
            CollectionDay::Friday => 5,
            CollectionDay::Saturday => 6,
        }
    }

    /// The day with the wire number `item`.
    pub fn from(item: u8) -> (day: CollectionDay)
        requires
            item <= 6,
        ensures
            day.code() == item,
    {
        match item {
            0 => CollectionDay::Sunday,
            1 => CollectionDay::Monday,
            2 => CollectionDay::Tuesday,
            3 => CollectionDay::Wednesday,
            4 => CollectionDay::Thursday,
            5 => CollectionDay::Friday,
            _ => CollectionDay::Saturday,
        }
    }

    /// The day with the wire number `item`, where there is one.
    pub fn decode(item: u8) -> (r: Result<CollectionDay, InvalidDay>)
        ensures
            item <= 6 ==> r is Ok && r->Ok_0.code() == item,
            item > 6 ==> r == Err::<CollectionDay, InvalidDay>(InvalidDay { code: item }),
    {
        if item <= 6 {
            Ok(CollectionDay::from(item))
        } else {
            Err(InvalidDay { code: item })
        }
    }

    /// The English name of the day.
    pub fn to_string(&self) -> (text: String)
        ensures
            text@ == self.name(),
    {
        match self {
            CollectionDay::Sunday => String::from_str("Sunday"),
            CollectionDay::Monday => String::from_str("Monday"),
            CollectionDay::Tuesday => String::from_str("Tuesday"),
            CollectionDay::Wednesday => String::from_str("Wednesday"),
            CollectionDay::Thursday => String::from_str("Thursday"),
            CollectionDay::Friday => String::from_str("Friday"),
            CollectionDay::Saturday => String::from_str("Saturday"),
        }
    }
}

/// Two days are the same day exactly when their wire numbers agree.
pub proof fn lemma_day_is_its_code(a: CollectionDay, b: CollectionDay)
    ensures
        a == b <==> a.code() == b.code(),
        0 <= a.code() <= 6,
{
}

/// Whether `days` is in the order of the wire numbers with no day twice.
pub open spec fn is_ascending(days: Seq<CollectionDay>) -> bool {
    forall|i: int, j: int| 0 <= i < j < days.len() ==> days[i].code() < days[j].code()
}

/// Whether `merged` holds exactly the days of `dow` and of `days_of_week`,
/// each once, in the order of the wire numbers.
pub open spec fn is_merge_of(
    merged: Seq<CollectionDay>,
    dow: Seq<CollectionDay>,
    days_of_week: Seq<CollectionDay>,
) -> bool {
    &&& is_ascending(merged)
    &&& forall|d: CollectionDay|
        merged.contains(d) <==> dow.contains(d) || days_of_week.contains(d)
}

/// The days of `dow` and of `days_of_week`, each once, in the order of the
/// wire numbers.
pub open spec fn merge_of(dow: Seq<CollectionDay>, days_of_week: Seq<CollectionDay>) -> Seq<
    CollectionDay,
> {
    choose|m: Seq<CollectionDay>| is_merge_of(m, dow, days_of_week)
}

/// Whether some day of `days` has the wire number `code`.
pub open spec fn holds(days: Seq<CollectionDay>, code: int) -> bool {
    exists|i: int| 0 <= i < days.len() && (#[trigger] days[i]).code() == code
}

/// Sets `seen[c]` for the wire number `c` of each day in `days`.
fn mark(seen: &mut Vec<bool>, days: &Vec<CollectionDay>)
    requires
        old(seen).len() == 7,
    ensures
        final(seen).len() == 7,
        forall|c: int|
            0 <= c < 7 ==> (#[trigger] final(seen)[c] <==> old(seen)[c] || holds(days@, c)),
{
    let mut i: usize = 0;
    while i < days.len()
        invariant
            i <= days.len(),
            seen.len() == 7,
            forall|c: int|
                0 <= c < 7 ==> (#[trigger] seen[c] <==> old(seen)[c] || holds(
                    days@.take(i as int),
                    c,
                )),
        decreases days.len() - i,
    {
        let ghost before = seen@;
        let code = days[i].number();
        seen.set(code as usize, true);
        proof {
            let done = days@.take(i as int);
            let next = days@.take(i + 1);
            assert(next =~= done.push(days@[i as int]));
            assert forall|c: int| 0 <= c < 7 implies (#[trigger] seen[c] <==> old(seen)[c]
                || holds(next, c)) by {
                assert(before[c] <==> old(seen)[c] || holds(done, c));
                if c == code {
                    assert(next[i as int].code() == c);
                } else {
                    if holds(done, c) {
                        let k = choose|k: int| 0 <= k < done.len() && done[k].code() == c;
                        assert(next[k].code() == c);
                    }
                    if holds(next, c) {
                        let k = choose|k: int| 0 <= k < next.len() && next[k].code() == c;
                        assert(done[k].code() == c);
                    }
                }
            }
        }
        i += 1;
    }
    proof {
        assert(days@.take(days.len() as int) =~= days@);
    }
}

/// The days of `dow` and of `days_of_week`, each once, Sunday first.
pub fn merged_days(dow: &Vec<CollectionDay>, days_of_week: &Vec<CollectionDay>) -> (merged: Vec<
    CollectionDay,
>)
    ensures
        is_merge_of(merged@, dow@, days_of_week@),
        merged@ == merge_of(dow@, days_of_week@),
{
    let mut seen: Vec<bool> = Vec::new();
    while seen.len() < 7
        invariant
            seen.len() <= 7,
            forall|k: int| 0 <= k < seen.len() ==> !seen[k],
        decreases 7 - seen.len(),
    {
        seen.push(false);
    }
    mark(&mut seen, dow);
    mark(&mut seen, days_of_week);
    assert forall|c: int| 0 <= c < 7 implies (#[trigger] seen[c] <==> holds(dow@, c) || holds(
        days_of_week@,
        c,
    )) by {}
    let mut merged: Vec<CollectionDay> = Vec::new();
    let mut c: u8 = 0;
    while c < 7
        invariant
            c <= 7,
            seen.len() == 7,
            is_ascending(merged@),
            forall|k: int|
                0 <= k < merged.len() ==> (#[trigger] merged[k]).code() < c && seen[merged[k].code()],
            forall|code: int| 0 <= code < c && #[trigger] seen[code] ==> holds(merged@, code),
        decreases 7 - c,
    {
        if seen[c as usize] {
            let day = CollectionDay::from(c);
            let ghost before = merged@;
            merged.push(day);
            proof {
                assert forall|code: int| 0 <= code < c + 1 && #[trigger] seen[code] implies holds(
                    merged@,
                    code,
                ) by {
                    if code == c {
                        assert(merged@[before.len() as int].code() == code);
                    } else {
                        let k = choose|k: int| 0 <= k < before.len() && before[k].code() == code;
                        assert(merged@[k].code() == code);
                    }
                }
            }
        }
        c += 1;
    }
    proof {
        assert forall|d: CollectionDay|
            merged@.contains(d) <==> dow@.contains(d) || days_of_week@.contains(d) by {
            lemma_day_is_its_code(d, d);
            let code = d.code();
            assert(seen[code] <==> holds(dow@, code) || holds(days_of_week@, code));
            if merged@.contains(d) {
                let k = choose|k: int| 0 <= k < merged.len() && merged@[k] == d;
                assert(seen[merged[k].code()]);
            }
            if holds(dow@, code) {
                let k = choose|k: int| 0 <= k < dow.len() && dow@[k].code() == code;
                lemma_day_is_its_code(d, dow@[k]);
                assert(dow@.contains(d));
            }
            if holds(days_of_week@, code) {
                let k = choose|k: int|
                    0 <= k < days_of_week.len() && days_of_week@[k].code() == code;
                lemma_day_is_its_code(d, days_of_week@[k]);
                assert(days_of_week@.contains(d));
            }
            if dow@.contains(d) {
                let k = choose|k: int| 0 <= k < dow.len() && dow@[k] == d;
                assert(dow@[k].code() == code);
            }
            if days_of_week@.contains(d) {
                let k = choose|k: int| 0 <= k < days_of_week.len() && days_of_week@[k] == d;
                assert(days_of_week@[k].code() == code);
            }
            if holds(merged@, code) {
                let k = choose|k: int| 0 <= k < merged.len() && merged@[k].code() == code;
                lemma_day_is_its_code(d, merged@[k]);
                assert(merged@.contains(d));
            }
        }
        lemma_merge_is_unique(merged@, dow@, days_of_week@);
    }
    merged
}

/// There is one list that holds the days of two lists, each once, in the
/// order of the wire numbers.
pub proof fn lemma_merge_is_unique(
    m: Seq<CollectionDay>,
    dow: Seq<CollectionDay>,
    days_of_week: Seq<CollectionDay>,
)
    requires
        is_merge_of(m, dow, days_of_week),
    ensures
        m == merge_of(dow, days_of_week),
{
    lemma_ascending_is_unique(m, merge_of(dow, days_of_week));
}

/// The merged days hold every day of either list, so they are empty only
/// where both lists are; and no more than seven days come out.
pub proof fn lemma_merge_keeps_days(
    merged: Seq<CollectionDay>,
    dow: Seq<CollectionDay>,
    days_of_week: Seq<CollectionDay>,
)
    requires
        is_merge_of(merged, dow, days_of_week),
    ensures
        merged.len() == 0 <==> dow.len() == 0 && days_of_week.len() == 0,
        merged.len() <= 7,
{
    if dow.len() > 0 {
        assert(dow.contains(dow[0]));
        assert(merged.contains(dow[0]));
    }
    if days_of_week.len() > 0 {
        assert(days_of_week.contains(days_of_week[0]));
        assert(merged.contains(days_of_week[0]));
    }
    if merged.len() > 0 {
        assert(merged.contains(merged[0]));
    }
    lemma_ascending_is_short(merged);
}

/// A list in ascending order holds its `i`-th day no earlier than the wire
/// number `i`, and so no more than seven days.
pub proof fn lemma_ascending_is_short(days: Seq<CollectionDay>)
    requires
        is_ascending(days),
    ensures
        days.len() <= 7,
        forall|i: int| 0 <= i < days.len() ==> i <= (#[trigger] days[i]).code(),
    decreases days.len(),
{
    if days.len() > 0 {
        let front = days.drop_last();
        lemma_ascending_is_short(front);
        assert forall|i: int| 0 <= i < days.len() implies i <= (#[trigger] days[i]).code() by {
            if i < front.len() {
                assert(front[i] == days[i]);
            } else if i > 0 {
                assert(front[i - 1] == days[i - 1]);
                assert(days[i - 1].code() < days[i].code());
            }
        }
        lemma_day_is_its_code(days.last(), days.last());
    }
}

/// Merging gives the same days whichever of the two lists comes first.
pub proof fn lemma_merge_is_a_union(
    a: Seq<CollectionDay>,
    b: Seq<CollectionDay>,
    x: Seq<CollectionDay>,
    y: Seq<CollectionDay>,
)
    requires
        is_merge_of(x, a, b),
        is_merge_of(y, b, a),
    ensures
        x == y,
{
    lemma_ascending_is_unique(x, y);
}

/// Merging depends on which days the two lists hold, not on their order nor
/// on how often they hold a day.
pub proof fn lemma_merge_ignores_order(
    a: Seq<CollectionDay>,
    b: Seq<CollectionDay>,
    c: Seq<CollectionDay>,
    d: Seq<CollectionDay>,
)
    requires
        forall|day: CollectionDay| a.contains(day) || b.contains(day) <==> c.contains(day)
            || d.contains(day),
    ensures
        merge_of(a, b) == merge_of(c, d),
{
    lemma_merge_exists(a, b);
    lemma_merge_exists(c, d);
    lemma_ascending_is_unique(merge_of(a, b), merge_of(c, d));
}

/// There is a list that holds the days of two lists, each once, in the order
/// of the wire numbers.
pub proof fn lemma_merge_exists(dow: Seq<CollectionDay>, days_of_week: Seq<CollectionDay>)
    ensures
        is_merge_of(merge_of(dow, days_of_week), dow, days_of_week),
{
    let week = seq![
        CollectionDay::Sunday,
        CollectionDay::Monday,
        CollectionDay::Tuesday,
        CollectionDay::Wednesday,
        CollectionDay::Thursday,
        CollectionDay::Friday,
        CollectionDay::Saturday,
    ];
    let wanted = |day: CollectionDay| dow.contains(day) || days_of_week.contains(day);
    let m = week.filter(wanted);
    lemma_filter_keeps_order(week, wanted);
    assert(is_merge_of(m, dow, days_of_week)) by {
        assert forall|day: CollectionDay| m.contains(day) <==> wanted(day) by {
            lemma_day_is_its_code(day, day);
            assert(week[day.code()] == day);
            assert(week.contains(day));
        }
    }
}

/// What is kept of an ascending list is ascending, and holds the days of the
/// list that were wanted; none of them comes after the last day of the list.
pub proof fn lemma_filter_keeps_order(days: Seq<CollectionDay>, wanted: spec_fn(CollectionDay) -> bool)
    requires
        is_ascending(days),
    ensures
        is_ascending(days.filter(wanted)),
        forall|day: CollectionDay|
            days.filter(wanted).contains(day) <==> days.contains(day) && wanted(day),
        forall|k: int|
            0 <= k < days.filter(wanted).len() ==> days.len() > 0 && (#[trigger] days.filter(
                wanted,
            )[k]).code() <= days.last().code(),
    decreases days.len(),
{
    reveal(Seq::filter);
    let kept = days.filter(wanted);
    if days.len() > 0 {
        let front = days.drop_last();
        let last = days.last();
        assert forall|i: int, j: int| 0 <= i < j < front.len() implies front[i].code()
            < front[j].code() by {
            assert(days[i].code() < days[j].code());
        }
        lemma_filter_keeps_order(front, wanted);
        let before = front.filter(wanted);
        assert(kept == if wanted(last) {
            before.push(last)
        } else {
            before
        });
        assert forall|k: int| 0 <= k < before.len() implies (#[trigger] before[k]).code()
            < last.code() by {
            assert(front.len() > 0);
            assert(front.last() == days[days.len() - 2]);
            assert(days[days.len() - 2].code() < days[days.len() - 1].code());
        }
        assert forall|day: CollectionDay|
            kept.contains(day) <==> days.contains(day) && wanted(day) by {
            if kept.contains(day) {
                let k = choose|k: int| 0 <= k < kept.len() && kept[k] == day;
                if k < before.len() {
                    assert(before.contains(before[k]));
                    assert(front.contains(day));
                    let q = choose|q: int| 0 <= q < front.len() && front[q] == day;
                    assert(days[q] == day);
                } else {
                    assert(days[days.len() - 1] == day);
                }
            }
            if days.contains(day) && wanted(day) {
                let q = choose|q: int| 0 <= q < days.len() && days[q] == day;
                if q < front.len() {
                    assert(front[q] == day);
                    assert(front.contains(day));
                    assert(before.contains(day));
                    let k = choose|k: int| 0 <= k < before.len() && before[k] == day;
                    assert(kept[k] == day);
                } else {
                    assert(kept[kept.len() - 1] == day);
                }
            }
        }
    }
}

/// Two ascending lists that hold the same days are one list.
pub proof fn lemma_ascending_is_unique(x: Seq<CollectionDay>, y: Seq<CollectionDay>)
    requires
        is_ascending(x),
        is_ascending(y),
        forall|d: CollectionDay| x.contains(d) <==> y.contains(d),
    ensures
        x == y,
    decreases x.len() + y.len(),
{
    if x.len() == 0 {
        if y.len() > 0 {
            assert(y.contains(y[0]));
        }
        assert(x =~= y);
    } else if y.len() == 0 {
        assert(x.contains(x[0]));
    } else {
        let a = x.last();
        let b = y.last();
        assert(x.contains(a));
        assert(y.contains(b));
        let i = choose|i: int| 0 <= i < y.len() && y[i] == a;
        let j = choose|j: int| 0 <= j < x.len() && x[j] == b;
        assert(a.code() == b.code()) by {
            if i < y.len() - 1 {
                assert(y[i].code() < b.code());
            }
            if j < x.len() - 1 {
                assert(x[j].code() < a.code());
            }
        }
        lemma_day_is_its_code(a, b);
        let xs = x.drop_last();
        let ys = y.drop_last();
        assert forall|d: CollectionDay| xs.contains(d) <==> ys.contains(d) by {
            if xs.contains(d) {
                let k = choose|k: int| 0 <= k < xs.len() && xs[k] == d;
                assert(x[k] == d);
                assert(x.contains(d));
                assert(x[k].code() < a.code());
                let m = choose|m: int| 0 <= m < y.len() && y[m] == d;
                assert(m < y.len() - 1);
                assert(ys[m] == d);
            }
            if ys.contains(d) {
                let k = choose|k: int| 0 <= k < ys.len() && ys[k] == d;
                assert(y[k] == d);
                assert(y.contains(d));
                assert(y[k].code() < b.code());
                let m = choose|m: int| 0 <= m < x.len() && x[m] == d;
                assert(m < x.len() - 1);
                assert(xs[m] == d);
            }
        }
        lemma_ascending_is_unique(xs, ys);
        assert(x =~= xs.push(a));
        assert(y =~= ys.push(b));
    }
}

} // verus!
