//! Character sequences: white space, trimming, words, joining and searching.
//!
//! Strings are handled as `Vec<char>` inside the library, so that positions are
//! character positions and every function here can be stated over `Seq<char>`.

use vstd::prelude::*;

verus! {

/// `String::push` appends one character.
pub assume_specification[ String::push ](s: &mut String, c: char)
    ensures
        final(s)@ == old(s)@.push(c),
;

/// Whether `c` is white space: the code points with the Unicode property
/// `White_Space`.
pub open spec fn is_space(c: char) -> bool {
    let u = c as u32;
    ||| 0x09 <= u <= 0x0D
    ||| u == 0x20
    ||| u == 0x85
    ||| u == 0xA0
    ||| u == 0x1680
    ||| 0x2000 <= u <= 0x200A
    ||| u == 0x2028
    ||| u == 0x2029
    ||| u == 0x202F
    ||| u == 0x205F
    ||| u == 0x3000
}

/// How many characters at the front of `s` are white space (`space` true) or
/// are not (`space` false).
pub open spec fn run_len(s: Seq<char>, space: bool) -> nat
    decreases s.len(),
{
    if s.len() > 0 && is_space(s[0]) == space {
        1 + run_len(s.drop_first(), space)
    } else {
        0
    }
}

/// `s` without the white space at its front.
pub open spec fn trim_start(s: Seq<char>) -> Seq<char> {
    s.skip(run_len(s, true) as int)
}

/// `s` without the white space at its end.
pub open spec fn trim_end(s: Seq<char>) -> Seq<char>
    decreases s.len(),
{
    if s.len() > 0 && is_space(s.last()) {
        trim_end(s.drop_last())
    } else {
        s
    }
}

/// `s` without the white space at either end.
pub open spec fn trim(s: Seq<char>) -> Seq<char> {
    trim_end(trim_start(s))
}

/// The words of `s`: its maximal runs of characters that are not white space,
/// from left to right.
pub open spec fn words(s: Seq<char>) -> Seq<Seq<char>>
    decreases s.len(),
    via words_terminates
{
    let t = trim_start(s);
    let n = run_len(t, false) as int;
    if n == 0 {
        Seq::empty()
    } else {
        seq![t.take(n)] + words(t.skip(n))
    }
}

#[via_fn]
proof fn words_terminates(s: Seq<char>) {
    lemma_run_len_bound(s, true);
    lemma_run_len_bound(trim_start(s), false);
}

/// The items of `ws` with `sep` between each two neighbours.
pub open spec fn join(ws: Seq<Seq<char>>, sep: Seq<char>) -> Seq<char>
    decreases ws.len(),
{
    if ws.len() == 0 {
        Seq::empty()
    } else if ws.len() == 1 {
        ws[0]
    } else {
        ws[0] + sep + join(ws.drop_first(), sep)
    }
}

/// Whether `w` is a word: not empty, and free of white space.
pub open spec fn is_word(w: Seq<char>) -> bool {
    w.len() > 0 && forall|j: int| 0 <= j < w.len() ==> !is_space(#[trigger] w[j])
}

/// The position of the first `c` in `s`, or the length of `s` where there is
/// none.
pub open spec fn index_of(s: Seq<char>, c: char) -> nat
    decreases s.len(),
{
    if s.len() > 0 && s[0] != c {
        1 + index_of(s.drop_first(), c)
    } else {
        0
    }
}

/// The character that stands for the digit `d`.
pub open spec fn digit_char(d: int) -> char {
    if d == 0 {
        '0'
    } else if d == 1 {
        '1'
    } else if d == 2 {
        '2'
    } else if d == 3 {
        '3'
    } else if d == 4 {
        '4'
    } else if d == 5 {
        '5'
    } else if d == 6 {
        '6'
    } else if d == 7 {
        '7'
    } else if d == 8 {
        '8'
    } else {
        '9'
    }
}

/// The number `n` written in base ten, without leading zeros.
pub open spec fn decimal(n: nat) -> Seq<char>
    decreases n,
{
    if n < 10 {
        seq![digit_char(n as int)]
    } else {
        decimal(n / 10).push(digit_char((n % 10) as int))
    }
}

/// The views of a sequence of strings.
pub open spec fn strings(items: Seq<String>) -> Seq<Seq<char>> {
    Seq::new(items.len(), |i: int| items[i]@)
}

/// A line made of a label and a value.
pub open spec fn labelled(label: Seq<char>, value: Seq<char>) -> Seq<char> {
    label + value + seq!['\n']
}

/// Whether `c` is nowhere in `s`.
pub open spec fn lacks(s: Seq<char>, c: char) -> bool {
    forall|j: int| 0 <= j < s.len() ==> #[trigger] s[j] != c
}

/// Whether `needle` stands in `hay` at position `i`.
pub open spec fn occurs_at(hay: Seq<char>, needle: Seq<char>, i: int) -> bool {
    &&& 0 <= i
    &&& i + needle.len() <= hay.len()
    &&& hay.subrange(i, i + needle.len()) == needle
}

/// Whether `needle` stands somewhere in `hay` as a contiguous run.
pub open spec fn contains(hay: Seq<char>, needle: Seq<char>) -> bool {
    exists|i: int| occurs_at(hay, needle, i)
}

/// The views of a sequence of character vectors.
pub open spec fn views(ws: Seq<Vec<char>>) -> Seq<Seq<char>> {
    Seq::new(ws.len(), |i: int| ws[i]@)
}

/// A run at the front of a text is no longer than the text.
pub proof fn lemma_run_len_bound(s: Seq<char>, space: bool)
    ensures
        run_len(s, space) <= s.len(),
    decreases s.len(),
{
    if s.len() > 0 && is_space(s[0]) == space {
        lemma_run_len_bound(s.drop_first(), space);
    }
}

/// A run that is known character by character has the length `k`.
pub proof fn lemma_run_len_is(s: Seq<char>, space: bool, k: int)
    requires
        0 <= k <= s.len(),
        forall|j: int| 0 <= j < k ==> is_space(#[trigger] s[j]) == space,
        k < s.len() ==> is_space(s[k]) != space,
    ensures
        run_len(s, space) == k,
    decreases k,
{
    if k > 0 {
        let t = s.drop_first();
        assert forall|j: int| 0 <= j < k - 1 implies is_space(#[trigger] t[j]) == space by {
            assert(t[j] == s[j + 1]);
        }
        lemma_run_len_is(t, space, k - 1);
    }
}

/// Trailing white space that is known character by character is what
/// `trim_end` removes.
pub proof fn lemma_trim_end_is(s: Seq<char>, k: int)
    requires
        0 <= k <= s.len(),
        forall|j: int| k <= j < s.len() ==> is_space(#[trigger] s[j]),
        k > 0 ==> !is_space(s[k - 1]),
    ensures
        trim_end(s) == s.take(k),
    decreases s.len() - k,
{
    if k < s.len() {
        let t = s.drop_last();
        lemma_trim_end_is(t, k);
        assert(t.take(k) =~= s.take(k));
    } else {
        assert(s.take(k) =~= s);
    }
}

/// A first occurrence that is known character by character is at `k`.
pub proof fn lemma_index_of_is(s: Seq<char>, c: char, k: int)
    requires
        0 <= k <= s.len(),
        forall|j: int| 0 <= j < k ==> #[trigger] s[j] != c,
        k < s.len() ==> s[k] == c,
    ensures
        index_of(s, c) == k,
    decreases k,
{
    if k > 0 {
        let t = s.drop_first();
        assert forall|j: int| 0 <= j < k - 1 implies #[trigger] t[j] != c by {
            assert(t[j] == s[j + 1]);
        }
        lemma_index_of_is(t, c, k - 1);
    }
}

/// Joining one more item puts the separator and the item at the end.
pub proof fn lemma_join_push(ws: Seq<Seq<char>>, w: Seq<char>, sep: Seq<char>)
    ensures
        join(ws.push(w), sep) == if ws.len() == 0 {
            w
        } else {
            join(ws, sep) + sep + w
        },
    decreases ws.len(),
{
    if ws.len() > 0 {
        let rest = ws.drop_first();
        assert(ws.push(w).drop_first() =~= rest.push(w));
        lemma_join_push(rest, w, sep);
        if ws.len() > 1 {
            assert(ws[0] + sep + (join(rest, sep) + sep + w) =~= (ws[0] + sep + join(rest, sep))
                + sep + w);
        }
    }
}

/// The words of a text that was joined from words with single spaces are
/// those words.
pub proof fn lemma_words_of_join(ws: Seq<Seq<char>>)
    requires
        forall|i: int| 0 <= i < ws.len() ==> is_word(#[trigger] ws[i]),
    ensures
        words(join(ws, seq![' '])) == ws,
    decreases ws.len(),
{
    let text = join(ws, seq![' ']);
    if ws.len() == 0 {
        assert(words(text) =~= ws);
    } else {
        let w = ws[0];
        assert(is_word(w));
        let rest = ws.drop_first();
        let tail = if ws.len() == 1 {
            Seq::<char>::empty()
        } else {
            seq![' '] + join(rest, seq![' '])
        };
        assert(text =~= w + tail);
        assert(text[0] == w[0]);
        lemma_run_len_is(text, true, 0);
        assert(text.skip(0) =~= text);
        assert forall|j: int| 0 <= j < w.len() implies is_space(#[trigger] text[j]) == false by {
            assert(text[j] == w[j]);
        }
        if ws.len() > 1 {
            assert(text[w.len() as int] == ' ');
        }
        lemma_run_len_is(text, false, w.len() as int);
        assert(text.take(w.len() as int) =~= w);
        assert(text.skip(w.len() as int) =~= tail);
        assert forall|i: int| 0 <= i < rest.len() implies is_word(#[trigger] rest[i]) by {
            assert(rest[i] == ws[i + 1]);
        }
        lemma_words_of_join(rest);
        if ws.len() == 1 {
            assert(words(tail) =~= Seq::<Seq<char>>::empty());
        } else {
            let inner = join(rest, seq![' ']);
            lemma_join_ends(rest, seq![' ']);
            assert(tail[0] == ' ');
            assert(tail[1] == inner[0]);
            assert(inner[0] == rest[0][0]);
            assert(is_word(rest[0]));
            lemma_run_len_is(tail, true, 1);
            assert(tail.skip(1) =~= inner);
            lemma_run_len_is(inner, true, 0);
            assert(inner.skip(0) =~= inner);
            assert(words(tail) == words(inner));
        }
        assert(seq![w] + rest =~= ws);
    }
}

/// A text joined from items that are not empty begins as its first item
/// begins and ends as its last item ends.
pub proof fn lemma_join_ends(ws: Seq<Seq<char>>, sep: Seq<char>)
    requires
        ws.len() > 0,
        forall|i: int| 0 <= i < ws.len() ==> (#[trigger] ws[i]).len() > 0,
    ensures
        join(ws, sep).len() > 0,
        join(ws, sep)[0] == ws[0][0],
        join(ws, sep).last() == ws.last().last(),
    decreases ws.len(),
{
    if ws.len() > 1 {
        let rest = ws.drop_first();
        assert forall|i: int| 0 <= i < rest.len() implies (#[trigger] rest[i]).len() > 0 by {
            assert(rest[i] == ws[i + 1]);
        }
        lemma_join_ends(rest, sep);
        assert(rest.last() == ws.last());
    }
}

/// A character that is in no item and not in the separator is not in the
/// joined text.
pub proof fn lemma_join_lacks(ws: Seq<Seq<char>>, sep: Seq<char>, c: char)
    requires
        forall|i: int| 0 <= i < ws.len() ==> lacks(#[trigger] ws[i], c),
        lacks(sep, c),
    ensures
        lacks(join(ws, sep), c),
    decreases ws.len(),
{
    if ws.len() == 1 {
        assert(lacks(ws[0], c));
    } else if ws.len() > 1 {
        let rest = ws.drop_first();
        assert forall|i: int| 0 <= i < rest.len() implies lacks(#[trigger] rest[i], c) by {
            assert(rest[i] == ws[i + 1]);
        }
        lemma_join_lacks(rest, sep, c);
        assert(lacks(ws[0], c));
    }
}

/// Whether `c` is white space.
pub fn is_whitespace(c: char) -> (b: bool)
    ensures
        b == is_space(c),
{
    let u: u32 = c as u32;
    (0x09 <= u && u <= 0x0D) || u == 0x20 || u == 0x85 || u == 0xA0 || u == 0x1680 || (0x2000
        <= u && u <= 0x200A) || u == 0x2028 || u == 0x2029 || u == 0x202F || u == 0x205F || u
        == 0x3000
}

/// The characters of `s`, in order.
pub fn to_chars(s: &str) -> (v: Vec<char>)
    ensures
        v@ == s@,
{
    let mut v: Vec<char> = Vec::new();
    for c in it: s.chars()
        invariant
            v@ == it.seq().take(it.index() as int),
            it.seq() == s@,
    {
        v.push(c);
    }
    v
}

/// The string made of the characters of `v`, in order.
pub fn from_chars(v: &Vec<char>) -> (s: String)
    ensures
        s@ == v@,
{
    let mut s = String::new();
    let mut i: usize = 0;
    while i < v.len()
        invariant
            i <= v.len(),
            s@ == v@.take(i as int),
        decreases v.len() - i,
    {
        s.push(v[i]);
        i += 1;
    }
    s
}

/// Appends the characters of `s` to `out`.
pub fn push_str(out: &mut Vec<char>, s: &str)
    ensures
        final(out)@ == old(out)@ + s@,
{
    let ghost before = out@;
    for c in it: s.chars()
        invariant
            out@ == before + it.seq().take(it.index() as int),
            it.seq() == s@,
    {
        out.push(c);
    }
}

/// Appends the characters of `v` to `out`.
pub fn push_all(out: &mut Vec<char>, v: &Vec<char>)
    ensures
        final(out)@ == old(out)@ + v@,
{
    let ghost before = out@;
    let mut i: usize = 0;
    while i < v.len()
        invariant
            i <= v.len(),
            out@ == before + v@.take(i as int),
        decreases v.len() - i,
    {
        out.push(v[i]);
        i += 1;
    }
}

/// The characters of `v` from position `lo` up to, not including, `hi`.
pub(crate) fn slice(v: &Vec<char>, lo: usize, hi: usize) -> (out: Vec<char>)
    requires
        lo <= hi <= v.len(),
    ensures
        out@ == v@.subrange(lo as int, hi as int),
{
    let mut out: Vec<char> = Vec::new();
    let mut i: usize = lo;
    while i < hi
        invariant
            lo <= i <= hi <= v.len(),
            out@ == v@.subrange(lo as int, i as int),
        decreases hi - i,
    {
        out.push(v[i]);
        i += 1;
    }
    out
}

/// The position of the first `c` in `v`, or the length of `v`.
pub fn find_char(v: &Vec<char>, c: char) -> (k: usize)
    ensures
        k == index_of(v@, c),
        k <= v.len(),
{
    let mut k: usize = 0;
    while k < v.len() && v[k] != c
        invariant
            k <= v.len(),
            forall|j: int| 0 <= j < k ==> #[trigger] v@[j] != c,
        decreases v.len() - k,
    {
        k += 1;
    }
    proof {
        lemma_index_of_is(v@, c, k as int);
    }
    k
}

/// Where the run of white space (`space` true) or of other characters
/// (`space` false) that starts at `from` ends.
pub(crate) fn run_end(v: &Vec<char>, from: usize, space: bool) -> (to: usize)
    requires
        from <= v.len(),
    ensures
        from <= to <= v.len(),
        to - from == run_len(v@.skip(from as int), space),
        to < v.len() ==> is_space(v@[to as int]) != space,
{
    let mut to: usize = from;
    while to < v.len() && is_whitespace(v[to]) == space
        invariant
            from <= to <= v.len(),
            forall|j: int| from <= j < to ==> is_space(#[trigger] v@[j]) == space,
        decreases v.len() - to,
    {
        to += 1;
    }
    proof {
        let s = v@.skip(from as int);
        assert forall|j: int| 0 <= j < to - from implies is_space(#[trigger] s[j]) == space by {
            assert(s[j] == v@[from + j]);
        }
        lemma_run_len_is(s, space, to - from);
    }
    to
}

/// `v` without the white space at either end.
pub fn trimmed(v: &Vec<char>) -> (out: Vec<char>)
    ensures
        out@ == trim(v@),
{
    let lo = run_end(v, 0, true);
    let mut hi: usize = v.len();
    while hi > lo && is_whitespace(v[hi - 1])
        invariant
            lo <= hi <= v.len(),
            forall|j: int| hi <= j < v.len() ==> is_space(#[trigger] v@[j]),
        decreases hi,
    {
        hi -= 1;
    }
    let out = slice(v, lo, hi);
    proof {
        assert(v@.skip(0) =~= v@);
        let s = trim_start(v@);
        assert(s == v@.skip(lo as int));
        assert forall|j: int| hi - lo <= j < s.len() implies is_space(#[trigger] s[j]) by {
            assert(s[j] == v@[lo + j]);
        }
        if hi > lo {
            assert(s[hi - lo - 1] == v@[hi - 1]);
        }
        lemma_trim_end_is(s, hi - lo);
        assert(s.take(hi - lo) =~= v@.subrange(lo as int, hi as int));
    }
    out
}

/// The words of `v`.
pub fn split_words(v: &Vec<char>) -> (out: Vec<Vec<char>>)
    ensures
        views(out@) == words(v@),
{
    let mut out: Vec<Vec<char>> = Vec::new();
    let mut i: usize = 0;
    proof {
        assert(v@.skip(0) =~= v@);
        assert(views(out@) =~= Seq::<Seq<char>>::empty());
        assert(Seq::<Seq<char>>::empty() + words(v@) =~= words(v@));
    }
    while i < v.len()
        invariant
            i <= v.len(),
            words(v@) == views(out@) + words(v@.skip(i as int)),
        decreases v.len() - i,
    {
        let a = run_end(v, i, true);
        let b = run_end(v, a, false);
        proof {
            let s = v@.skip(i as int);
            assert(trim_start(s) =~= v@.skip(a as int));
            assert(v@.skip(a as int).skip(b - a) =~= v@.skip(b as int));
            assert(v@.skip(a as int).take(b - a) =~= v@.subrange(a as int, b as int));
            if a < v.len() {
                assert(v@.skip(a as int)[0] == v@[a as int]);
            }
        }
        if b > a {
            let w = slice(v, a, b);
            let ghost before = views(out@);
            out.push(w);
            proof {
                assert(views(out@) =~= before.push(w@));
                assert(before + (seq![w@] + words(v@.skip(b as int))) =~= before.push(w@) + words(
                    v@.skip(b as int),
                ));
            }
        } else {
            proof {
                assert(words(v@.skip(i as int)) =~= Seq::<Seq<char>>::empty());
                assert(a == v.len());
                assert(words(v@.skip(b as int)) =~= Seq::<Seq<char>>::empty());
            }
        }
        i = b;
    }
    proof {
        assert(words(v@.skip(i as int)) =~= Seq::<Seq<char>>::empty());
        assert(views(out@) + Seq::<Seq<char>>::empty() =~= views(out@));
    }
    out
}

/// The items of `ws` with `sep` between each two neighbours.
pub fn join_all(ws: &Vec<Vec<char>>, sep: &Vec<char>) -> (out: Vec<char>)
    ensures
        out@ == join(views(ws@), sep@),
{
    let mut out: Vec<char> = Vec::new();
    let mut k: usize = 0;
    let ghost all = views(ws@);
    proof {
        assert(all.take(0) =~= Seq::<Seq<char>>::empty());
    }
    while k < ws.len()
        invariant
            k <= ws.len(),
            all == views(ws@),
            out@ == join(all.take(k as int), sep@),
        decreases ws.len() - k,
    {
        let ghost before = out@;
        if k > 0 {
            push_all(&mut out, sep);
        }
        push_all(&mut out, &ws[k]);
        proof {
            let done = all.take(k as int);
            assert(all.take(k + 1) =~= done.push(ws@[k as int]@));
            lemma_join_push(done, ws@[k as int]@, sep@);
            if k == 0 {
                assert(before =~= Seq::<char>::empty());
                assert(out@ =~= ws@[k as int]@);
            }
        }
        k += 1;
    }
    proof {
        assert(all.take(ws.len() as int) =~= all);
    }
    out
}

/// Whether `needle` stands in `hay` at position `i`.
pub(crate) fn matches_at(hay: &Vec<char>, needle: &Vec<char>, i: usize) -> (b: bool)
    requires
        i + needle.len() <= hay.len(),
    ensures
        b == occurs_at(hay@, needle@, i as int),
{
    let mut k: usize = 0;
    while k < needle.len()
        invariant
            k <= needle.len(),
            i + needle.len() <= hay.len(),
            forall|j: int| 0 <= j < k ==> hay@[i + j] == #[trigger] needle@[j],
        decreases needle.len() - k,
    {
        if hay[i + k] != needle[k] {
            proof {
                let part = hay@.subrange(i as int, i + needle.len());
                assert(part[k as int] == hay@[i + k]);
            }
            return false;
        }
        k += 1;
    }
    proof {
        assert(hay@.subrange(i as int, i + needle.len()) =~= needle@);
    }
    true
}

/// Whether `needle` stands somewhere in `hay` as a contiguous run.
pub fn find_in(hay: &Vec<char>, needle: &Vec<char>) -> (b: bool)
    ensures
        b == contains(hay@, needle@),
{
    if needle.len() > hay.len() {
        return false;
    }
    let last: usize = hay.len() - needle.len();
    let mut i: usize = 0;
    loop
        invariant
            i <= last,
            last == hay.len() - needle.len(),
            forall|j: int| 0 <= j < i ==> !occurs_at(hay@, needle@, j),
        decreases last - i,
    {
        if matches_at(hay, needle, i) {
            return true;
        }
        if i == last {
            return false;
        }
        i += 1;
    }
}

/// Whether `a` and `b` hold the same characters.
pub fn same_text(a: &str, b: &str) -> (same: bool)
    ensures
        same == (a@ == b@),
{
    let x = to_chars(a);
    let y = to_chars(b);
    if x.len() != y.len() {
        return false;
    }
    let mut i: usize = 0;
    while i < x.len()
        invariant
            i <= x.len(),
            x.len() == y.len(),
            x@ == a@,
            y@ == b@,
            forall|j: int| 0 <= j < i ==> x@[j] == y@[j],
        decreases x.len() - i,
    {
        if x[i] != y[i] {
            assert(a@[i as int] != b@[i as int]);
            return false;
        }
        i += 1;
    }
    proof {
        assert(x@ =~= y@);
    }
    true
}

/// Whether `needle` stands somewhere in `hay` as a contiguous run.
pub fn text_contains(hay: &str, needle: &str) -> (b: bool)
    ensures
        b == contains(hay@, needle@),
{
    let h = to_chars(hay);
    let n = to_chars(needle);
    find_in(&h, &n)
}

/// The character that stands for the digit `d`.
pub(crate) fn digit(d: u8) -> (c: char)
    requires
        d < 10,
    ensures
        c == digit_char(d as int),
{
    match d {
        0 => '0',
        1 => '1',
        2 => '2',
        3 => '3',
        4 => '4',
        5 => '5',
        6 => '6',
        7 => '7',
        8 => '8',
        _ => '9',
    }
}

/// Appends `n`, written in base ten, to `out`.
pub fn push_decimal(out: &mut Vec<char>, n: u64)
    ensures
        final(out)@ == old(out)@ + decimal(n as nat),
    decreases n,
{
    if n >= 10 {
        push_decimal(out, n / 10);
    }
    out.push(digit((n % 10) as u8));
    proof {
        let tail = seq![digit_char((n % 10) as int)];
        if n >= 10 {
            assert(old(out)@ + decimal((n / 10) as nat) + tail =~= old(out)@ + decimal(
                (n / 10) as nat,
            ).push(digit_char((n % 10) as int)));
        } else {
            assert(old(out)@.push(digit_char(n as int)) =~= old(out)@ + tail);
        }
    }
}

/// Appends `label`, `value` and a line end to `out`.
pub fn push_labelled(out: &mut Vec<char>, label: &str, value: &str)
    ensures
        final(out)@ == old(out)@ + labelled(label@, value@),
{
    push_str(out, label);
    push_str(out, value);
    out.push('\n');
    proof {
        assert(out@ =~= old(out)@ + labelled(label@, value@));
    }
}

/// Appends the items of `items` to `out`, with `sep` between each two
/// neighbours.
pub fn push_joined(out: &mut Vec<char>, items: &Vec<String>, sep: &str)
    ensures
        final(out)@ == old(out)@ + join(strings(items@), sep@),
{
    let ghost all = strings(items@);
    let mut k: usize = 0;
    proof {
        assert(all.take(0) =~= Seq::<Seq<char>>::empty());
        assert(out@ =~= old(out)@ + join(all.take(0), sep@));
    }
    while k < items.len()
        invariant
            k <= items.len(),
            all == strings(items@),
            out@ == old(out)@ + join(all.take(k as int), sep@),
        decreases items.len() - k,
    {
        let ghost before = out@;
        if k > 0 {
            push_str(out, sep);
        }
        push_str(out, items[k].as_str());
        proof {
            let done = all.take(k as int);
            assert(all.take(k + 1) =~= done.push(items@[k as int]@));
            lemma_join_push(done, items@[k as int]@, sep@);
            if k == 0 {
                assert(join(done, sep@) =~= Seq::<char>::empty());
                assert(out@ =~= old(out)@ + items@[k as int]@);
            } else {
                assert(out@ =~= old(out)@ + (join(done, sep@) + sep@ + items@[k as int]@));
            }
        }
        k += 1;
    }
    proof {
        assert(all.take(items.len() as int) =~= all);
    }
}

} // verus!
