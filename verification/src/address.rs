//! Free-text addresses of the shape `<house number> <street words>, <suburb>`.

use crate::text::{
    find_char, from_chars, index_of, is_space, is_word, join, join_all, lacks, lemma_index_of_is,
    lemma_join_ends, lemma_join_lacks, lemma_run_len_is, lemma_trim_end_is, lemma_words_of_join,
    slice, split_words, to_chars, trim, trimmed, views, words,
};
use vstd::prelude::*;
use vstd::string::StringExecFns;

verus! {

/// Why a text is no address.
#[derive(Debug, Clone, Copy, PartialEq, Eq, Structural)]
pub enum ParseError {
    /// No text was given at all.
    MissingAddress,
    /// The part before the comma has no house number followed by a street.
    MissingStreet,
    /// There is no comma, and so no suburb after it.
    MissingSuburb,
}

impl ParseError {
    /// The sentence shown to the person who typed the address.
    pub open spec fn message(self) -> Seq<char> {
        match self {
            ParseError::MissingAddress => "No address provided"@,
            ParseError::MissingStreet => "No street provided, specify address like 123 drury lane, suburb"@,
            ParseError::MissingSuburb => "No suburb provided, specify address like 123 drury lane, suburb"@,
        }
    }

    /// The sentence shown to the person who typed the address.
    pub fn describe(&self) -> (text: String)
        ensures
            text@ == self.message(),
    {
        match self {
            ParseError::MissingAddress => String::from_str("No address provided"),
            ParseError::MissingStreet => String::from_str(
                "No street provided, specify address like 123 drury lane, suburb",
            ),
            ParseError::MissingSuburb => String::from_str(
                "No suburb provided, specify address like 123 drury lane, suburb",
            ),
        }
    }
}

/// The three search keys that an address yields.
#[derive(Debug, Clone)]
pub struct AddressData {
    /// The street name: the words after the house number, one space apart.
    pub street: String,
    /// House number and street as typed, without surrounding white space.
    pub address: String,
    /// The suburb, without surrounding white space.
    pub suburb: String,
}

/// What an [`AddressData`] holds.
pub struct AddressView {
    pub street: Seq<char>,
    pub address: Seq<char>,
    pub suburb: Seq<char>,
}

impl View for AddressData {
    type V = AddressView;

    open spec fn view(&self) -> AddressView {
        AddressView { street: self.street@, address: self.address@, suburb: self.suburb@ }
    }
}

/// Whether `text` holds a comma.
pub open spec fn has_comma(text: Seq<char>) -> bool {
    index_of(text, ',') < text.len()
}

/// The part of `text` before its first comma: all of it where there is none.
pub open spec fn before_comma(text: Seq<char>) -> Seq<char> {
    text.take(index_of(text, ',') as int)
}

/// The part of `text` after its first comma.
pub open spec fn after_comma(text: Seq<char>) -> Seq<char> {
    text.skip(index_of(text, ',') as int + 1)
}

/// What `text` means as an address.
///
/// The part before the first comma must hold at least two words, a house
/// number and a street; the street is made of the words after the first. A
/// missing street is reported before a missing comma.
pub open spec fn parsed(text: Seq<char>) -> Result<AddressView, ParseError> {
    let head = before_comma(text);
    let ws = words(head);
    if ws.len() < 2 {
        Err(ParseError::MissingStreet)
    } else if !has_comma(text) {
        Err(ParseError::MissingSuburb)
    } else {
        Ok(
            AddressView {
                street: join(ws.skip(1), seq![' ']),
                address: trim(head),
                suburb: trim(after_comma(text)),
            },
        )
    }
}

/// The outcome of a parse with the address replaced by what it holds.
pub open spec fn outcome_view(r: Result<AddressData, ParseError>) -> Result<
    AddressView,
    ParseError,
> {
    match r {
        Ok(a) => Ok(a@),
        Err(e) => Err(e),
    }
}

/// Whether `w` can stand before the comma as one word: a word without a comma.
pub open spec fn is_plain_word(w: Seq<char>) -> bool {
    is_word(w) && lacks(w, ',')
}

/// A text without a comma is no address, and neither is one with fewer than
/// two words before the comma; the empty text is both.
pub proof fn lemma_parse_rejects(text: Seq<char>)
    ensures
        !has_comma(text) ==> parsed(text) is Err,
        words(before_comma(text)).len() < 2 ==> parsed(text) == Err::<AddressView, ParseError>(
            ParseError::MissingStreet,
        ),
        text.len() == 0 ==> parsed(text) == Err::<AddressView, ParseError>(
            ParseError::MissingStreet,
        ),
{
    if text.len() == 0 {
        assert(before_comma(text) =~= Seq::<char>::empty());
        assert(words(Seq::<char>::empty()) =~= Seq::<Seq<char>>::empty());
    }
}

/// A house number, street words one space apart, a comma and a suburb parse
/// into the street words joined by single spaces, the text before the comma
/// as it stands, and the suburb without surrounding white space.
pub proof fn lemma_parse_well_formed(number: Seq<char>, street: Seq<Seq<char>>, suburb: Seq<char>)
    requires
        is_plain_word(number),
        street.len() >= 1,
        forall|i: int| 0 <= i < street.len() ==> is_plain_word(#[trigger] street[i]),
    ensures
        parsed(number + seq![' '] + join(street, seq![' ']) + seq![','] + suburb) == Ok::<
            AddressView,
            ParseError,
        >(
            AddressView {
                street: join(street, seq![' ']),
                address: number + seq![' '] + join(street, seq![' ']),
                suburb: trim(suburb),
            },
        ),
{
    let sep = seq![' '];
    let all = seq![number] + street;
    let head = number + sep + join(street, sep);
    let text = head + seq![','] + suburb;
    assert(all.drop_first() =~= street);
    assert(join(all, sep) == head);
    assert forall|i: int| 0 <= i < all.len() implies is_word(#[trigger] all[i]) && lacks(
        all[i],
        ',',
    ) && all[i].len() > 0 by {
        if i > 0 {
            assert(all[i] == street[i - 1]);
            assert(is_plain_word(street[i - 1]));
        }
    }
    lemma_join_lacks(all, sep, ',');
    lemma_join_ends(all, sep);
    lemma_words_of_join(all);
    assert forall|j: int| 0 <= j < head.len() implies #[trigger] text[j] != ',' by {
        assert(text[j] == head[j]);
    }
    assert(text[head.len() as int] == ',');
    lemma_index_of_is(text, ',', head.len() as int);
    assert(before_comma(text) =~= head);
    assert(after_comma(text) =~= suburb);
    assert(words(head).skip(1) =~= street);
    assert(head[0] == number[0]);
    assert(all.last() == street.last());
    assert(is_word(all[all.len() - 1]));
    assert(!is_space(head.last()));
    lemma_run_len_is(head, true, 0);
    assert(head.skip(0) =~= head);
    lemma_trim_end_is(head, head.len() as int);
    assert(head.take(head.len() as int) =~= head);
}

/// Splits `text` into street, address and suburb.
pub fn parse_address(text: &str) -> (r: Result<AddressData, ParseError>)
    ensures
        outcome_view(r) == parsed(text@),
{
    let chars = to_chars(text);
    let comma = find_char(&chars, ',');
    let head = slice(&chars, 0, comma);
    let ws = split_words(&head);
    proof {
        assert(head@ =~= before_comma(text@));
    }
    if ws.len() < 2 {
        return Err(ParseError::MissingStreet);
    }
    if comma == chars.len() {
        return Err(ParseError::MissingSuburb);
    }
    let mut sep: Vec<char> = Vec::new();
    sep.push(' ');
    let mut street_words = ws;
    street_words.remove(0);
    proof {
        assert(views(street_words@) =~= words(head@).skip(1));
    }
    let street = join_all(&street_words, &sep);
    let address = trimmed(&head);
    let tail = slice(&chars, comma + 1, chars.len());
    let suburb = trimmed(&tail);
    proof {
        assert(sep@ =~= seq![' ']);
        assert(tail@ =~= after_comma(text@));
    }
    Ok(
        AddressData {
            street: from_chars(&street),
            address: from_chars(&address),
            suburb: from_chars(&suburb),
        },
    )
}

} // verus!
