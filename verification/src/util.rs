//! Encoding of request values and other helpers shared by the endpoints.

pub mod de;

use vstd::prelude::*;
use vstd::string::*;
use crate::error::{ErrorView, SponsorBlockError, StatusCode};

verus! {

/// Compares two string slices with `==`, which for `str` is
/// `PartialEq::eq`. Taken on trust: the answer is true exactly when both
/// slices hold the same characters in the same order.
#[verifier::external_body]
pub(crate) fn str_eq(left: &str, right: &str) -> (equal: bool)
    ensures
        equal == (left@ == right@),
{
    left == right
}

/// A text between double quotes.
pub open spec fn quoted(text: Seq<char>) -> Seq<char> {
    seq!['"'] + text + seq!['"']
}

/// The texts, each between double quotes, with a comma between neighbours.
pub open spec fn quoted_and_joined(texts: Seq<Seq<char>>) -> Seq<char>
    decreases texts.len(),
{
    if texts.len() == 0 {
        Seq::empty()
    } else if texts.len() == 1 {
        quoted(texts[0])
    } else {
        quoted_and_joined(texts.drop_last()) + seq![','] + quoted(texts.last())
    }
}

/// The array form that the service expects in a query: the texts, quoted and
/// joined, between square brackets.
pub open spec fn url_array(texts: Seq<Seq<char>>) -> Seq<char> {
    seq!['['] + quoted_and_joined(texts) + seq![']']
}

/// The texts whose position is marked in `kept`, in their order.
pub open spec fn kept_texts(texts: Seq<Seq<char>>, kept: Seq<bool>) -> Seq<Seq<char>>
    decreases texts.len(),
{
    if texts.len() == 0 || kept.len() != texts.len() {
        Seq::empty()
    } else if kept.last() {
        kept_texts(texts.drop_last(), kept.drop_last()).push(texts.last())
    } else {
        kept_texts(texts.drop_last(), kept.drop_last())
    }
}

/// The text of each string.
pub open spec fn texts_of(strings: Seq<String>) -> Seq<Seq<char>> {
    strings.map_values(|string: String| string@)
}

/// Whether `kept` can be what `predicate` answers for each element of `slice`.
pub open spec fn is_filtering<'e, E: 'e, P: Fn(&'e E) -> bool>(
    slice: Seq<E>,
    predicate: P,
    kept: Seq<bool>,
) -> bool {
    &&& kept.len() == slice.len()
    &&& forall|i: int|
        0 <= i < slice.len() ==> call_ensures(predicate, (&slice[i],), #[trigger] kept[i])
}

/// Whether `text` can be what `convert` gives for `element`.
pub open spec fn converts_to<'e, 't, E: 'e, C: Fn(&'e E) -> &'t str>(
    convert: C,
    element: E,
    text: Seq<char>,
) -> bool {
    exists|given: &'t str| #[trigger] call_ensures(convert, (&element,), given) && given@ == text
}

/// Whether `texts` can be what `convert` gives for each element of `slice`
/// that is marked in `kept`.
pub open spec fn is_conversion<'e, 't, E: 'e, C: Fn(&'e E) -> &'t str>(
    slice: Seq<E>,
    convert: C,
    kept: Seq<bool>,
    texts: Seq<Seq<char>>,
) -> bool {
    &&& kept.len() == slice.len()
    &&& texts.len() == slice.len()
    &&& forall|i: int|
        0 <= i < slice.len() && kept[i] ==> #[trigger] converts_to(convert, slice[i], texts[i])
}

/// Keeping every text leaves the texts as they are.
pub proof fn lemma_kept_texts_all(texts: Seq<Seq<char>>, kept: Seq<bool>)
    requires
        kept.len() == texts.len(),
        forall|i: int| 0 <= i < kept.len() ==> kept[i],
    ensures
        kept_texts(texts, kept) == texts,
    decreases texts.len(),
{
    if texts.len() > 0 {
        lemma_kept_texts_all(texts.drop_last(), kept.drop_last());
        assert(texts.drop_last().push(texts.last()) =~= texts);
    }
}

/// Keeping no text leaves nothing.
pub proof fn lemma_kept_texts_none(texts: Seq<Seq<char>>, kept: Seq<bool>)
    requires
        kept.len() == texts.len(),
        forall|i: int| 0 <= i < kept.len() ==> !kept[i],
    ensures
        kept_texts(texts, kept) == Seq::<Seq<char>>::empty(),
    decreases texts.len(),
{
    if texts.len() > 0 {
        lemma_kept_texts_none(texts.drop_last(), kept.drop_last());
    }
}

/// Keeping the text at one position leaves that text alone.
pub proof fn lemma_kept_texts_one(texts: Seq<Seq<char>>, kept: Seq<bool>, position: int)
    requires
        kept.len() == texts.len(),
        0 <= position < kept.len(),
        forall|i: int| 0 <= i < kept.len() ==> (kept[i] <==> i == position),
    ensures
        kept_texts(texts, kept) == seq![texts[position]],
    decreases texts.len(),
{
    if position == texts.len() - 1 {
        lemma_kept_texts_none(texts.drop_last(), kept.drop_last());
        assert(Seq::<Seq<char>>::empty().push(texts.last()) =~= seq![texts[position]]);
    } else {
        lemma_kept_texts_one(texts.drop_last(), kept.drop_last(), position);
    }
}

/// What is kept depends only on the texts at the kept positions.
pub proof fn lemma_kept_texts_agree(first: Seq<Seq<char>>, second: Seq<Seq<char>>, kept: Seq<bool>)
    requires
        first.len() == kept.len(),
        second.len() == kept.len(),
        forall|i: int| 0 <= i < kept.len() && kept[i] ==> first[i] == second[i],
    ensures
        kept_texts(first, kept) == kept_texts(second, kept),
    decreases kept.len(),
{
    if kept.len() > 0 {
        lemma_kept_texts_agree(first.drop_last(), second.drop_last(), kept.drop_last());
    }
}

/// Marking each item by a condition and keeping the marked texts is the same
/// as filtering the items by the condition and taking their texts.
pub proof fn lemma_kept_texts_is_filter<A>(
    items: Seq<A>,
    keep: spec_fn(A) -> bool,
    text: spec_fn(A) -> Seq<char>,
)
    ensures
        kept_texts(items.map_values(text), items.map_values(keep)) == items.filter(
            keep,
        ).map_values(text),
    decreases items.len(),
{
    reveal(Seq::filter);
    if items.len() > 0 {
        lemma_kept_texts_is_filter(items.drop_last(), keep, text);
        assert(items.map_values(text).drop_last() =~= items.drop_last().map_values(text));
        assert(items.map_values(keep).drop_last() =~= items.drop_last().map_values(keep));
        let shorter = items.drop_last().filter(keep);
        if keep(items.last()) {
            assert(shorter.push(items.last()).map_values(text) =~= shorter.map_values(text).push(
                text(items.last()),
            ));
        }
    } else {
        assert(items.filter(keep).map_values(text) =~= Seq::<Seq<char>>::empty());
    }
}

/// Where the predicate and the conversion are functions of the element, what
/// is kept is the elements filtered by the one and mapped by the other.
pub proof fn lemma_selection_is_filter<'e, 't, E: 'e, P, C>(
    slice: Seq<E>,
    predicate: P,
    convert: C,
    kept: Seq<bool>,
    texts: Seq<Seq<char>>,
    keep: spec_fn(E) -> bool,
    text: spec_fn(E) -> Seq<char>,
) where P: Fn(&'e E) -> bool, C: Fn(&'e E) -> &'t str
    requires
        is_filtering(slice, predicate, kept),
        is_conversion(slice, convert, kept, texts),
        forall|element: E, answer: bool| #[trigger]
            call_ensures(predicate, (&element,), answer) ==> answer == keep(element),
        forall|element: E, given: &'t str| #[trigger]
            call_ensures(convert, (&element,), given) ==> given@ == text(element),
    ensures
        kept_texts(texts, kept) == slice.filter(keep).map_values(text),
{
    assert forall|i: int| 0 <= i < slice.len() implies kept[i] == keep(slice[i]) by {
        assert(call_ensures(predicate, (&slice[i],), kept[i]));
    }
    assert(kept =~= slice.map_values(keep));
    assert forall|i: int| 0 <= i < kept.len() && kept[i] implies texts[i] == slice.map_values(
        text,
    )[i] by {
        assert(converts_to(convert, slice[i], texts[i]));
    }
    lemma_kept_texts_agree(texts, slice.map_values(text), kept);
    lemma_kept_texts_is_filter(slice, keep, text);
}

/// Filtering a sequence whose keys rise leaves a sequence whose keys rise,
/// and it leaves exactly the elements that the condition holds of.
pub proof fn lemma_filter_keeps_order<A>(
    items: Seq<A>,
    keep: spec_fn(A) -> bool,
    key: spec_fn(A) -> int,
)
    requires
        forall|i: int, j: int| 0 <= i < j < items.len() ==> key(items[i]) < key(items[j]),
    ensures
        forall|i: int, j: int|
            0 <= i < j < items.filter(keep).len() ==> key(#[trigger] items.filter(keep)[i]) < key(
                #[trigger] items.filter(keep)[j],
            ),
        forall|item: A| #[trigger]
            items.filter(keep).contains(item) <==> items.contains(item) && keep(item),
    decreases items.len(),
{
    reveal(Seq::filter);
    if items.len() > 0 {
        let shorter = items.drop_last();
        let last = items.last();
        lemma_filter_keeps_order(shorter, keep, key);
        let kept = shorter.filter(keep);
        assert forall|item: A| shorter.contains(item) implies key(item) < key(last) by {
            let i = choose|i: int| 0 <= i < shorter.len() && shorter[i] == item;
            assert(items[i] == item);
        }
        assert forall|item: A| #[trigger]
            items.filter(keep).contains(item) <==> items.contains(item) && keep(item) by {
            if items.contains(item) {
                let i = choose|i: int| 0 <= i < items.len() && items[i] == item;
                if i < shorter.len() {
                    assert(shorter[i] == item);
                }
            }
            if shorter.contains(item) {
                let i = choose|i: int| 0 <= i < shorter.len() && shorter[i] == item;
                assert(items[i] == item);
            }
            if keep(last) {
                assert(kept.push(last).last() == last);
                if kept.contains(item) {
                    let i = choose|i: int| 0 <= i < kept.len() && kept[i] == item;
                    assert(kept.push(last)[i] == item);
                }
                if kept.push(last).contains(item) {
                    let longer = kept.push(last);
                    let i = choose|i: int| 0 <= i < longer.len() && longer[i] == item;
                    if i < kept.len() {
                        assert(kept[i] == item);
                    }
                }
            }
        }
        if keep(last) {
            assert forall|i: int, j: int| 0 <= i < j < kept.push(last).len() implies key(
                #[trigger] kept.push(last)[i],
            ) < key(#[trigger] kept.push(last)[j]) by {
                assert(kept.contains(kept[i]));
                if j < kept.len() {
                    assert(kept.push(last)[j] == kept[j]);
                }
            }
        }
    }
}

/// Writes the elements of `slice` that `predicate` keeps, each as `convert`
/// gives it, as an array for a query: the kept texts in the order of `slice`,
/// each between double quotes, separated by commas, the whole between square
/// brackets.
pub fn to_url_array_conditional_convert<'e, 't, E, P, C>(
    slice: &'e [E],
    predicate: P,
    convert: C,
) -> (result: String) where P: Fn(&'e E) -> bool, C: Fn(&'e E) -> &'t str
    requires
        forall|i: int| 0 <= i < slice@.len() ==> call_requires(predicate, (&slice@[i],)),
        forall|i: int|
            0 <= i < slice@.len() && call_ensures(predicate, (&slice@[i],), true)
                ==> call_requires(convert, (&slice@[i],)),
    ensures
        exists|kept: Seq<bool>, texts: Seq<Seq<char>>|
            {
                &&& #[trigger] is_filtering(slice@, predicate, kept)
                &&& #[trigger] is_conversion(slice@, convert, kept, texts)
                &&& result@ == url_array(kept_texts(texts, kept))
            },
{
    let mut result = String::from_str("[");
    let ghost mut kept: Seq<bool> = Seq::empty();
    let ghost mut texts: Seq<Seq<char>> = Seq::empty();
    let mut pushed_already = false;
    let mut i: usize = 0;
    proof {
        reveal_strlit("[");
        assert(result@ =~= seq!['['] + quoted_and_joined(kept_texts(texts, kept)));
    }
    while i < slice.len()
        invariant
            i <= slice@.len(),
            forall|i: int| 0 <= i < slice@.len() ==> call_requires(predicate, (&slice@[i],)),
            forall|i: int|
                0 <= i < slice@.len() && call_ensures(predicate, (&slice@[i],), true)
                    ==> call_requires(convert, (&slice@[i],)),
            is_filtering(slice@.take(i as int), predicate, kept),
            is_conversion(slice@.take(i as int), convert, kept, texts),
            result@ == seq!['['] + quoted_and_joined(kept_texts(texts, kept)),
            pushed_already == (kept_texts(texts, kept).len() > 0),
        decreases slice.len() - i,
    {
        let element = &slice[i];
        let ghost earlier = kept_texts(texts, kept);
        let ghost kept_before = kept;
        let ghost texts_before = texts;
        if predicate(element) {
            if pushed_already {
                result.append(",");
            }
            let text = convert(element);
            result.append("\"");
            result.append(text);
            result.append("\"");
            proof {
                reveal_strlit(",");
                reveal_strlit("\"");
                kept = kept.push(true);
                texts = texts.push(text@);
                assert(kept.drop_last() =~= kept_before);
                assert(texts.drop_last() =~= texts_before);
                let later = kept_texts(texts, kept);
                assert(later == earlier.push(text@));
                assert(later.drop_last() =~= earlier);
                assert(result@ =~= seq!['['] + quoted_and_joined(later));
                let longer = slice@.take(i + 1);
                assert forall|j: int| 0 <= j < longer.len() && kept[j] implies #[trigger]
                    converts_to(convert, longer[j], texts[j]) by {
                    if j < i {
                        assert(converts_to(
                            convert,
                            slice@.take(i as int)[j],
                            texts_before[j],
                        ));
                    } else {
                        assert(call_ensures(convert, (&longer[j],), text) && text@ == texts[j]);
                    }
                }
            }
            pushed_already = true;
        } else {
            proof {
                kept = kept.push(false);
                texts = texts.push(Seq::empty());
                assert(kept.drop_last() =~= kept_before);
                assert(texts.drop_last() =~= texts_before);
                let longer = slice@.take(i + 1);
                assert forall|j: int| 0 <= j < longer.len() && kept[j] implies #[trigger]
                    converts_to(convert, longer[j], texts[j]) by {
                    assert(converts_to(convert, slice@.take(i as int)[j], texts_before[j]));
                }
            }
        }
        i += 1;
    }
    result.append("]");
    proof {
        reveal_strlit("]");
        assert(slice@.take(i as int) =~= slice@);
        assert(result@ =~= url_array(kept_texts(texts, kept)));
    }
    result
}

/// Writes the strings of `slice` that `predicate` keeps as an array for a
/// query.
pub fn to_url_array_conditional<'e, P>(slice: &'e [String], predicate: P) -> (result: String) where
    P: Fn(&'e String) -> bool,

    requires
        forall|i: int| 0 <= i < slice@.len() ==> call_requires(predicate, (&slice@[i],)),
    ensures
        exists|kept: Seq<bool>| #[trigger]
            is_filtering(slice@, predicate, kept) && result@ == url_array(
                kept_texts(texts_of(slice@), kept),
            ),
{
    let convert = |string: &'e String| -> (text: &'e str)
        ensures
            text@ == string@,
        { string.as_str() };
    let result = to_url_array_conditional_convert(slice, predicate, convert);
    proof {
        let (kept, texts) = choose|kept: Seq<bool>, texts: Seq<Seq<char>>|
            {
                &&& #[trigger] is_filtering(slice@, predicate, kept)
                &&& #[trigger] is_conversion(slice@, convert, kept, texts)
                &&& result@ == url_array(kept_texts(texts, kept))
            };
        assert forall|i: int| 0 <= i < kept.len() && kept[i] implies texts[i] == texts_of(
            slice@,
        )[i] by {
            assert(converts_to(convert, slice@[i], texts[i]));
        }
        lemma_kept_texts_agree(texts, texts_of(slice@), kept);
    }
    result
}

/// Writes the strings of `slice` as an array for a query.
pub fn to_url_array(slice: &[String]) -> (result: String)
    ensures
        result@ == url_array(texts_of(slice@)),
{
    let keep_all = |string: &String| -> (keep: bool)
        ensures
            keep,
        { true };
    let result = to_url_array_conditional(slice, keep_all);
    proof {
        let kept = choose|kept: Seq<bool>| #[trigger]
            is_filtering(slice@, keep_all, kept) && result@ == url_array(
                kept_texts(texts_of(slice@), kept),
            );
        lemma_kept_texts_all(texts_of(slice@), kept);
    }
    result
}

/// The lower-case hexadecimal digit for a value below sixteen.
pub open spec fn hex_digit(value: int) -> char {
    if value == 0 {
        '0'
    } else if value == 1 {
        '1'
    } else if value == 2 {
        '2'
    } else if value == 3 {
        '3'
    } else if value == 4 {
        '4'
    } else if value == 5 {
        '5'
    } else if value == 6 {
        '6'
    } else if value == 7 {
        '7'
    } else if value == 8 {
        '8'
    } else if value == 9 {
        '9'
    } else if value == 10 {
        'a'
    } else if value == 11 {
        'b'
    } else if value == 12 {
        'c'
    } else if value == 13 {
        'd'
    } else if value == 14 {
        'e'
    } else {
        'f'
    }
}

/// The bytes in lower-case hexadecimal: two digits for each byte, the high
/// half first.
pub open spec fn hex_string(bytes: Seq<u8>) -> Seq<char> {
    Seq::new(
        2 * bytes.len(),
        |i: int|
            if i % 2 == 0 {
                hex_digit(bytes[i / 2] as int / 16)
            } else {
                hex_digit(bytes[i / 2] as int % 16)
            },
    )
}

/// The lower-case hexadecimal digit for a value below sixteen, as a text.
fn hex_digit_text(value: u8) -> (text: &'static str)
    requires
        value < 16,
    ensures
        text@ == seq![hex_digit(value as int)],
{
    proof {
        reveal_strlit("0");
        reveal_strlit("1");
        reveal_strlit("2");
        reveal_strlit("3");
        reveal_strlit("4");
        reveal_strlit("5");
        reveal_strlit("6");
        reveal_strlit("7");
        reveal_strlit("8");
        reveal_strlit("9");
        reveal_strlit("a");
        reveal_strlit("b");
        reveal_strlit("c");
        reveal_strlit("d");
        reveal_strlit("e");
        reveal_strlit("f");
    }
    let text = if value == 0 {
        "0"
    } else if value == 1 {
        "1"
    } else if value == 2 {
        "2"
    } else if value == 3 {
        "3"
    } else if value == 4 {
        "4"
    } else if value == 5 {
        "5"
    } else if value == 6 {
        "6"
    } else if value == 7 {
        "7"
    } else if value == 8 {
        "8"
    } else if value == 9 {
        "9"
    } else if value == 10 {
        "a"
    } else if value == 11 {
        "b"
    } else if value == 12 {
        "c"
    } else if value == 13 {
        "d"
    } else if value == 14 {
        "e"
    } else {
        "f"
    };
    assert(text@ =~= seq![hex_digit(value as int)]);
    text
}

/// Writes bytes in lower-case hexadecimal, two digits for each byte.
pub fn bytes_to_hex_string(bytes: &[u8]) -> (result: String)
    ensures
        result@ == hex_string(bytes@),
{
    let mut result = String::new();
    let mut i: usize = 0;
    assert(result@ =~= hex_string(bytes@.take(0)));
    while i < bytes.len()
        invariant
            i <= bytes@.len(),
            result@ == hex_string(bytes@.take(i as int)),
        decreases bytes.len() - i,
    {
        let byte = bytes[i];
        let ghost before = result@;
        result.append(hex_digit_text(byte / 16));
        result.append(hex_digit_text(byte % 16));
        proof {
            let shorter = bytes@.take(i as int);
            let longer = bytes@.take(i + 1);
            assert(longer.len() == shorter.len() + 1);
            assert forall|k: int| 0 <= k < 2 * longer.len() implies (#[trigger] result@[k])
                == hex_string(longer)[k] by {
                if k < 2 * shorter.len() {
                    assert(result@[k] == before[k]);
                    assert(before[k] == hex_string(shorter)[k]);
                    assert(shorter[k / 2] == longer[k / 2]);
                } else {
                    assert(k / 2 == i);
                    assert(longer[k / 2] == byte);
                }
            }
            assert(result@ =~= hex_string(longer));
        }
        i += 1;
    }
    assert(bytes@.take(i as int) =~= bytes@);
    result
}

/// What a status code says of an exchange with the service: `None` for
/// success, a code from 200 to 299; else the error that it amounts to.
pub open spec fn status_error(status: StatusCode) -> Option<ErrorView> {
    if 200 <= status < 300 {
        None
    } else if 500 <= status < 600 {
        Some(ErrorView::HttpApi(status))
    } else if 400 <= status < 500 {
        Some(ErrorView::HttpClient(status))
    } else {
        Some(ErrorView::HttpUnknown(status))
    }
}

/// Sorts the status code of an answer: success lets the body through, a
/// code from 500 to 599 is a failure of the service, one from 400 to 499 a
/// request that it turned down, and any other code is unknown.
pub fn check_status(status: StatusCode) -> (result: Result<(), SponsorBlockError>)
    ensures
        match result {
            Ok(_) => status_error(status) is None,
            Err(error) => status_error(status) == Some(error@),
        },
{
    if 200 <= status && status < 300 {
        Ok(())
    } else if 500 <= status && status < 600 {
        Err(SponsorBlockError::HttpApi(status))
    } else if 400 <= status && status < 500 {
        Err(SponsorBlockError::HttpClient(status))
    } else {
        Err(SponsorBlockError::HttpUnknown(status))
    }
}

/// Hands out the body of an answer with a status of success, and the error
/// that the status amounts to for any other.
pub fn get_response_text(status: StatusCode, body: String) -> (result: Result<
    String,
    SponsorBlockError,
>)
    ensures
        match result {
            Ok(text) => status_error(status) is None && text == body,
            Err(error) => status_error(status) == Some(error@),
        },
{
    match check_status(status) {
        Ok(_) => Ok(body),
        Err(error) => Err(error),
    }
}

/// A text without the slashes that it ends in.
pub open spec fn without_trailing_slashes(text: Seq<char>) -> Seq<char>
    decreases text.len(),
{
    if text.len() > 0 && text.last() == '/' {
        without_trailing_slashes(text.drop_last())
    } else {
        text
    }
}

/// Takes every slash off the end of a text.
pub fn trim_trailing_slashes(text: &str) -> (trimmed: String)
    ensures
        trimmed@ == without_trailing_slashes(text@),
{
    let mut end: usize = text.unicode_len();
    assert(text@.take(end as int) =~= text@);
    loop
        invariant
            end <= text@.len(),
            without_trailing_slashes(text@) == without_trailing_slashes(text@.take(end as int)),
        ensures
            end <= text@.len(),
            without_trailing_slashes(text@) == text@.take(end as int),
        decreases end,
    {
        if end == 0 {
            break ;
        }
        if text.get_char(end - 1) != '/' {
            break ;
        }
        assert(text@.take(end as int).drop_last() =~= text@.take(end - 1));
        end -= 1;
    }
    let kept = text.substring_char(0, end);
    assert(text@.subrange(0, end as int) =~= text@.take(end as int));
    String::from_str(kept)
}

} // verus!
