use sponsor_block::util::{to_url_array, to_url_array_conditional, to_url_array_conditional_convert};

fn strings(texts: &[&str]) -> Vec<String> {
    texts.iter().map(|text| text.to_string()).collect()
}

#[test]
fn array_of_nothing() {
    assert_eq!(to_url_array(&[]), "[]");
}

#[test]
fn array_of_one() {
    assert_eq!(to_url_array(&strings(&["abc"])), "[\"abc\"]");
}

#[test]
fn array_of_several_keeps_the_order() {
    assert_eq!(to_url_array(&strings(&["b", "a", "c"])), "[\"b\",\"a\",\"c\"]");
}

#[test]
fn texts_are_written_as_they_are() {
    assert_eq!(to_url_array(&strings(&["", "a,b", "say \"hi\""])), "[\"\",\"a,b\",\"say \"hi\"\"]");
}

#[test]
fn conditional_keeps_what_the_predicate_keeps() {
    let all = strings(&["one", "two", "three", "four"]);
    assert_eq!(
        to_url_array_conditional(&all, |text: &String| text.len() == 3),
        "[\"one\",\"two\"]"
    );
    assert_eq!(to_url_array_conditional(&all, |_: &String| false), "[]");
    assert_eq!(
        to_url_array_conditional(&all, |_: &String| true),
        "[\"one\",\"two\",\"three\",\"four\"]"
    );
    assert_eq!(
        to_url_array_conditional(&all, |text: &String| text.starts_with('f')),
        "[\"four\"]"
    );
}

#[test]
fn conditional_convert_filters_and_maps() {
    let pairs: Vec<(u32, &str)> = vec![(1, "one"), (2, "two"), (3, "three"), (4, "four")];
    assert_eq!(
        to_url_array_conditional_convert(
            &pairs[..],
            |pair: &(u32, &str)| pair.0 % 2 == 0,
            |pair: &(u32, &str)| pair.1
        ),
        "[\"two\",\"four\"]"
    );
    assert_eq!(
        to_url_array_conditional_convert(
            &pairs[..],
            |pair: &(u32, &str)| pair.0 == 1,
            |pair: &(u32, &str)| pair.1
        ),
        "[\"one\"]"
    );
    assert_eq!(
        to_url_array_conditional_convert(
            &pairs[..],
            |pair: &(u32, &str)| pair.0 > 4,
            |pair: &(u32, &str)| pair.1
        ),
        "[]"
    );
}

#[test]
fn comma_comes_only_between_kept_items() {
    let pairs: Vec<(bool, &str)> = vec![(false, "a"), (true, "b"), (false, "c"), (true, "d"), (false, "e")];
    assert_eq!(
        to_url_array_conditional_convert(
            &pairs[..],
            |pair: &(bool, &str)| pair.0,
            |pair: &(bool, &str)| pair.1
        ),
        "[\"b\",\"d\"]"
    );
}
