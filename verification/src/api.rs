//! The service's vocabulary: the tokens it uses on the wire and the values
//! they stand for.

use vstd::prelude::*;
use vstd::string::*;
use crate::error::UnknownValueError;
use crate::segment::action::{AcceptedActions, ActionKind, ACTION_COUNT};
use crate::segment::category::{AcceptedCategories, Category, CATEGORY_COUNT};
use crate::util::{
    is_conversion, is_filtering, kept_texts, lemma_filter_keeps_order, lemma_kept_texts_all,
    lemma_kept_texts_is_filter, lemma_kept_texts_none, lemma_kept_texts_one,
    lemma_selection_is_filter, quoted, str_eq, to_url_array_conditional_convert, url_array,
};

verus! {

/// The token for sponsors.
pub const SPONSOR_NAME: &'static str = "sponsor";

/// The token for unpaid promotion and self-promotion.
pub const UNPAID_SELF_PROMOTION_NAME: &'static str = "selfpromo";

/// The token for reminders to interact.
pub const INTERACTION_REMINDER_NAME: &'static str = "interaction";

/// The token for highlights.
pub const HIGHLIGHT_NAME: &'static str = "poi_highlight";

/// The token for intermissions and intro animations.
pub const INTERMISSION_INTRO_ANIMATION_NAME: &'static str = "intro";

/// The token for endcards and credits.
pub const ENDCARDS_CREDITS_NAME: &'static str = "outro";

/// The token for previews and recaps.
pub const PREVIEW_RECAP_NAME: &'static str = "preview";

/// The token for the parts of a music video without music.
pub const NON_MUSIC_NAME: &'static str = "music_offtopic";

/// The token for filler.
pub const FILLER_TANGENT_NAME: &'static str = "filler";

/// The token for exclusive access.
pub const EXCLUSIVE_ACCESS_NAME: &'static str = "exclusive_access";

/// The token for skipping.
pub const ACTION_SKIP_NAME: &'static str = "skip";

/// The token for muting.
pub const ACTION_MUTE_NAME: &'static str = "mute";

/// The token for points of interest.
pub const ACTION_POINT_OF_INTEREST_NAME: &'static str = "poi";

/// The token for labels of a whole video.
pub const ACTION_FULL_VIDEO_NAME: &'static str = "full";

/// The name of the field that holds a category token.
pub const CATEGORY_FIELD: &'static str = "category";

/// The name of the field that holds an action token.
pub const ACTION_TYPE_FIELD: &'static str = "actionType";

/// The token that stands for a category.
pub open spec fn category_name(category: Category) -> Seq<char> {
    match category {
        Category::Sponsor => SPONSOR_NAME@,
        Category::UnpaidSelfPromotion => UNPAID_SELF_PROMOTION_NAME@,
        Category::InteractionReminder => INTERACTION_REMINDER_NAME@,
        Category::Highlight => HIGHLIGHT_NAME@,
        Category::IntermissionIntroAnimation => INTERMISSION_INTRO_ANIMATION_NAME@,
        Category::EndcardsCredits => ENDCARDS_CREDITS_NAME@,
        Category::PreviewRecap => PREVIEW_RECAP_NAME@,
        Category::NonMusic => NON_MUSIC_NAME@,
        Category::FillerTangent => FILLER_TANGENT_NAME@,
        Category::ExclusiveAccess => EXCLUSIVE_ACCESS_NAME@,
    }
}

/// The token that stands for a kind of action.
pub open spec fn action_name(kind: ActionKind) -> Seq<char> {
    match kind {
        ActionKind::Skip => ACTION_SKIP_NAME@,
        ActionKind::Mute => ACTION_MUTE_NAME@,
        ActionKind::PointOfInterest => ACTION_POINT_OF_INTEREST_NAME@,
        ActionKind::FullVideo => ACTION_FULL_VIDEO_NAME@,
    }
}

/// The category that a token stands for, if it stands for one. Tokens match
/// exactly: no case is folded and no space trimmed.
pub open spec fn category_named(token: Seq<char>) -> Option<Category> {
    if exists|category: Category| category_name(category) == token {
        Some(choose|category: Category| category_name(category) == token)
    } else {
        None
    }
}

/// The kind of action that a token stands for, if it stands for one.
pub open spec fn action_named(token: Seq<char>) -> Option<ActionKind> {
    if exists|kind: ActionKind| action_name(kind) == token {
        Some(choose|kind: ActionKind| action_name(kind) == token)
    } else {
        None
    }
}

/// No two categories share a token.
pub proof fn lemma_category_names_distinct(first: Category, second: Category)
    ensures
        category_name(first) == category_name(second) <==> first == second,
{
    reveal_strlit("sponsor");
    reveal_strlit("selfpromo");
    reveal_strlit("interaction");
    reveal_strlit("poi_highlight");
    reveal_strlit("intro");
    reveal_strlit("outro");
    reveal_strlit("preview");
    reveal_strlit("music_offtopic");
    reveal_strlit("filler");
    reveal_strlit("exclusive_access");
    if first != second && category_name(first).len() == category_name(second).len() {
        assert(category_name(first)[0] != category_name(second)[0]);
    }
}

/// No two kinds of action share a token.
pub proof fn lemma_action_names_distinct(first: ActionKind, second: ActionKind)
    ensures
        action_name(first) == action_name(second) <==> first == second,
{
    reveal_strlit("skip");
    reveal_strlit("mute");
    reveal_strlit("poi");
    reveal_strlit("full");
    if first != second && action_name(first).len() == action_name(second).len() {
        assert(action_name(first)[0] != action_name(second)[0]);
    }
}

/// Reading the token of a category gives the category back.
pub proof fn lemma_category_round_trip(category: Category)
    ensures
        category_named(category_name(category)) == Some(category),
{
    let token = category_name(category);
    let found = choose|other: Category| category_name(other) == token;
    lemma_category_names_distinct(found, category);
}

/// Reading the token of a kind of action gives the kind back.
pub proof fn lemma_action_round_trip(kind: ActionKind)
    ensures
        action_named(action_name(kind)) == Some(kind),
{
    let token = action_name(kind);
    let found = choose|other: ActionKind| action_name(other) == token;
    lemma_action_names_distinct(found, kind);
}

/// A token that stands for a category is that category's token.
pub proof fn lemma_category_named_is_name(token: Seq<char>)
    ensures
        category_named(token) matches Some(category) ==> category_name(category) == token,
{
}

/// A token that stands for a kind of action is that kind's token.
pub proof fn lemma_action_named_is_name(token: Seq<char>)
    ensures
        action_named(token) matches Some(kind) ==> action_name(kind) == token,
{
}

/// The token that stands for a category.
pub fn category_to_name(category: Category) -> (name: &'static str)
    ensures
        name@ == category_name(category),
        category_named(name@) == Some(category),
{
    proof {
        lemma_category_round_trip(category);
    }
    match category {
        Category::Sponsor => SPONSOR_NAME,
        Category::UnpaidSelfPromotion => UNPAID_SELF_PROMOTION_NAME,
        Category::InteractionReminder => INTERACTION_REMINDER_NAME,
        Category::Highlight => HIGHLIGHT_NAME,
        Category::IntermissionIntroAnimation => INTERMISSION_INTRO_ANIMATION_NAME,
        Category::EndcardsCredits => ENDCARDS_CREDITS_NAME,
        Category::PreviewRecap => PREVIEW_RECAP_NAME,
        Category::NonMusic => NON_MUSIC_NAME,
        Category::FillerTangent => FILLER_TANGENT_NAME,
        Category::ExclusiveAccess => EXCLUSIVE_ACCESS_NAME,
    }
}

/// The token that stands for a kind of action.
pub fn action_to_name(kind: ActionKind) -> (name: &'static str)
    ensures
        name@ == action_name(kind),
        action_named(name@) == Some(kind),
{
    proof {
        lemma_action_round_trip(kind);
    }
    match kind {
        ActionKind::Skip => ACTION_SKIP_NAME,
        ActionKind::Mute => ACTION_MUTE_NAME,
        ActionKind::PointOfInterest => ACTION_POINT_OF_INTEREST_NAME,
        ActionKind::FullVideo => ACTION_FULL_VIDEO_NAME,
    }
}

/// Reads a category token. A token outside the vocabulary is handed back in
/// the error, under the field name `category`.
pub fn convert_to_segment_kind(category: &str) -> (result: Result<Category, UnknownValueError>)
    ensures
        match result {
            Ok(found) => category_named(category@) == Some(found),
            Err(unknown) => category_named(category@) is None && unknown.kind@ == CATEGORY_FIELD@
                && unknown.value@ == category@,
        },
{
    let mut index: usize = 0;
    while index < CATEGORY_COUNT
        invariant
            index <= CATEGORY_COUNT,
            forall|other: Category|
                other.spec_index() < index ==> category_name(other) != category@,
        decreases CATEGORY_COUNT - index,
    {
        let candidate = Category::from_index(index).unwrap();
        if str_eq(category, category_to_name(candidate)) {
            proof {
                lemma_category_round_trip(candidate);
            }
            return Ok(candidate);
        }
        index += 1;
    }
    Err(UnknownValueError { kind: CATEGORY_FIELD.to_owned(), value: category.to_owned() })
}

/// Reads an action token. A token outside the vocabulary is handed back in
/// the error, under the field name `actionType`.
pub fn convert_to_action_type(action_type: &str) -> (result: Result<
    ActionKind,
    UnknownValueError,
>)
    ensures
        match result {
            Ok(found) => action_named(action_type@) == Some(found),
            Err(unknown) => action_named(action_type@) is None && unknown.kind@
                == ACTION_TYPE_FIELD@ && unknown.value@ == action_type@,
        },
{
    let mut index: usize = 0;
    while index < ACTION_COUNT
        invariant
            index <= ACTION_COUNT,
            forall|other: ActionKind|
                other.spec_index() < index ==> action_name(other) != action_type@,
        decreases ACTION_COUNT - index,
    {
        let candidate = ActionKind::from_index(index).unwrap();
        if str_eq(action_type, action_to_name(candidate)) {
            proof {
                lemma_action_round_trip(candidate);
            }
            return Ok(candidate);
        }
        index += 1;
    }
    Err(UnknownValueError { kind: ACTION_TYPE_FIELD.to_owned(), value: action_type.to_owned() })
}

/// The categories in canonical order.
pub open spec fn canonical_categories() -> Seq<Category> {
    Seq::new(CATEGORY_COUNT as nat, |index: int| Category::spec_from_index(index as nat).unwrap())
}

/// The kinds of action in canonical order.
pub open spec fn canonical_actions() -> Seq<ActionKind> {
    Seq::new(ACTION_COUNT as nat, |index: int| ActionKind::spec_from_index(index as nat).unwrap())
}

/// The tokens of the categories in `accepted`, in canonical order.
pub open spec fn accepted_category_names(accepted: Set<Category>) -> Seq<Seq<char>> {
    canonical_categories().filter(|category: Category| accepted.contains(category)).map_values(
        |category: Category| category_name(category),
    )
}

/// The tokens of the kinds of action in `accepted`, in canonical order.
pub open spec fn accepted_action_names(accepted: Set<ActionKind>) -> Seq<Seq<char>> {
    canonical_actions().filter(|kind: ActionKind| accepted.contains(kind)).map_values(
        |kind: ActionKind| action_name(kind),
    )
}

/// The categories in canonical order.
pub fn canonical_category_list() -> (list: Vec<Category>)
    ensures
        list@ == canonical_categories(),
{
    let mut list: Vec<Category> = Vec::new();
    let mut index: usize = 0;
    while index < CATEGORY_COUNT
        invariant
            index <= CATEGORY_COUNT,
            list@.len() == index,
            forall|i: int| 0 <= i < index ==> list@[i] == canonical_categories()[i],
        decreases CATEGORY_COUNT - index,
    {
        list.push(Category::from_index(index).unwrap());
        index += 1;
    }
    assert(list@ =~= canonical_categories());
    list
}

/// The kinds of action in canonical order.
pub fn canonical_action_list() -> (list: Vec<ActionKind>)
    ensures
        list@ == canonical_actions(),
{
    let mut list: Vec<ActionKind> = Vec::new();
    let mut index: usize = 0;
    while index < ACTION_COUNT
        invariant
            index <= ACTION_COUNT,
            list@.len() == index,
            forall|i: int| 0 <= i < index ==> list@[i] == canonical_actions()[i],
        decreases ACTION_COUNT - index,
    {
        list.push(ActionKind::from_index(index).unwrap());
        index += 1;
    }
    assert(list@ =~= canonical_actions());
    list
}

/// Writes a set of categories as the service expects it in a query: the
/// tokens of the categories in the set, in canonical order, as an array.
pub fn convert_category_bitflags_to_url(accepted_categories: AcceptedCategories) -> (result: String)
    ensures
        result@ == url_array(accepted_category_names(accepted_categories@)),
{
    let categories = canonical_category_list();
    let predicate = |category: &Category| -> (keep: bool)
        ensures
            keep == accepted_categories@.contains(*category),
        { accepted_categories.accepts(*category) };
    let convert = |category: &Category| -> (name: &'static str)
        ensures
            name@ == category_name(*category),
        { category_to_name(*category) };
    let result = to_url_array_conditional_convert(categories.as_slice(), predicate, convert);
    proof {
        let items = canonical_categories();
        let keep = |category: Category| accepted_categories@.contains(category);
        let text = |category: Category| category_name(category);
        let (kept, texts) = choose|kept: Seq<bool>, texts: Seq<Seq<char>>|
            {
                &&& #[trigger] is_filtering(items, predicate, kept)
                &&& #[trigger] is_conversion(items, convert, kept, texts)
                &&& result@ == url_array(kept_texts(texts, kept))
            };
        lemma_selection_is_filter(items, predicate, convert, kept, texts, keep, text);
    }
    result
}

/// Writes a set of kinds of action as the service expects it in a query: the
/// tokens of the kinds in the set, in canonical order, as an array.
pub fn convert_action_bitflags_to_url(accepted_actions: AcceptedActions) -> (result: String)
    ensures
        result@ == url_array(accepted_action_names(accepted_actions@)),
{
    let kinds = canonical_action_list();
    let predicate = |kind: &ActionKind| -> (keep: bool)
        ensures
            keep == accepted_actions@.contains(*kind),
        { accepted_actions.accepts(*kind) };
    let convert = |kind: &ActionKind| -> (name: &'static str)
        ensures
            name@ == action_name(*kind),
        { action_to_name(*kind) };
    let result = to_url_array_conditional_convert(kinds.as_slice(), predicate, convert);
    proof {
        let items = canonical_actions();
        let keep = |kind: ActionKind| accepted_actions@.contains(kind);
        let text = |kind: ActionKind| action_name(kind);
        let (kept, texts) = choose|kept: Seq<bool>, texts: Seq<Seq<char>>|
            {
                &&& #[trigger] is_filtering(items, predicate, kept)
                &&& #[trigger] is_conversion(items, convert, kept, texts)
                &&& result@ == url_array(kept_texts(texts, kept))
            };
        lemma_selection_is_filter(items, predicate, convert, kept, texts, keep, text);
    }
    result
}

/// The array of no text is a pair of square brackets.
pub proof fn lemma_url_array_of_nothing()
    ensures
        url_array(Seq::empty()) == "[]"@,
{
    reveal_strlit("[]");
    assert(url_array(Seq::empty()) =~= "[]"@);
}

/// The categories of `accepted`, in canonical order.
pub open spec fn accepted_categories_in_order(accepted: Set<Category>) -> Seq<Category> {
    canonical_categories().filter(|category: Category| accepted.contains(category))
}

/// The kinds of action of `accepted`, in canonical order.
pub open spec fn accepted_actions_in_order(accepted: Set<ActionKind>) -> Seq<ActionKind> {
    canonical_actions().filter(|kind: ActionKind| accepted.contains(kind))
}

/// Whatever the set, what is written is the token of each of its categories
/// and of no other, each once, in canonical order.
pub proof fn lemma_accepted_categories_encoded(accepted: Set<Category>)
    ensures
        accepted_category_names(accepted) == accepted_categories_in_order(accepted).map_values(
            |category: Category| category_name(category),
        ),
        forall|category: Category| #[trigger]
            accepted_categories_in_order(accepted).contains(category) <==> accepted.contains(
                category,
            ),
        forall|i: int, j: int|
            0 <= i < j < accepted_categories_in_order(accepted).len() ==> (
            #[trigger] accepted_categories_in_order(accepted)[i]).spec_index() < (
            #[trigger] accepted_categories_in_order(accepted)[j]).spec_index(),
        accepted_category_names(accepted).no_duplicates(),
{
    let items = canonical_categories();
    let keep = |category: Category| accepted.contains(category);
    let key = |category: Category| category.spec_index() as int;
    assert forall|i: int, j: int| 0 <= i < j < items.len() implies key(items[i]) < key(
        items[j],
    ) by {}
    lemma_filter_keeps_order(items, keep, key);
    let chosen = items.filter(keep);
    assert forall|category: Category| #[trigger]
        chosen.contains(category) <==> accepted.contains(category) by {
        assert(items[category.spec_index() as int] == category);
        assert(items.contains(category));
    }
    assert forall|i: int, j: int| 0 <= i < j < chosen.len() implies (
    #[trigger] chosen[i]).spec_index() < (#[trigger] chosen[j]).spec_index() by {
        assert(key(chosen[i]) < key(chosen[j]));
    }
    let names = accepted_category_names(accepted);
    assert forall|i: int, j: int|
        0 <= i < names.len() && 0 <= j < names.len() && i != j implies names[i] != names[j] by {
        if i < j {
            assert(chosen[i].spec_index() < chosen[j].spec_index());
        } else {
            assert(chosen[j].spec_index() < chosen[i].spec_index());
        }
        lemma_category_names_distinct(chosen[i], chosen[j]);
    }
}

/// Whatever the set, what is written is the token of each of its kinds of
/// action and of no other, each once, in canonical order.
pub proof fn lemma_accepted_actions_encoded(accepted: Set<ActionKind>)
    ensures
        accepted_action_names(accepted) == accepted_actions_in_order(accepted).map_values(
            |kind: ActionKind| action_name(kind),
        ),
        forall|kind: ActionKind| #[trigger]
            accepted_actions_in_order(accepted).contains(kind) <==> accepted.contains(kind),
        forall|i: int, j: int|
            0 <= i < j < accepted_actions_in_order(accepted).len() ==> (
            #[trigger] accepted_actions_in_order(accepted)[i]).spec_index() < (
            #[trigger] accepted_actions_in_order(accepted)[j]).spec_index(),
        accepted_action_names(accepted).no_duplicates(),
{
    let items = canonical_actions();
    let keep = |kind: ActionKind| accepted.contains(kind);
    let key = |kind: ActionKind| kind.spec_index() as int;
    assert forall|i: int, j: int| 0 <= i < j < items.len() implies key(items[i]) < key(
        items[j],
    ) by {}
    lemma_filter_keeps_order(items, keep, key);
    let chosen = items.filter(keep);
    assert forall|kind: ActionKind| #[trigger]
        chosen.contains(kind) <==> accepted.contains(kind) by {
        assert(items[kind.spec_index() as int] == kind);
        assert(items.contains(kind));
    }
    assert forall|i: int, j: int| 0 <= i < j < chosen.len() implies (
    #[trigger] chosen[i]).spec_index() < (#[trigger] chosen[j]).spec_index() by {
        assert(key(chosen[i]) < key(chosen[j]));
    }
    let names = accepted_action_names(accepted);
    assert forall|i: int, j: int|
        0 <= i < names.len() && 0 <= j < names.len() && i != j implies names[i] != names[j] by {
        if i < j {
            assert(chosen[i].spec_index() < chosen[j].spec_index());
        } else {
            assert(chosen[j].spec_index() < chosen[i].spec_index());
        }
        lemma_action_names_distinct(chosen[i], chosen[j]);
    }
}

/// The full set of categories is written as every category token, once each,
/// in canonical order.
pub proof fn lemma_all_categories_encoded(accepted: Set<Category>)
    requires
        forall|category: Category| accepted.contains(category),
    ensures
        accepted_category_names(accepted) == canonical_categories().map_values(
            |category: Category| category_name(category),
        ),
        accepted_category_names(accepted).len() == CATEGORY_COUNT,
        accepted_category_names(accepted).no_duplicates(),
{
    let items = canonical_categories();
    let keep = |category: Category| accepted.contains(category);
    let text = |category: Category| category_name(category);
    lemma_kept_texts_is_filter(items, keep, text);
    lemma_kept_texts_all(items.map_values(text), items.map_values(keep));
    let names = items.map_values(text);
    assert forall|i: int, j: int|
        0 <= i < names.len() && 0 <= j < names.len() && i != j implies names[i] != names[j] by {
        lemma_category_names_distinct(items[i], items[j]);
    }
}

/// The empty set of categories is written as `[]`.
pub proof fn lemma_no_category_encoded(accepted: Set<Category>)
    requires
        forall|category: Category| !accepted.contains(category),
    ensures
        accepted_category_names(accepted) == Seq::<Seq<char>>::empty(),
        url_array(accepted_category_names(accepted)) == "[]"@,
{
    let items = canonical_categories();
    let keep = |category: Category| accepted.contains(category);
    let text = |category: Category| category_name(category);
    lemma_kept_texts_is_filter(items, keep, text);
    lemma_kept_texts_none(items.map_values(text), items.map_values(keep));
    lemma_url_array_of_nothing();
}

/// A set of one category is written as an array of that category's token
/// alone.
pub proof fn lemma_single_category_encoded(accepted: Set<Category>, only: Category)
    requires
        forall|category: Category| accepted.contains(category) <==> category == only,
    ensures
        accepted_category_names(accepted) == seq![category_name(only)],
        url_array(accepted_category_names(accepted)) == seq!['['] + quoted(category_name(only))
            + seq![']'],
{
    let items = canonical_categories();
    let keep = |category: Category| accepted.contains(category);
    let text = |category: Category| category_name(category);
    lemma_kept_texts_is_filter(items, keep, text);
    let position = only.spec_index() as int;
    assert(items[position] == only);
    assert forall|i: int| 0 <= i < items.len() implies (items.map_values(keep)[i] <==> i
        == position) by {
        assert(items[i].spec_index() == i);
    }
    lemma_kept_texts_one(items.map_values(text), items.map_values(keep), position);
}

/// The full set of kinds of action is written as every action token, once
/// each, in canonical order.
pub proof fn lemma_all_actions_encoded(accepted: Set<ActionKind>)
    requires
        forall|kind: ActionKind| accepted.contains(kind),
    ensures
        accepted_action_names(accepted) == canonical_actions().map_values(
            |kind: ActionKind| action_name(kind),
        ),
        accepted_action_names(accepted).len() == ACTION_COUNT,
        accepted_action_names(accepted).no_duplicates(),
{
    let items = canonical_actions();
    let keep = |kind: ActionKind| accepted.contains(kind);
    let text = |kind: ActionKind| action_name(kind);
    lemma_kept_texts_is_filter(items, keep, text);
    lemma_kept_texts_all(items.map_values(text), items.map_values(keep));
    let names = items.map_values(text);
    assert forall|i: int, j: int|
        0 <= i < names.len() && 0 <= j < names.len() && i != j implies names[i] != names[j] by {
        lemma_action_names_distinct(items[i], items[j]);
    }
}

/// The empty set of kinds of action is written as `[]`.
pub proof fn lemma_no_action_encoded(accepted: Set<ActionKind>)
    requires
        forall|kind: ActionKind| !accepted.contains(kind),
    ensures
        accepted_action_names(accepted) == Seq::<Seq<char>>::empty(),
        url_array(accepted_action_names(accepted)) == "[]"@,
{
    let items = canonical_actions();
    let keep = |kind: ActionKind| accepted.contains(kind);
    let text = |kind: ActionKind| action_name(kind);
    lemma_kept_texts_is_filter(items, keep, text);
    lemma_kept_texts_none(items.map_values(text), items.map_values(keep));
    lemma_url_array_of_nothing();
}

/// A set of one kind of action is written as an array of that kind's token
/// alone.
pub proof fn lemma_single_action_encoded(accepted: Set<ActionKind>, only: ActionKind)
    requires
        forall|kind: ActionKind| accepted.contains(kind) <==> kind == only,
    ensures
        accepted_action_names(accepted) == seq![action_name(only)],
        url_array(accepted_action_names(accepted)) == seq!['['] + quoted(action_name(only))
            + seq![']'],
{
    let items = canonical_actions();
    let keep = |kind: ActionKind| accepted.contains(kind);
    let text = |kind: ActionKind| action_name(kind);
    lemma_kept_texts_is_filter(items, keep, text);
    let position = only.spec_index() as int;
    assert(items[position] == only);
    assert forall|i: int| 0 <= i < items.len() implies (items.map_values(keep)[i] <==> i
        == position) by {
        assert(items[i].spec_index() == i);
    }
    lemma_kept_texts_one(items.map_values(text), items.map_values(keep), position);
}

} // verus!
