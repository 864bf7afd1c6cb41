//! How a user's segments spread over the categories and the kinds of action.

use vstd::prelude::*;
use vstd::string::*;
use crate::client::{ClientBuilder, Request, RequestView};
use crate::api::{
    action_named, category_named, convert_to_action_type, convert_to_segment_kind,
};
use crate::client::user::user_info::{chosen_user_name, normalize_user_name};
use crate::segment::action::{ActionKind, ACTION_COUNT};
use crate::segment::category::{Category, CATEGORY_COUNT};
use crate::util::de::{
    converted_entries, is_key_conversion, lemma_key_conversion_is_function,
    map_hashmap_key_from_str,
};

verus! {

/// The counts that a sequence of entries leaves behind, entry by entry: a
/// later entry for a key takes the place of an earlier one.
pub open spec fn counts_of<K>(entries: Seq<(K, u32)>) -> Map<K, u32>
    decreases entries.len(),
{
    if entries.len() == 0 {
        Map::empty()
    } else {
        counts_of(entries.drop_last()).insert(entries.last().0, entries.last().1)
    }
}

/// The counts per category that a map of the service stands for. Its keys
/// are category tokens; an entry under any other key is left out.
pub open spec fn category_counts(raw: Seq<(String, u32)>) -> Map<Category, u32>
    decreases raw.len(),
{
    if raw.len() == 0 {
        Map::empty()
    } else {
        let earlier = category_counts(raw.drop_last());
        match category_named(raw.last().0@) {
            Some(category) => earlier.insert(category, raw.last().1),
            None => earlier,
        }
    }
}

/// The counts per kind of action that a map of the service stands for. Its
/// keys are action tokens; an entry under any other key is left out.
pub open spec fn action_counts(raw: Seq<(String, u32)>) -> Map<ActionKind, u32>
    decreases raw.len(),
{
    if raw.len() == 0 {
        Map::empty()
    } else {
        let earlier = action_counts(raw.drop_last());
        match action_named(raw.last().0@) {
            Some(kind) => earlier.insert(kind, raw.last().1),
            None => earlier,
        }
    }
}

/// Whether `partial` holds of `key` what `whole` holds of it where the
/// position of the key is below `bound`, and nothing where it is not.
pub open spec fn known_up_to<K>(
    partial: Map<K, u32>,
    whole: Map<K, u32>,
    key: K,
    position: int,
    bound: int,
) -> bool {
    &&& partial.contains_key(key) <==> (position < bound && whole.contains_key(key))
    &&& partial.contains_key(key) ==> partial[key] == whole[key]
}

/// A count for some of the categories.
#[derive(Clone, Debug, PartialEq, Eq)]
pub struct CategoryCounts {
    slots: [Option<u32>; 10],
}

impl View for CategoryCounts {
    type V = Map<Category, u32>;

    closed spec fn view(&self) -> Map<Category, u32> {
        Map::new(
            |category: Category| self.slots@[category.spec_index() as int] is Some,
            |category: Category| self.slots@[category.spec_index() as int]->0,
        )
    }
}

impl CategoryCounts {
    /// Counts for no category.
    pub fn new() -> (counts: Self)
        ensures
            counts@ == Map::<Category, u32>::empty(),
    {
        let slots: [Option<u32>; 10] = [None; 10];
        let counts = CategoryCounts { slots };
        assert(counts@ =~= Map::<Category, u32>::empty());
        counts
    }

    /// Sets the count for a category, in place of any earlier one.
    pub fn insert(&mut self, category: Category, count: u32)
        ensures
            final(self)@ == old(self)@.insert(category, count),
    {
        let index = category.index();
        self.slots[index] = Some(count);
        assert(final(self)@ =~= old(self)@.insert(category, count));
    }

    /// The count for a category, if there is one.
    pub fn get(&self, category: Category) -> (count: Option<u32>)
        ensures
            count == (if self@.contains_key(category) {
                Some(self@[category])
            } else {
                None
            }),
    {
        self.slots[category.index()]
    }

    /// The counts that the entries leave behind, taken in their order.
    pub fn from_entries(entries: Vec<(Category, u32)>) -> (counts: Self)
        ensures
            counts@ == counts_of(entries@),
    {
        let mut counts = CategoryCounts::new();
        let mut index: usize = 0;
        while index < entries.len()
            invariant
                index <= entries@.len(),
                counts@ == counts_of(entries@.take(index as int)),
            decreases entries.len() - index,
        {
            assert(entries@.take(index + 1).drop_last() =~= entries@.take(index as int));
            counts.insert(entries[index].0, entries[index].1);
            index += 1;
        }
        assert(entries@.take(index as int) =~= entries@);
        counts
    }

    /// The categories that have a count, each with its count, in canonical
    /// order.
    pub fn entries(&self) -> (entries: Vec<(Category, u32)>)
        ensures
            counts_of(entries@) == self@,
            forall|i: int, j: int|
                0 <= i < j < entries@.len() ==> entries@[i].0.spec_index()
                    < entries@[j].0.spec_index(),
    {
        let mut entries: Vec<(Category, u32)> = Vec::new();
        let mut index: usize = 0;
        while index < CATEGORY_COUNT
            invariant
                index <= CATEGORY_COUNT,
                self.slots@.len() == CATEGORY_COUNT,
                forall|i: int|
                    0 <= i < entries@.len() ==> (#[trigger] entries@[i]).0.spec_index() < index,
                forall|i: int, j: int|
                    0 <= i < j < entries@.len() ==> entries@[i].0.spec_index()
                        < entries@[j].0.spec_index(),
                forall|category: Category| #[trigger]
                    known_up_to(
                        counts_of(entries@),
                        self@,
                        category,
                        category.spec_index() as int,
                        index as int,
                    ),
            decreases CATEGORY_COUNT - index,
        {
            let category = Category::from_index(index).unwrap();
            let ghost before = entries@;
            if let Some(count) = self.slots[index] {
                entries.push((category, count));
                assert(entries@.drop_last() =~= before);
            }
            assert forall|other: Category| #[trigger]
                known_up_to(
                    counts_of(entries@),
                    self@,
                    other,
                    other.spec_index() as int,
                    index + 1,
                ) by {
                assert(known_up_to(
                    counts_of(before),
                    self@,
                    other,
                    other.spec_index() as int,
                    index as int,
                ));
                if other.spec_index() == index {
                    assert(other == category);
                }
            }
            index += 1;
        }
        assert forall|key: Category|
            #![trigger counts_of(entries@).dom().contains(key)]
            #![trigger self@.dom().contains(key)]
            counts_of(entries@).contains_key(key) == self@.contains_key(key) && (counts_of(
                entries@,
            ).contains_key(key) ==> counts_of(entries@)[key] == self@[key]) by {
            assert(known_up_to(
                counts_of(entries@),
                self@,
                key,
                key.spec_index() as int,
                CATEGORY_COUNT as int,
            ));
        }
        assert(counts_of(entries@) =~= self@);
        entries
    }
}

/// A count for some of the kinds of action.
#[derive(Clone, Debug, PartialEq, Eq)]
pub struct ActionCounts {
    slots: [Option<u32>; 4],
}

impl View for ActionCounts {
    type V = Map<ActionKind, u32>;

    closed spec fn view(&self) -> Map<ActionKind, u32> {
        Map::new(
            |kind: ActionKind| self.slots@[kind.spec_index() as int] is Some,
            |kind: ActionKind| self.slots@[kind.spec_index() as int]->0,
        )
    }
}

impl ActionCounts {
    /// Counts for no kind of action.
    pub fn new() -> (counts: Self)
        ensures
            counts@ == Map::<ActionKind, u32>::empty(),
    {
        let slots: [Option<u32>; 4] = [None; 4];
        let counts = ActionCounts { slots };
        assert(counts@ =~= Map::<ActionKind, u32>::empty());
        counts
    }

    /// Sets the count for a kind of action, in place of any earlier one.
    pub fn insert(&mut self, kind: ActionKind, count: u32)
        ensures
            final(self)@ == old(self)@.insert(kind, count),
    {
        let index = kind.index();
        self.slots[index] = Some(count);
        assert(final(self)@ =~= old(self)@.insert(kind, count));
    }

    /// The count for a kind of action, if there is one.
    pub fn get(&self, kind: ActionKind) -> (count: Option<u32>)
        ensures
            count == (if self@.contains_key(kind) {
                Some(self@[kind])
            } else {
                None
            }),
    {
        self.slots[kind.index()]
    }

    /// The counts that the entries leave behind, taken in their order.
    pub fn from_entries(entries: Vec<(ActionKind, u32)>) -> (counts: Self)
        ensures
            counts@ == counts_of(entries@),
    {
        let mut counts = ActionCounts::new();
        let mut index: usize = 0;
        while index < entries.len()
            invariant
                index <= entries@.len(),
                counts@ == counts_of(entries@.take(index as int)),
            decreases entries.len() - index,
        {
            assert(entries@.take(index + 1).drop_last() =~= entries@.take(index as int));
            counts.insert(entries[index].0, entries[index].1);
            index += 1;
        }
        assert(entries@.take(index as int) =~= entries@);
        counts
    }

    /// The kinds of action that have a count, each with its count, in
    /// canonical order.
    pub fn entries(&self) -> (entries: Vec<(ActionKind, u32)>)
        ensures
            counts_of(entries@) == self@,
            forall|i: int, j: int|
                0 <= i < j < entries@.len() ==> entries@[i].0.spec_index()
                    < entries@[j].0.spec_index(),
    {
        let mut entries: Vec<(ActionKind, u32)> = Vec::new();
        let mut index: usize = 0;
        while index < ACTION_COUNT
            invariant
                index <= ACTION_COUNT,
                self.slots@.len() == ACTION_COUNT,
                forall|i: int|
                    0 <= i < entries@.len() ==> (#[trigger] entries@[i]).0.spec_index() < index,
                forall|i: int, j: int|
                    0 <= i < j < entries@.len() ==> entries@[i].0.spec_index()
                        < entries@[j].0.spec_index(),
                forall|kind: ActionKind| #[trigger]
                    known_up_to(
                        counts_of(entries@),
                        self@,
                        kind,
                        kind.spec_index() as int,
                        index as int,
                    ),
            decreases ACTION_COUNT - index,
        {
            let kind = ActionKind::from_index(index).unwrap();
            let ghost before = entries@;
            if let Some(count) = self.slots[index] {
                entries.push((kind, count));
                assert(entries@.drop_last() =~= before);
            }
            assert forall|other: ActionKind| #[trigger]
                known_up_to(
                    counts_of(entries@),
                    self@,
                    other,
                    other.spec_index() as int,
                    index + 1,
                ) by {
                assert(known_up_to(
                    counts_of(before),
                    self@,
                    other,
                    other.spec_index() as int,
                    index as int,
                ));
                if other.spec_index() == index {
                    assert(other == kind);
                }
            }
            index += 1;
        }
        assert forall|key: ActionKind|
            #![trigger counts_of(entries@).dom().contains(key)]
            #![trigger self@.dom().contains(key)]
            counts_of(entries@).contains_key(key) == self@.contains_key(key) && (counts_of(
                entries@,
            ).contains_key(key) ==> counts_of(entries@)[key] == self@[key]) by {
            assert(known_up_to(
                counts_of(entries@),
                self@,
                key,
                key.spec_index() as int,
                ACTION_COUNT as int,
            ));
        }
        assert(counts_of(entries@) =~= self@);
        entries
    }
}

/// The counts that the converted entries leave behind are the counts per
/// category that the map stands for, given that each key was read as a
/// category token.
proof fn lemma_category_counts_of_converted(
    raw: Seq<(String, u32)>,
    outcomes: Seq<Option<Category>>,
)
    requires
        outcomes.len() == raw.len(),
        forall|i: int| 0 <= i < raw.len() ==> #[trigger] outcomes[i] == category_named(raw[i].0@),
    ensures
        counts_of(converted_entries(raw, outcomes)) == category_counts(raw),
    decreases raw.len(),
{
    if raw.len() > 0 {
        lemma_category_counts_of_converted(raw.drop_last(), outcomes.drop_last());
        let earlier = converted_entries(raw.drop_last(), outcomes.drop_last());
        assert(outcomes.last() == category_named(raw.last().0@));
        if outcomes.last() is Some {
            let category = outcomes.last()->0;
            assert(earlier.push((category, raw.last().1)).drop_last() =~= earlier);
        }
    }
}

/// The counts that the converted entries leave behind are the counts per
/// kind of action that the map stands for, given that each key was read as
/// an action token.
proof fn lemma_action_counts_of_converted(
    raw: Seq<(String, u32)>,
    outcomes: Seq<Option<ActionKind>>,
)
    requires
        outcomes.len() == raw.len(),
        forall|i: int| 0 <= i < raw.len() ==> #[trigger] outcomes[i] == action_named(raw[i].0@),
    ensures
        counts_of(converted_entries(raw, outcomes)) == action_counts(raw),
    decreases raw.len(),
{
    if raw.len() > 0 {
        lemma_action_counts_of_converted(raw.drop_last(), outcomes.drop_last());
        let earlier = converted_entries(raw.drop_last(), outcomes.drop_last());
        assert(outcomes.last() == action_named(raw.last().0@));
        if outcomes.last() is Some {
            let kind = outcomes.last()->0;
            assert(earlier.push((kind, raw.last().1)).drop_last() =~= earlier);
        }
    }
}

/// Reads a map of counts whose keys are category tokens. An entry under a
/// key that is no category token is dropped; the others stay.
pub fn map_category_kinds(raw: Vec<(String, u32)>) -> (counts: CategoryCounts)
    ensures
        counts@ == category_counts(raw@),
{
    let converted = map_hashmap_key_from_str(raw, convert_to_segment_kind);
    proof {
        let outcomes = choose|outcomes: Seq<Option<Category>>| #[trigger]
            is_key_conversion(raw@, convert_to_segment_kind, outcomes) && converted@
                == converted_entries(raw@, outcomes);
        lemma_key_conversion_is_function(
            raw@,
            convert_to_segment_kind,
            outcomes,
            |token: Seq<char>| category_named(token),
        );
        lemma_category_counts_of_converted(raw@, outcomes);
    }
    CategoryCounts::from_entries(converted)
}

/// Reads a map of counts whose keys are action tokens. An entry under a key
/// that is no action token is dropped; the others stay.
pub fn map_action_types(raw: Vec<(String, u32)>) -> (counts: ActionCounts)
    ensures
        counts@ == action_counts(raw@),
{
    let converted = map_hashmap_key_from_str(raw, convert_to_action_type);
    proof {
        let outcomes = choose|outcomes: Seq<Option<ActionKind>>| #[trigger]
            is_key_conversion(raw@, convert_to_action_type, outcomes) && converted@
                == converted_entries(raw@, outcomes);
        lemma_key_conversion_is_function(
            raw@,
            convert_to_action_type,
            outcomes,
            |token: Seq<char>| action_named(token),
        );
        lemma_action_counts_of_converted(raw@, outcomes);
    }
    ActionCounts::from_entries(converted)
}

/// What the service counts for a user over all segments.
#[derive(Clone, Copy, Debug, PartialEq, Eq, Structural)]
pub struct OverallStats {
    /// How much time the user's segments have saved others, in thousandths
    /// of a minute.
    pub minutes_saved: i64,
    /// How many segments the user submitted, not counting ignored and hidden
    /// ones.
    pub segment_count: u32,
}

/// The statistics of a user as they stand in an answer of the service.
#[derive(Clone, Debug, PartialEq, Eq)]
pub struct RawUserStats {
    /// The user's public ID.
    pub user_id: String,
    /// The user's name; the user's ID where the user chose none.
    pub user_name: Option<String>,
    /// The counts over all segments.
    pub overall_stats: OverallStats,
    /// The entries of the map from category token to number of segments.
    pub category_count: Vec<(String, u32)>,
    /// The entries of the map from action token to number of segments.
    pub action_type_count: Vec<(String, u32)>,
}

/// The result of a request for the statistics of a user.
#[derive(Clone, Debug, PartialEq, Eq)]
pub struct UserStats {
    /// The user's public ID.
    pub user_id: String,
    /// The name that the user chose; `None` where the user chose none.
    pub user_name: Option<String>,
    /// The counts over all segments.
    pub overall_stats: OverallStats,
    /// The number of segments per category.
    pub category_count: CategoryCounts,
    /// The number of segments per kind of action.
    pub action_type_count: ActionCounts,
}

impl RawUserStats {
    /// Turns the statistics as the service sent them into the form handed to
    /// callers: a name that is the user's ID becomes `None`, and each map is
    /// read by its tokens, without the entries under unknown ones.
    pub fn convert_to_user_stats(self) -> (stats: UserStats)
        ensures
            stats.user_id == self.user_id,
            stats.user_name == chosen_user_name(self.user_name, self.user_id),
            stats.overall_stats == self.overall_stats,
            stats.category_count@ == category_counts(self.category_count@),
            stats.action_type_count@ == action_counts(self.action_type_count@),
    {
        let user_name = normalize_user_name(self.user_name, &self.user_id);
        UserStats {
            user_id: self.user_id,
            user_name,
            overall_stats: self.overall_stats,
            category_count: map_category_kinds(self.category_count),
            action_type_count: map_action_types(self.action_type_count),
        }
    }
}

/// A category has a count exactly when some entry stands under its token,
/// and the count is that of the last such entry. What stands under other keys
/// changes nothing.
pub proof fn lemma_category_counts_by_entry(raw: Seq<(String, u32)>, category: Category)
    ensures
        category_counts(raw).contains_key(category) <==> exists|i: int|
            0 <= i < raw.len() && category_named((#[trigger] raw[i]).0@) == Some(category),
        category_counts(raw).contains_key(category) ==> exists|i: int|
            {
                &&& 0 <= i < raw.len()
                &&& category_named((#[trigger] raw[i]).0@) == Some(category)
                &&& category_counts(raw)[category] == raw[i].1
                &&& forall|later: int|
                    i < later < raw.len() ==> category_named((#[trigger] raw[later]).0@) != Some(
                        category,
                    )
            },
    decreases raw.len(),
{
    if raw.len() > 0 {
        let shorter = raw.drop_last();
        lemma_category_counts_by_entry(shorter, category);
        let last = raw.len() - 1;
        assert forall|i: int| 0 <= i < shorter.len() implies #[trigger] shorter[i] == raw[i] by {}
        if category_named(raw.last().0@) == Some(category) {
            assert(category_named(raw[last].0@) == Some(category));
        } else if category_counts(shorter).contains_key(category) {
            let i = choose|i: int|
                {
                    &&& 0 <= i < shorter.len()
                    &&& category_named((#[trigger] shorter[i]).0@) == Some(category)
                    &&& category_counts(shorter)[category] == shorter[i].1
                    &&& forall|later: int|
                        i < later < shorter.len() ==> category_named(
                            (#[trigger] shorter[later]).0@,
                        ) != Some(category)
                };
            assert(category_named(raw[i].0@) == Some(category));
            assert forall|later: int| i < later < raw.len() implies category_named(
                (#[trigger] raw[later]).0@,
            ) != Some(category) by {
                if later < last {
                    assert(shorter[later] == raw[later]);
                }
            }
        } else {
            assert forall|i: int| 0 <= i < raw.len() implies category_named(
                (#[trigger] raw[i]).0@,
            ) != Some(category) by {
                if i < last {
                    assert(shorter[i] == raw[i]);
                }
            }
        }
    }
}

/// A kind of action has a count exactly when some entry stands under its
/// token, and the count is that of the last such entry. What stands under
/// other keys changes nothing.
pub proof fn lemma_action_counts_by_entry(raw: Seq<(String, u32)>, kind: ActionKind)
    ensures
        action_counts(raw).contains_key(kind) <==> exists|i: int|
            0 <= i < raw.len() && action_named((#[trigger] raw[i]).0@) == Some(kind),
        action_counts(raw).contains_key(kind) ==> exists|i: int|
            {
                &&& 0 <= i < raw.len()
                &&& action_named((#[trigger] raw[i]).0@) == Some(kind)
                &&& action_counts(raw)[kind] == raw[i].1
                &&& forall|later: int|
                    i < later < raw.len() ==> action_named((#[trigger] raw[later]).0@) != Some(
                        kind,
                    )
            },
    decreases raw.len(),
{
    if raw.len() > 0 {
        let shorter = raw.drop_last();
        lemma_action_counts_by_entry(shorter, kind);
        let last = raw.len() - 1;
        assert forall|i: int| 0 <= i < shorter.len() implies #[trigger] shorter[i] == raw[i] by {}
        if action_named(raw.last().0@) == Some(kind) {
            assert(action_named(raw[last].0@) == Some(kind));
        } else if action_counts(shorter).contains_key(kind) {
            let i = choose|i: int|
                {
                    &&& 0 <= i < shorter.len()
                    &&& action_named((#[trigger] shorter[i]).0@) == Some(kind)
                    &&& action_counts(shorter)[kind] == shorter[i].1
                    &&& forall|later: int|
                        i < later < shorter.len() ==> action_named((#[trigger] shorter[later]).0@)
                            != Some(kind)
                };
            assert(action_named(raw[i].0@) == Some(kind));
            assert forall|later: int| i < later < raw.len() implies action_named(
                (#[trigger] raw[later]).0@,
            ) != Some(kind) by {
                if later < last {
                    assert(shorter[later] == raw[later]);
                }
            }
        } else {
            assert forall|i: int| 0 <= i < raw.len() implies action_named((#[trigger] raw[i]).0@)
                != Some(kind) by {
                if i < last {
                    assert(shorter[i] == raw[i]);
                }
            }
        }
    }
}

/// Entries under keys that are no category tokens can be taken out of a map
/// without changing the counts that it stands for.
pub proof fn lemma_unknown_categories_dropped(raw: Seq<(String, u32)>)
    ensures
        category_counts(raw) == category_counts(
            raw.filter(|entry: (String, u32)| category_named(entry.0@) is Some),
        ),
    decreases raw.len(),
{
    reveal(Seq::filter);
    if raw.len() > 0 {
        lemma_unknown_categories_dropped(raw.drop_last());
        let known = |entry: (String, u32)| category_named(entry.0@) is Some;
        let kept = raw.drop_last().filter(known);
        if known(raw.last()) {
            assert(kept.push(raw.last()).drop_last() =~= kept);
        }
    }
}

/// Entries under keys that are no action tokens can be taken out of a map
/// without changing the counts that it stands for.
pub proof fn lemma_unknown_actions_dropped(raw: Seq<(String, u32)>)
    ensures
        action_counts(raw) == action_counts(
            raw.filter(|entry: (String, u32)| action_named(entry.0@) is Some),
        ),
    decreases raw.len(),
{
    reveal(Seq::filter);
    if raw.len() > 0 {
        lemma_unknown_actions_dropped(raw.drop_last());
        let known = |entry: (String, u32)| action_named(entry.0@) is Some;
        let kept = raw.drop_last().filter(known);
        if known(raw.last()) {
            assert(kept.push(raw.last()).drop_last() =~= kept);
        }
    }
}

/// The path of the statistics of a user.
pub const USER_STATS_ENDPOINT: &'static str = "/userStats";

/// The parameters that ask for the counts per category and per kind of
/// action.
pub open spec fn breakdown_parameters() -> Seq<(Seq<char>, Seq<char>)> {
    seq![("fetchCategoryStats"@, "true"@), ("fetchActionTypeStats"@, "true"@)]
}

impl ClientBuilder {
    /// The request for the statistics of the user with a public ID.
    pub open spec fn spec_user_stats_public_request(
        &self,
        public_user_id: Seq<char>,
    ) -> RequestView {
        RequestView {
            url: self.spec_base_url() + USER_STATS_ENDPOINT@,
            query: seq![("publicUserID"@, public_user_id)] + breakdown_parameters(),
        }
    }

    /// The request for the statistics of the user with a local ID.
    pub open spec fn spec_user_stats_local_request(&self, local_user_id: Seq<char>) -> RequestView {
        RequestView {
            url: self.spec_base_url() + USER_STATS_ENDPOINT@,
            query: seq![("userID"@, local_user_id)] + breakdown_parameters(),
        }
    }

    /// The request for the statistics of a user, named by public ID, with
    /// the counts per category and per kind of action.
    pub fn user_stats_public_request(&self, public_user_id: &str) -> (request: Request)
        ensures
            request@ == self.spec_user_stats_public_request(public_user_id@),
    {
        let mut request = Request::new(self.configured_base_url(), USER_STATS_ENDPOINT);
        request.add_parameter("publicUserID", String::from_str(public_user_id));
        request.add_parameter("fetchCategoryStats", String::from_str("true"));
        request.add_parameter("fetchActionTypeStats", String::from_str("true"));
        assert(request@.query =~= seq![("publicUserID"@, public_user_id@)]
            + breakdown_parameters());
        request
    }

    /// The request for the statistics of a user, named by local ID, with the
    /// counts per category and per kind of action. The local ID is a secret
    /// of the user.
    pub fn user_stats_local_request(&self, local_user_id: &str) -> (request: Request)
        ensures
            request@ == self.spec_user_stats_local_request(local_user_id@),
    {
        let mut request = Request::new(self.configured_base_url(), USER_STATS_ENDPOINT);
        request.add_parameter("userID", String::from_str(local_user_id));
        request.add_parameter("fetchCategoryStats", String::from_str("true"));
        request.add_parameter("fetchActionTypeStats", String::from_str("true"));
        assert(request@.query =~= seq![("userID"@, local_user_id@)] + breakdown_parameters());
        request
    }
}

} // verus!
