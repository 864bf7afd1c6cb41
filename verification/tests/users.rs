use sponsor_block::client::user::user_info::normalize_user_name;
use sponsor_block::client::user::user_stats::{map_action_types, map_category_kinds};
use sponsor_block::util::de::map_hashmap_key_from_str;
use sponsor_block::api::convert_to_segment_kind;
use sponsor_block::{
    ActionCounts, ActionKind, Category, CategoryCounts, OverallStats, RawUserStats, UserInfo,
};

fn info(user_id: &str, user_name: Option<&str>) -> UserInfo {
    UserInfo {
        public_user_id: user_id.to_owned(),
        user_name: user_name.map(|name| name.to_owned()),
        minutes_saved: 12_500,
        segment_count: 10,
        ignored_segment_count: 2,
        view_count: 300,
        ignored_view_count: 40,
        warnings: 1,
        reputation: -1_250,
        vip: true,
        last_segment_id: Some("last".to_owned()),
    }
}

fn entries(pairs: &[(&str, u32)]) -> Vec<(String, u32)> {
    pairs.iter().map(|pair| (pair.0.to_owned(), pair.1)).collect()
}

#[test]
fn a_name_that_is_the_id_is_no_name() {
    assert_eq!(info("abc123", Some("abc123")).convert_to_user_info().user_name, None);
}

#[test]
fn a_chosen_name_is_kept() {
    assert_eq!(
        info("abc123", Some("CoolUser")).convert_to_user_info().user_name,
        Some("CoolUser".to_owned())
    );
}

#[test]
fn no_name_stays_no_name() {
    assert_eq!(info("abc123", None).convert_to_user_info().user_name, None);
}

#[test]
fn names_are_compared_exactly() {
    assert_eq!(
        info("abc123", Some("ABC123")).convert_to_user_info().user_name,
        Some("ABC123".to_owned())
    );
    assert_eq!(
        info("abc123", Some("abc1234")).convert_to_user_info().user_name,
        Some("abc1234".to_owned())
    );
    assert_eq!(info("", Some("")).convert_to_user_info().user_name, None);
    assert_eq!(normalize_user_name(Some("a".to_owned()), &"a".to_owned()), None);
    assert_eq!(normalize_user_name(Some("a".to_owned()), &"b".to_owned()), Some("a".to_owned()));
    assert_eq!(normalize_user_name(None, &"a".to_owned()), None);
}

#[test]
fn nothing_but_the_name_changes() {
    let converted = info("abc123", Some("abc123")).convert_to_user_info();
    assert_eq!(converted, info("abc123", None));
    let converted = info("abc123", Some("CoolUser")).convert_to_user_info();
    assert_eq!(converted, info("abc123", Some("CoolUser")));
}

#[test]
fn totals_add_the_ignored_ones() {
    let user = info("abc123", None);
    assert_eq!(user.total_segment_count(), 12);
    assert_eq!(user.total_view_count(), 340);
}

#[test]
fn totals_can_reach_the_top() {
    let mut user = info("abc123", None);
    user.segment_count = u32::MAX - 2;
    user.ignored_segment_count = 2;
    user.view_count = 0;
    user.ignored_view_count = u32::MAX;
    assert_eq!(user.total_segment_count(), u32::MAX);
    assert_eq!(user.total_view_count(), u32::MAX);
}

#[test]
fn an_unknown_category_key_is_left_out() {
    let counts = map_category_kinds(entries(&[
        ("sponsor", 5),
        ("chapter", 9),
        ("intro", 2),
        ("filler", 0),
    ]));
    assert_eq!(counts.get(Category::Sponsor), Some(5));
    assert_eq!(counts.get(Category::IntermissionIntroAnimation), Some(2));
    assert_eq!(counts.get(Category::FillerTangent), Some(0));
    assert_eq!(counts.get(Category::Highlight), None);
    assert_eq!(
        counts.entries(),
        vec![
            (Category::Sponsor, 5),
            (Category::IntermissionIntroAnimation, 2),
            (Category::FillerTangent, 0),
        ]
    );
}

#[test]
fn an_unknown_action_key_is_left_out() {
    let counts = map_action_types(entries(&[("blur", 1), ("mute", 4), ("skip", 40), ("poi", 3)]));
    assert_eq!(counts.get(ActionKind::Skip), Some(40));
    assert_eq!(counts.get(ActionKind::Mute), Some(4));
    assert_eq!(counts.get(ActionKind::PointOfInterest), Some(3));
    assert_eq!(counts.get(ActionKind::FullVideo), None);
    assert_eq!(
        counts.entries(),
        vec![(ActionKind::Skip, 40), (ActionKind::Mute, 4), (ActionKind::PointOfInterest, 3)]
    );
}

#[test]
fn unknown_keys_change_nothing() {
    let with = map_category_kinds(entries(&[("a", 1), ("outro", 7), ("b", 2), ("preview", 8)]));
    let without = map_category_kinds(entries(&[("outro", 7), ("preview", 8)]));
    assert_eq!(with, without);
}

#[test]
fn only_unknown_keys_give_empty_counts() {
    assert_eq!(map_category_kinds(entries(&[("a", 1), ("skip", 2)])), CategoryCounts::new());
    assert_eq!(map_action_types(entries(&[("a", 1), ("sponsor", 2)])), ActionCounts::new());
    assert_eq!(map_category_kinds(Vec::new()).entries(), Vec::new());
}

#[test]
fn a_later_entry_takes_the_place_of_an_earlier_one() {
    let counts = map_category_kinds(entries(&[("sponsor", 1), ("sponsor", 2)]));
    assert_eq!(counts.get(Category::Sponsor), Some(2));
    assert_eq!(counts.entries(), vec![(Category::Sponsor, 2)]);
}

#[test]
fn every_category_can_be_counted() {
    let counts = map_category_kinds(entries(&[
        ("exclusive_access", 10),
        ("filler", 9),
        ("music_offtopic", 8),
        ("preview", 7),
        ("outro", 6),
        ("intro", 5),
        ("poi_highlight", 4),
        ("interaction", 3),
        ("selfpromo", 2),
        ("sponsor", 1),
    ]));
    let listed = counts.entries();
    assert_eq!(listed.len(), 10);
    for (position, entry) in listed.iter().enumerate() {
        assert_eq!(entry.0.index(), position);
        assert_eq!(entry.1 as usize, position + 1);
    }
}

#[test]
fn count_tables_can_be_filled_by_hand() {
    let mut counts = CategoryCounts::new();
    assert_eq!(counts.get(Category::Sponsor), None);
    counts.insert(Category::Sponsor, 3);
    counts.insert(Category::Highlight, 4);
    counts.insert(Category::Sponsor, 5);
    assert_eq!(counts.get(Category::Sponsor), Some(5));
    assert_eq!(counts.get(Category::Highlight), Some(4));
    assert_eq!(
        counts,
        CategoryCounts::from_entries(vec![(Category::Highlight, 4), (Category::Sponsor, 5)])
    );
    let mut actions = ActionCounts::new();
    actions.insert(ActionKind::FullVideo, 1);
    assert_eq!(actions.get(ActionKind::FullVideo), Some(1));
    assert_eq!(actions, ActionCounts::from_entries(vec![(ActionKind::FullVideo, 1)]));
}

#[test]
fn keys_are_converted_and_failures_dropped() {
    let converted = map_hashmap_key_from_str(
        entries(&[("sponsor", 1), ("nope", 2), ("outro", 3), ("sponsor", 4)]),
        convert_to_segment_kind,
    );
    assert_eq!(
        converted,
        vec![(Category::Sponsor, 1), (Category::EndcardsCredits, 3), (Category::Sponsor, 4)]
    );
    let lengths = map_hashmap_key_from_str(
        vec![("a".to_owned(), 'x'), ("".to_owned(), 'y'), ("abc".to_owned(), 'z')],
        |key: &str| if key.is_empty() { Err(()) } else { Ok(key.len()) },
    );
    assert_eq!(lengths, vec![(1, 'x'), (3, 'z')]);
}

#[test]
fn statistics_are_converted_as_a_whole() {
    let raw = RawUserStats {
        user_id: "abc123".to_owned(),
        user_name: Some("abc123".to_owned()),
        overall_stats: OverallStats { minutes_saved: 90_250, segment_count: 17 },
        category_count: entries(&[("sponsor", 12), ("new_category", 1), ("outro", 5)]),
        action_type_count: entries(&[("skip", 16), ("chapter", 1), ("full", 1)]),
    };
    let stats = raw.convert_to_user_stats();
    assert_eq!(stats.user_id, "abc123");
    assert_eq!(stats.user_name, None);
    assert_eq!(stats.overall_stats, OverallStats { minutes_saved: 90_250, segment_count: 17 });
    assert_eq!(
        stats.category_count.entries(),
        vec![(Category::Sponsor, 12), (Category::EndcardsCredits, 5)]
    );
    assert_eq!(
        stats.action_type_count.entries(),
        vec![(ActionKind::Skip, 16), (ActionKind::FullVideo, 1)]
    );
}

#[test]
fn a_chosen_name_in_statistics_is_kept() {
    let raw = RawUserStats {
        user_id: "abc123".to_owned(),
        user_name: Some("CoolUser".to_owned()),
        overall_stats: OverallStats { minutes_saved: 0, segment_count: 0 },
        category_count: Vec::new(),
        action_type_count: Vec::new(),
    };
    assert_eq!(raw.convert_to_user_stats().user_name, Some("CoolUser".to_owned()));
}
