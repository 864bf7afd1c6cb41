use sponsor_block::api::{
    action_to_name, canonical_action_list, canonical_category_list, category_to_name,
    convert_to_action_type, convert_to_segment_kind,
};
use sponsor_block::{ActionKind, Category, UnknownValueError};

fn unknown(kind: &str, value: &str) -> UnknownValueError {
    UnknownValueError { kind: kind.to_owned(), value: value.to_owned() }
}

#[test]
fn every_category_survives_the_round_trip() {
    let categories = canonical_category_list();
    assert_eq!(categories.len(), 10);
    for category in categories {
        assert_eq!(convert_to_segment_kind(category_to_name(category)), Ok(category));
    }
}

#[test]
fn every_action_survives_the_round_trip() {
    let kinds = canonical_action_list();
    assert_eq!(kinds.len(), 4);
    for kind in kinds {
        assert_eq!(convert_to_action_type(action_to_name(kind)), Ok(kind));
    }
}

#[test]
fn category_tokens_are_the_documented_ones() {
    assert_eq!(category_to_name(Category::Sponsor), "sponsor");
    assert_eq!(category_to_name(Category::UnpaidSelfPromotion), "selfpromo");
    assert_eq!(category_to_name(Category::InteractionReminder), "interaction");
    assert_eq!(category_to_name(Category::Highlight), "poi_highlight");
    assert_eq!(category_to_name(Category::IntermissionIntroAnimation), "intro");
    assert_eq!(category_to_name(Category::EndcardsCredits), "outro");
    assert_eq!(category_to_name(Category::PreviewRecap), "preview");
    assert_eq!(category_to_name(Category::NonMusic), "music_offtopic");
    assert_eq!(category_to_name(Category::FillerTangent), "filler");
    assert_eq!(category_to_name(Category::ExclusiveAccess), "exclusive_access");
}

#[test]
fn action_tokens_are_the_documented_ones() {
    assert_eq!(action_to_name(ActionKind::Skip), "skip");
    assert_eq!(action_to_name(ActionKind::Mute), "mute");
    assert_eq!(action_to_name(ActionKind::PointOfInterest), "poi");
    assert_eq!(action_to_name(ActionKind::FullVideo), "full");
}

#[test]
fn each_category_token_is_read() {
    assert_eq!(convert_to_segment_kind("sponsor"), Ok(Category::Sponsor));
    assert_eq!(convert_to_segment_kind("selfpromo"), Ok(Category::UnpaidSelfPromotion));
    assert_eq!(convert_to_segment_kind("interaction"), Ok(Category::InteractionReminder));
    assert_eq!(convert_to_segment_kind("poi_highlight"), Ok(Category::Highlight));
    assert_eq!(convert_to_segment_kind("intro"), Ok(Category::IntermissionIntroAnimation));
    assert_eq!(convert_to_segment_kind("outro"), Ok(Category::EndcardsCredits));
    assert_eq!(convert_to_segment_kind("preview"), Ok(Category::PreviewRecap));
    assert_eq!(convert_to_segment_kind("music_offtopic"), Ok(Category::NonMusic));
    assert_eq!(convert_to_segment_kind("filler"), Ok(Category::FillerTangent));
    assert_eq!(convert_to_segment_kind("exclusive_access"), Ok(Category::ExclusiveAccess));
}

#[test]
fn each_action_token_is_read() {
    assert_eq!(convert_to_action_type("skip"), Ok(ActionKind::Skip));
    assert_eq!(convert_to_action_type("mute"), Ok(ActionKind::Mute));
    assert_eq!(convert_to_action_type("poi"), Ok(ActionKind::PointOfInterest));
    assert_eq!(convert_to_action_type("full"), Ok(ActionKind::FullVideo));
}

#[test]
fn unknown_category_is_handed_back() {
    assert_eq!(convert_to_segment_kind("chapter"), Err(unknown("category", "chapter")));
}

#[test]
fn unknown_action_is_handed_back() {
    assert_eq!(convert_to_action_type("blur"), Err(unknown("actionType", "blur")));
}

#[test]
fn tokens_match_exactly() {
    assert_eq!(convert_to_segment_kind("Sponsor"), Err(unknown("category", "Sponsor")));
    assert_eq!(convert_to_segment_kind(" sponsor"), Err(unknown("category", " sponsor")));
    assert_eq!(convert_to_segment_kind("sponsor "), Err(unknown("category", "sponsor ")));
    assert_eq!(convert_to_segment_kind("spons"), Err(unknown("category", "spons")));
    assert_eq!(convert_to_segment_kind(""), Err(unknown("category", "")));
    assert_eq!(convert_to_action_type("SKIP"), Err(unknown("actionType", "SKIP")));
    assert_eq!(convert_to_action_type(""), Err(unknown("actionType", "")));
}

#[test]
fn a_token_of_the_other_vocabulary_is_unknown() {
    assert_eq!(convert_to_segment_kind("skip"), Err(unknown("category", "skip")));
    assert_eq!(convert_to_action_type("sponsor"), Err(unknown("actionType", "sponsor")));
    assert_eq!(convert_to_action_type("poi_highlight"), Err(unknown("actionType", "poi_highlight")));
}

#[test]
fn canonical_order_is_the_order_of_indices() {
    let categories = canonical_category_list();
    for (position, category) in categories.iter().enumerate() {
        assert_eq!(category.index(), position);
        assert_eq!(Category::from_index(position), Some(*category));
        assert_eq!(category.bit(), 1u32 << position);
    }
    assert_eq!(Category::from_index(10), None);
    let kinds = canonical_action_list();
    for (position, kind) in kinds.iter().enumerate() {
        assert_eq!(kind.index(), position);
        assert_eq!(ActionKind::from_index(position), Some(*kind));
        assert_eq!(kind.bit(), 1u32 << position);
    }
    assert_eq!(ActionKind::from_index(4), None);
}

#[test]
fn defaults_are_sponsor_and_skip() {
    assert_eq!(Category::default(), Category::Sponsor);
    assert_eq!(ActionKind::default(), ActionKind::Skip);
}
