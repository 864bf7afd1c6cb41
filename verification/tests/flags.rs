use sponsor_block::api::{convert_action_bitflags_to_url, convert_category_bitflags_to_url};
use sponsor_block::{AcceptedActions, AcceptedCategories, ActionKind, Category};

#[test]
fn full_category_set_is_every_token_once_in_order() {
    assert_eq!(
        convert_category_bitflags_to_url(AcceptedCategories::all()),
        "[\"sponsor\",\"selfpromo\",\"interaction\",\"poi_highlight\",\"intro\",\"outro\",\"preview\",\"music_offtopic\",\"filler\",\"exclusive_access\"]"
    );
}

#[test]
fn full_action_set_is_every_token_once_in_order() {
    assert_eq!(
        convert_action_bitflags_to_url(AcceptedActions::all()),
        "[\"skip\",\"mute\",\"poi\",\"full\"]"
    );
}

#[test]
fn empty_sets_are_empty_arrays() {
    assert_eq!(convert_category_bitflags_to_url(AcceptedCategories::empty()), "[]");
    assert_eq!(convert_action_bitflags_to_url(AcceptedActions::empty()), "[]");
}

#[test]
fn singleton_sets_are_arrays_of_one() {
    assert_eq!(
        convert_category_bitflags_to_url(AcceptedCategories::only(Category::Sponsor)),
        "[\"sponsor\"]"
    );
    assert_eq!(
        convert_category_bitflags_to_url(AcceptedCategories::only(Category::ExclusiveAccess)),
        "[\"exclusive_access\"]"
    );
    assert_eq!(
        convert_action_bitflags_to_url(AcceptedActions::only(ActionKind::Mute)),
        "[\"mute\"]"
    );
}

#[test]
fn sponsor_and_highlight_are_written_in_canonical_order() {
    let wanted =
        AcceptedCategories::only(Category::Highlight).union(AcceptedCategories::only(Category::Sponsor));
    assert_eq!(convert_category_bitflags_to_url(wanted), "[\"sponsor\",\"poi_highlight\"]");
}

#[test]
fn insertion_order_does_not_show() {
    let mut first = AcceptedActions::empty();
    first.insert(AcceptedActions::only(ActionKind::FullVideo));
    first.insert(AcceptedActions::only(ActionKind::Skip));
    let mut second = AcceptedActions::empty();
    second.insert(AcceptedActions::only(ActionKind::Skip));
    second.insert(AcceptedActions::only(ActionKind::FullVideo));
    assert_eq!(first, second);
    assert_eq!(convert_action_bitflags_to_url(first), "[\"skip\",\"full\"]");
    assert_eq!(convert_action_bitflags_to_url(second), "[\"skip\",\"full\"]");
}

#[test]
fn default_sets_accept_everything() {
    assert_eq!(AcceptedCategories::default(), AcceptedCategories::all());
    assert_eq!(AcceptedActions::default(), AcceptedActions::all());
    assert!(AcceptedCategories::default().is_all());
    assert!(AcceptedActions::default().is_all());
    assert_eq!(AcceptedCategories::all().bits(), 0x3ff);
    assert_eq!(AcceptedActions::all().bits(), 0xf);
}

#[test]
fn bits_of_each_flag() {
    assert_eq!(AcceptedCategories::empty().bits(), 0);
    assert_eq!(AcceptedCategories::only(Category::Sponsor).bits(), 0b0000_0000_0001);
    assert_eq!(AcceptedCategories::only(Category::UnpaidSelfPromotion).bits(), 0b0000_0000_0010);
    assert_eq!(AcceptedCategories::only(Category::InteractionReminder).bits(), 0b0000_0000_0100);
    assert_eq!(AcceptedCategories::only(Category::Highlight).bits(), 0b0000_0000_1000);
    assert_eq!(
        AcceptedCategories::only(Category::IntermissionIntroAnimation).bits(),
        0b0000_0001_0000
    );
    assert_eq!(AcceptedCategories::only(Category::EndcardsCredits).bits(), 0b0000_0010_0000);
    assert_eq!(AcceptedCategories::only(Category::PreviewRecap).bits(), 0b0000_0100_0000);
    assert_eq!(AcceptedCategories::only(Category::NonMusic).bits(), 0b0000_1000_0000);
    assert_eq!(AcceptedCategories::only(Category::FillerTangent).bits(), 0b0001_0000_0000);
    assert_eq!(AcceptedCategories::only(Category::ExclusiveAccess).bits(), 0b0010_0000_0000);
    assert_eq!(AcceptedActions::only(ActionKind::Skip).bits(), 0b0001);
    assert_eq!(AcceptedActions::only(ActionKind::Mute).bits(), 0b0010);
    assert_eq!(AcceptedActions::only(ActionKind::PointOfInterest).bits(), 0b0100);
    assert_eq!(AcceptedActions::only(ActionKind::FullVideo).bits(), 0b1000);
}

#[test]
fn from_bits_refuses_unknown_bits() {
    assert_eq!(AcceptedCategories::from_bits(0x3ff), Some(AcceptedCategories::all()));
    assert_eq!(AcceptedCategories::from_bits(0), Some(AcceptedCategories::empty()));
    assert_eq!(AcceptedCategories::from_bits(0x400), None);
    assert_eq!(AcceptedCategories::from_bits(u32::MAX), None);
    assert_eq!(AcceptedActions::from_bits(0xf), Some(AcceptedActions::all()));
    assert_eq!(AcceptedActions::from_bits(0x10), None);
    assert_eq!(
        AcceptedActions::from_bits(0b0101),
        Some(AcceptedActions::only(ActionKind::Skip).union(AcceptedActions::only(ActionKind::PointOfInterest)))
    );
}

#[test]
fn set_operations_on_categories() {
    let sponsor = AcceptedCategories::only(Category::Sponsor);
    let filler = AcceptedCategories::only(Category::FillerTangent);
    let both = sponsor.union(filler);
    assert!(both.accepts(Category::Sponsor));
    assert!(both.accepts(Category::FillerTangent));
    assert!(!both.accepts(Category::Highlight));
    assert!(both.contains(sponsor));
    assert!(both.contains(AcceptedCategories::empty()));
    assert!(!sponsor.contains(both));
    assert!(AcceptedCategories::all().contains(both));
    assert_eq!(both.intersection(sponsor), sponsor);
    assert_eq!(sponsor.intersection(filler), AcceptedCategories::empty());
    assert_eq!(both.difference(sponsor), filler);
    assert_eq!(sponsor.difference(sponsor), AcceptedCategories::empty());
    assert!(AcceptedCategories::empty().is_empty());
    assert!(!sponsor.is_empty());
    assert!(!both.is_all());
    let mut changing = both;
    changing.remove(filler);
    assert_eq!(changing, sponsor);
    changing.insert(filler);
    assert_eq!(changing, both);
    assert_eq!(AcceptedCategories::all().difference(AcceptedCategories::all()).bits(), 0);
}

#[test]
fn set_operations_on_actions() {
    let skip = AcceptedActions::only(ActionKind::Skip);
    let mute = AcceptedActions::only(ActionKind::Mute);
    let both = skip.union(mute);
    assert_eq!(both.bits(), 0b0011);
    assert!(both.accepts(ActionKind::Skip));
    assert!(!both.accepts(ActionKind::FullVideo));
    assert!(both.contains(mute));
    assert!(!mute.contains(both));
    assert_eq!(both.intersection(mute), mute);
    assert_eq!(both.difference(mute), skip);
    assert_eq!(AcceptedActions::all().difference(both).bits(), 0b1100);
    assert!(AcceptedActions::empty().is_empty());
    assert!(!both.is_all());
}
