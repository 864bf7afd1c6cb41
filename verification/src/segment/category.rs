//! Segment categories and sets of them.

use vstd::prelude::*;
use crate::segment::bits::{
    is_flag_bit, lemma_flag_bit_algebra, lemma_flag_bits_disjoint, lemma_mask_closed,
    lemma_superset_has_bit, lemma_ten_bits_extensional,
};

verus! {

/// The topical classification of a segment.
///
/// The variants are declared in canonical order: the order in which a set of
/// categories is written into a request.
#[derive(Clone, Copy, Debug, PartialEq, Eq, PartialOrd, Ord, Hash, Structural)]
pub enum Category {
    /// A paid promotion, paid referral, or direct advertisement.
    Sponsor,
    /// Unpaid promotion or self-promotion: merchandise, donations, collaborators.
    UnpaidSelfPromotion,
    /// A short reminder to like, subscribe, or follow in the middle of content.
    InteractionReminder,
    /// The point or highlight of the video. A single point in time, not a range.
    Highlight,
    /// An interval without actual content: a pause, static frame, or repeating animation.
    IntermissionIntroAnimation,
    /// Credits, or the time when endcards appear.
    EndcardsCredits,
    /// A recap of previous episodes, or a preview of what comes later.
    PreviewRecap,
    /// A section of a music video without music.
    NonMusic,
    /// A tangential scene added only for filler or humor.
    FillerTangent,
    /// A showcase of something the creator got free or subsidised access to.
    ExclusiveAccess,
}

/// How many categories there are.
pub const CATEGORY_COUNT: usize = 10;

/// The bits of a set that holds every category.
pub const ALL_CATEGORY_BITS: u32 = 0x3ff;

impl Category {
    /// The position of the category in canonical order.
    pub open spec fn spec_index(self) -> nat {
        match self {
            Category::Sponsor => 0,
            Category::UnpaidSelfPromotion => 1,
            Category::InteractionReminder => 2,
            Category::Highlight => 3,
            Category::IntermissionIntroAnimation => 4,
            Category::EndcardsCredits => 5,
            Category::PreviewRecap => 6,
            Category::NonMusic => 7,
            Category::FillerTangent => 8,
            Category::ExclusiveAccess => 9,
        }
    }

    /// The category at a position of the canonical order.
    pub open spec fn spec_from_index(index: nat) -> Option<Category> {
        if index == 0 {
            Some(Category::Sponsor)
        } else if index == 1 {
            Some(Category::UnpaidSelfPromotion)
        } else if index == 2 {
            Some(Category::InteractionReminder)
        } else if index == 3 {
            Some(Category::Highlight)
        } else if index == 4 {
            Some(Category::IntermissionIntroAnimation)
        } else if index == 5 {
            Some(Category::EndcardsCredits)
        } else if index == 6 {
            Some(Category::PreviewRecap)
        } else if index == 7 {
            Some(Category::NonMusic)
        } else if index == 8 {
            Some(Category::FillerTangent)
        } else if index == 9 {
            Some(Category::ExclusiveAccess)
        } else {
            None
        }
    }

    /// The bit that stands for the category in a set: bit `spec_index()`.
    pub open spec fn spec_bit(self) -> u32 {
        match self {
            Category::Sponsor => 0x001,
            Category::UnpaidSelfPromotion => 0x002,
            Category::InteractionReminder => 0x004,
            Category::Highlight => 0x008,
            Category::IntermissionIntroAnimation => 0x010,
            Category::EndcardsCredits => 0x020,
            Category::PreviewRecap => 0x040,
            Category::NonMusic => 0x080,
            Category::FillerTangent => 0x100,
            Category::ExclusiveAccess => 0x200,
        }
    }

    /// The position of the category in canonical order.
    pub fn index(self) -> (index: usize)
        ensures
            index == self.spec_index(),
            index < CATEGORY_COUNT,
    {
        match self {
            Category::Sponsor => 0,
            Category::UnpaidSelfPromotion => 1,
            Category::InteractionReminder => 2,
            Category::Highlight => 3,
            Category::IntermissionIntroAnimation => 4,
            Category::EndcardsCredits => 5,
            Category::PreviewRecap => 6,
            Category::NonMusic => 7,
            Category::FillerTangent => 8,
            Category::ExclusiveAccess => 9,
        }
    }

    /// The category at a position of the canonical order, if there is one.
    pub fn from_index(index: usize) -> (category: Option<Category>)
        ensures
            category == Category::spec_from_index(index as nat),
            category is Some <==> index < CATEGORY_COUNT,
            category matches Some(c) ==> c.spec_index() == index,
    {
        if index == 0 {
            Some(Category::Sponsor)
        } else if index == 1 {
            Some(Category::UnpaidSelfPromotion)
        } else if index == 2 {
            Some(Category::InteractionReminder)
        } else if index == 3 {
            Some(Category::Highlight)
        } else if index == 4 {
            Some(Category::IntermissionIntroAnimation)
        } else if index == 5 {
            Some(Category::EndcardsCredits)
        } else if index == 6 {
            Some(Category::PreviewRecap)
        } else if index == 7 {
            Some(Category::NonMusic)
        } else if index == 8 {
            Some(Category::FillerTangent)
        } else if index == 9 {
            Some(Category::ExclusiveAccess)
        } else {
            None
        }
    }

    /// The bit that stands for the category in a set.
    pub fn bit(self) -> (bit: u32)
        ensures
            bit == self.spec_bit(),
    {
        match self {
            Category::Sponsor => 0x001,
            Category::UnpaidSelfPromotion => 0x002,
            Category::InteractionReminder => 0x004,
            Category::Highlight => 0x008,
            Category::IntermissionIntroAnimation => 0x010,
            Category::EndcardsCredits => 0x020,
            Category::PreviewRecap => 0x040,
            Category::NonMusic => 0x080,
            Category::FillerTangent => 0x100,
            Category::ExclusiveAccess => 0x200,
        }
    }
}

impl Default for Category {
    fn default() -> (category: Category)
        ensures
            category == Category::Sponsor,
    {
        Category::Sponsor
    }
}

/// Whether the bit of `category` is set in `bits`.
pub open spec fn category_bit_set(bits: u32, category: Category) -> bool {
    bits & category.spec_bit() != 0
}

/// The category that a single bit stands for.
pub open spec fn category_of_bit(bit: u32) -> Category {
    if bit == 0x001 {
        Category::Sponsor
    } else if bit == 0x002 {
        Category::UnpaidSelfPromotion
    } else if bit == 0x004 {
        Category::InteractionReminder
    } else if bit == 0x008 {
        Category::Highlight
    } else if bit == 0x010 {
        Category::IntermissionIntroAnimation
    } else if bit == 0x020 {
        Category::EndcardsCredits
    } else if bit == 0x040 {
        Category::PreviewRecap
    } else if bit == 0x080 {
        Category::NonMusic
    } else if bit == 0x100 {
        Category::FillerTangent
    } else {
        Category::ExclusiveAccess
    }
}

/// The bit of one category is set in the bit of another only if the two are
/// the same category.
pub proof fn lemma_category_bits_distinct(first: Category, second: Category)
    ensures
        category_bit_set(first.spec_bit(), second) <==> first == second,
{
    if first == second {
        lemma_flag_bit_algebra(0, 0, first.spec_bit());
    } else {
        lemma_flag_bits_disjoint(first.spec_bit(), second.spec_bit());
    }
}

/// Two sets of bits within the ten category bits that hold the same
/// categories are the same bits.
pub proof fn lemma_category_bits_extensional(first: u32, second: u32)
    requires
        first <= ALL_CATEGORY_BITS,
        second <= ALL_CATEGORY_BITS,
        forall|category: Category|
            category_bit_set(first, category) == category_bit_set(second, category),
    ensures
        first == second,
{
    assert forall|bit: u32| is_flag_bit(bit) implies ((first & bit != 0) <==> (second & bit
        != 0)) by {
        let category = category_of_bit(bit);
        assert(category.spec_bit() == bit);
        assert(category_bit_set(first, category) == category_bit_set(second, category));
    }
    lemma_ten_bits_extensional(first, second);
}

/// A set of categories to ask the service for, held as one bit per category.
///
/// No bit other than those of the ten categories is ever set.
#[derive(Clone, Copy, Debug, PartialEq, Eq, Hash, Structural)]
pub struct AcceptedCategories {
    bits: u32,
}

impl View for AcceptedCategories {
    type V = Set<Category>;

    /// The categories that the set holds.
    open spec fn view(&self) -> Set<Category> {
        Set::new(|category: Category| category_bit_set(self.spec_bits(), category))
    }
}

impl AcceptedCategories {
    #[verifier::type_invariant]
    spec fn known_bits_only(self) -> bool {
        self.bits <= ALL_CATEGORY_BITS
    }

    /// The bits of the set.
    pub closed spec fn spec_bits(self) -> u32 {
        self.bits
    }

    /// The set without any category.
    pub fn empty() -> (set: Self)
        ensures
            set.spec_bits() == 0,
            set@ == Set::<Category>::empty(),
    {
        let set = AcceptedCategories { bits: 0 };
        proof {
            assert forall|category: Category| !category_bit_set(0u32, category) by {
                lemma_flag_bit_algebra(0, 0, category.spec_bit());
            }
            assert(set@ =~= Set::<Category>::empty());
        }
        set
    }

    /// The set of all categories.
    pub fn all() -> (set: Self)
        ensures
            set.spec_bits() == ALL_CATEGORY_BITS,
            forall|category: Category| set@.contains(category),
    {
        let set = AcceptedCategories { bits: ALL_CATEGORY_BITS };
        proof {
            assert forall|category: Category| category_bit_set(0x3ffu32, category) by {
                lemma_flag_bit_algebra(0, 0, category.spec_bit());
            }
        }
        set
    }

    /// The set that holds `category` and nothing else.
    pub fn only(category: Category) -> (set: Self)
        ensures
            set.spec_bits() == category.spec_bit(),
            set@ == set![category],
    {
        let set = AcceptedCategories { bits: category.bit() };
        proof {
            assert forall|other: Category|
                category_bit_set(category.spec_bit(), other) <==> other == category by {
                lemma_category_bits_distinct(category, other);
            }
            assert(set@ =~= set![category]);
        }
        set
    }

    /// The set whose bits are `bits`, unless `bits` has a bit that stands for
    /// no category.
    pub fn from_bits(bits: u32) -> (set: Option<Self>)
        ensures
            set is Some <==> bits <= ALL_CATEGORY_BITS,
            set matches Some(s) ==> s.spec_bits() == bits,
    {
        if bits <= ALL_CATEGORY_BITS {
            Some(AcceptedCategories { bits })
        } else {
            None
        }
    }

    /// The bits of the set.
    pub fn bits(&self) -> (bits: u32)
        ensures
            bits == self.spec_bits(),
            bits <= ALL_CATEGORY_BITS,
    {
        proof {
            use_type_invariant(self);
        }
        self.bits
    }

    /// Whether the set holds no category.
    pub fn is_empty(&self) -> (empty: bool)
        ensures
            empty == (self@ == Set::<Category>::empty()),
            empty == (self.spec_bits() == 0),
    {
        proof {
            use_type_invariant(self);
            assert forall|category: Category| !category_bit_set(0u32, category) by {
                lemma_flag_bit_algebra(0, 0, category.spec_bit());
            }
            if self.bits == 0 {
                assert(self@ =~= Set::<Category>::empty());
            } else if self@ == Set::<Category>::empty() {
                assert forall|category: Category|
                    category_bit_set(self.bits, category) == category_bit_set(
                        0u32,
                        category,
                    ) by {
                    assert(!self@.contains(category));
                }
                lemma_category_bits_extensional(self.bits, 0);
            }
        }
        self.bits == 0
    }

    /// Whether the set holds every category.
    pub fn is_all(&self) -> (all: bool)
        ensures
            all == (forall|category: Category| self@.contains(category)),
            all == (self.spec_bits() == ALL_CATEGORY_BITS),
    {
        proof {
            use_type_invariant(self);
            assert forall|category: Category| category_bit_set(0x3ffu32, category) by {
                lemma_flag_bit_algebra(0, 0, category.spec_bit());
            }
            if self.bits != ALL_CATEGORY_BITS && (forall|category: Category|
                self@.contains(category)) {
                assert forall|category: Category|
                    category_bit_set(self.bits, category) == category_bit_set(
                        0x3ffu32,
                        category,
                    ) by {
                    assert(self@.contains(category));
                }
                lemma_category_bits_extensional(self.bits, ALL_CATEGORY_BITS);
            }
        }
        self.bits == ALL_CATEGORY_BITS
    }

    /// Whether the set holds `category`.
    pub fn accepts(&self, category: Category) -> (accepted: bool)
        ensures
            accepted == self@.contains(category),
    {
        self.bits & category.bit() != 0
    }

    /// Whether the set holds every category of `other`.
    pub fn contains(&self, other: AcceptedCategories) -> (contained: bool)
        ensures
            contained == other@.subset_of(self@),
    {
        let self_bits: u32 = self.bits;
        let other_bits: u32 = other.bits;
        proof {
            use_type_invariant(self);
            use_type_invariant(other);
            if self_bits & other_bits == other_bits {
                assert forall|category: Category| other@.contains(category) implies self@.contains(
                    category,
                ) by {
                    lemma_superset_has_bit(self_bits, other_bits, category.spec_bit());
                }
            } else if other@.subset_of(self@) {
                lemma_mask_closed(self_bits, other_bits, ALL_CATEGORY_BITS);
                assert forall|category: Category|
                    category_bit_set(self_bits & other_bits, category) == category_bit_set(
                        other_bits,
                        category,
                    ) by {
                    lemma_flag_bit_algebra(self_bits, other_bits, category.spec_bit());
                    assert(other@.contains(category) ==> self@.contains(category));
                }
                lemma_category_bits_extensional(self_bits & other_bits, other_bits);
            }
        }
        self_bits & other_bits == other_bits
    }

    /// The set of the categories that are in `self` or in `other`.
    pub fn union(self, other: AcceptedCategories) -> (set: Self)
        ensures
            set@ == self@.union(other@),
            set.spec_bits() == self.spec_bits() | other.spec_bits(),
    {
        let self_bits: u32 = self.bits;
        let other_bits: u32 = other.bits;
        proof {
            use_type_invariant(self);
            use_type_invariant(other);
            lemma_mask_closed(self_bits, other_bits, ALL_CATEGORY_BITS);
        }
        let set = AcceptedCategories { bits: self_bits | other_bits };
        proof {
            assert forall|category: Category|
                category_bit_set(self_bits | other_bits, category) <==> (category_bit_set(
                    self_bits,
                    category,
                ) || category_bit_set(other_bits, category)) by {
                lemma_flag_bit_algebra(self_bits, other_bits, category.spec_bit());
            }
            assert(set@ =~= self@.union(other@));
        }
        set
    }

    /// The set of the categories that are in `self` and in `other`.
    pub fn intersection(self, other: AcceptedCategories) -> (set: Self)
        ensures
            set@ == self@.intersect(other@),
            set.spec_bits() == self.spec_bits() & other.spec_bits(),
    {
        let self_bits: u32 = self.bits;
        let other_bits: u32 = other.bits;
        proof {
            use_type_invariant(self);
            use_type_invariant(other);
            lemma_mask_closed(self_bits, other_bits, ALL_CATEGORY_BITS);
        }
        let set = AcceptedCategories { bits: self_bits & other_bits };
        proof {
            assert forall|category: Category|
                category_bit_set(self_bits & other_bits, category) <==> (category_bit_set(
                    self_bits,
                    category,
                ) && category_bit_set(other_bits, category)) by {
                lemma_flag_bit_algebra(self_bits, other_bits, category.spec_bit());
            }
            assert(set@ =~= self@.intersect(other@));
        }
        set
    }

    /// The set of the categories that are in `self` and not in `other`.
    pub fn difference(self, other: AcceptedCategories) -> (set: Self)
        ensures
            set@ == self@.difference(other@),
            set.spec_bits() == self.spec_bits() & !other.spec_bits(),
    {
        let self_bits: u32 = self.bits;
        let other_bits: u32 = other.bits;
        proof {
            use_type_invariant(self);
            use_type_invariant(other);
            lemma_mask_closed(self_bits, other_bits, ALL_CATEGORY_BITS);
        }
        let set = AcceptedCategories { bits: self_bits & !other_bits };
        proof {
            assert forall|category: Category|
                category_bit_set(self_bits & !other_bits, category) <==> (category_bit_set(
                    self_bits,
                    category,
                ) && !category_bit_set(other_bits, category)) by {
                lemma_flag_bit_algebra(self_bits, other_bits, category.spec_bit());
            }
            assert(set@ =~= self@.difference(other@));
        }
        set
    }

    /// Adds the categories of `other` to the set.
    pub fn insert(&mut self, other: AcceptedCategories)
        ensures
            final(self)@ == old(self)@.union(other@),
    {
        *self = self.union(other);
    }

    /// Takes the categories of `other` out of the set.
    pub fn remove(&mut self, other: AcceptedCategories)
        ensures
            final(self)@ == old(self)@.difference(other@),
    {
        *self = self.difference(other);
    }
}

impl Default for AcceptedCategories {
    /// The most permissive set: every category.
    fn default() -> (set: AcceptedCategories)
        ensures
            set.spec_bits() == ALL_CATEGORY_BITS,
            forall|category: Category| set@.contains(category),
    {
        AcceptedCategories::all()
    }
}

} // verus!
