//! What to do with a segment, and sets of such actions.

use vstd::prelude::*;
use crate::segment::bits::{
    lemma_flag_bit_algebra, lemma_flag_bits_disjoint, lemma_four_bits_extensional,
    lemma_mask_closed, lemma_superset_has_bit,
};

verus! {

/// The kind of handling that a submitter recommends for a segment.
///
/// The variants are declared in canonical order: the order in which a set of
/// actions is written into a request.
#[derive(Clone, Copy, Debug, PartialEq, Eq, Hash, Structural)]
pub enum ActionKind {
    /// Skip the segment.
    Skip,
    /// Mute the segment without skipping it.
    Mute,
    /// A single point in the video: something to skip to.
    PointOfInterest,
    /// A label for the whole video.
    FullVideo,
}

/// How many kinds of action there are.
pub const ACTION_COUNT: usize = 4;

/// The bits of a set that holds every kind of action.
pub const ALL_ACTION_BITS: u32 = 0xf;

/// The recommended handling of a segment, together with the times it applies
/// to. Times are in thousandths of a second from the start of the video.
#[derive(Clone, Copy, Debug, PartialEq, Eq, Hash, Structural)]
pub enum Action {
    /// Skip from the first time to the second.
    Skip(i64, i64),
    /// Mute from the first time to the second.
    Mute(i64, i64),
    /// A single point in the video.
    PointOfInterest(i64),
    /// The whole video; no time belongs to it.
    FullVideo,
}

impl ActionKind {
    /// The position of the kind in canonical order.
    pub open spec fn spec_index(self) -> nat {
        match self {
            ActionKind::Skip => 0,
            ActionKind::Mute => 1,
            ActionKind::PointOfInterest => 2,
            ActionKind::FullVideo => 3,
        }
    }

    /// The kind at a position of the canonical order.
    pub open spec fn spec_from_index(index: nat) -> Option<ActionKind> {
        if index == 0 {
            Some(ActionKind::Skip)
        } else if index == 1 {
            Some(ActionKind::Mute)
        } else if index == 2 {
            Some(ActionKind::PointOfInterest)
        } else if index == 3 {
            Some(ActionKind::FullVideo)
        } else {
            None
        }
    }

    /// The bit that stands for the kind in a set: bit `spec_index()`.
    pub open spec fn spec_bit(self) -> u32 {
        match self {
            ActionKind::Skip => 0x1,
            ActionKind::Mute => 0x2,
            ActionKind::PointOfInterest => 0x4,
            ActionKind::FullVideo => 0x8,
        }
    }

    /// The action of this kind over a pair of times: a range for `Skip` and
    /// `Mute`, the first time alone for `PointOfInterest`, no time for
    /// `FullVideo`.
    pub open spec fn spec_to_action(self, start: i64, end: i64) -> Action {
        match self {
            ActionKind::Skip => Action::Skip(start, end),
            ActionKind::Mute => Action::Mute(start, end),
            ActionKind::PointOfInterest => Action::PointOfInterest(start),
            ActionKind::FullVideo => Action::FullVideo,
        }
    }

    /// The position of the kind in canonical order.
    pub fn index(self) -> (index: usize)
        ensures
            index == self.spec_index(),
            index < ACTION_COUNT,
    {
        match self {
            ActionKind::Skip => 0,
            ActionKind::Mute => 1,
            ActionKind::PointOfInterest => 2,
            ActionKind::FullVideo => 3,
        }
    }

    /// The kind at a position of the canonical order, if there is one.
    pub fn from_index(index: usize) -> (kind: Option<ActionKind>)
        ensures
            kind == ActionKind::spec_from_index(index as nat),
            kind is Some <==> index < ACTION_COUNT,
            kind matches Some(k) ==> k.spec_index() == index,
    {
        if index == 0 {
            Some(ActionKind::Skip)
        } else if index == 1 {
            Some(ActionKind::Mute)
        } else if index == 2 {
            Some(ActionKind::PointOfInterest)
        } else if index == 3 {
            Some(ActionKind::FullVideo)
        } else {
            None
        }
    }

    /// The bit that stands for the kind in a set.
    pub fn bit(self) -> (bit: u32)
        ensures
            bit == self.spec_bit(),
    {
        match self {
            ActionKind::Skip => 0x1,
            ActionKind::Mute => 0x2,
            ActionKind::PointOfInterest => 0x4,
            ActionKind::FullVideo => 0x8,
        }
    }

    /// The action of this kind over a pair of times.
    pub fn to_action(self, start: i64, end: i64) -> (action: Action)
        ensures
            action == self.spec_to_action(start, end),
            action.spec_kind() == self,
    {
        match self {
            ActionKind::Skip => Action::Skip(start, end),
            ActionKind::Mute => Action::Mute(start, end),
            ActionKind::PointOfInterest => Action::PointOfInterest(start),
            ActionKind::FullVideo => Action::FullVideo,
        }
    }
}

impl Default for ActionKind {
    fn default() -> (kind: ActionKind)
        ensures
            kind == ActionKind::Skip,
    {
        ActionKind::Skip
    }
}

impl Action {
    /// The kind of the action, without its times.
    pub open spec fn spec_kind(self) -> ActionKind {
        match self {
            Action::Skip(_, _) => ActionKind::Skip,
            Action::Mute(_, _) => ActionKind::Mute,
            Action::PointOfInterest(_) => ActionKind::PointOfInterest,
            Action::FullVideo => ActionKind::FullVideo,
        }
    }

    /// Whether the times of the action make sense: none is negative, and a
    /// range does not end before it starts.
    pub open spec fn well_formed(self) -> bool {
        match self {
            Action::Skip(start, end) => 0 <= start <= end,
            Action::Mute(start, end) => 0 <= start <= end,
            Action::PointOfInterest(point) => 0 <= point,
            Action::FullVideo => true,
        }
    }

    /// The length of the range that the action covers; zero where it covers
    /// a point or no time.
    pub open spec fn spec_duration(self) -> int {
        match self {
            Action::Skip(start, end) => end - start,
            Action::Mute(start, end) => end - start,
            Action::PointOfInterest(_) => 0,
            Action::FullVideo => 0,
        }
    }

    /// The kind of the action, without its times.
    pub fn kind(&self) -> (kind: ActionKind)
        ensures
            kind == self.spec_kind(),
    {
        match self {
            Action::Skip(_, _) => ActionKind::Skip,
            Action::Mute(_, _) => ActionKind::Mute,
            Action::PointOfInterest(_) => ActionKind::PointOfInterest,
            Action::FullVideo => ActionKind::FullVideo,
        }
    }

    /// The length of the range that the action covers, in thousandths of a
    /// second; zero where it covers a point or no time.
    pub fn duration(&self) -> (duration: i64)
        requires
            self.well_formed(),
        ensures
            duration == self.spec_duration(),
            duration >= 0,
    {
        match self {
            Action::Skip(start, end) => *end - *start,
            Action::Mute(start, end) => *end - *start,
            Action::PointOfInterest(_) => 0,
            Action::FullVideo => 0,
        }
    }
}

/// Whether the bit of `kind` is set in `bits`.
pub open spec fn action_bit_set(bits: u32, kind: ActionKind) -> bool {
    bits & kind.spec_bit() != 0
}

/// The bit of one kind is set in the bit of another only if the two are the
/// same kind.
pub proof fn lemma_action_bits_distinct(first: ActionKind, second: ActionKind)
    ensures
        action_bit_set(first.spec_bit(), second) <==> first == second,
{
    if first == second {
        lemma_flag_bit_algebra(0, 0, first.spec_bit());
    } else {
        lemma_flag_bits_disjoint(first.spec_bit(), second.spec_bit());
    }
}

/// Two sets of bits within the four action bits that hold the same kinds are
/// the same bits.
pub proof fn lemma_action_bits_extensional(first: u32, second: u32)
    requires
        first <= ALL_ACTION_BITS,
        second <= ALL_ACTION_BITS,
        forall|kind: ActionKind| action_bit_set(first, kind) == action_bit_set(second, kind),
    ensures
        first == second,
{
    assert(action_bit_set(first, ActionKind::Skip) == action_bit_set(second, ActionKind::Skip));
    assert(action_bit_set(first, ActionKind::Mute) == action_bit_set(second, ActionKind::Mute));
    assert(action_bit_set(first, ActionKind::PointOfInterest) == action_bit_set(
        second,
        ActionKind::PointOfInterest,
    ));
    assert(action_bit_set(first, ActionKind::FullVideo) == action_bit_set(
        second,
        ActionKind::FullVideo,
    ));
    lemma_four_bits_extensional(first, second);
}

/// A set of kinds of action to ask the service for, held as one bit per kind.
///
/// No bit other than those of the four kinds is ever set.
#[derive(Clone, Copy, Debug, PartialEq, Eq, Hash, Structural)]
pub struct AcceptedActions {
    bits: u32,
}

impl View for AcceptedActions {
    type V = Set<ActionKind>;

    /// The kinds that the set holds.
    open spec fn view(&self) -> Set<ActionKind> {
        Set::new(|kind: ActionKind| action_bit_set(self.spec_bits(), kind))
    }
}

impl AcceptedActions {
    #[verifier::type_invariant]
    spec fn known_bits_only(self) -> bool {
        self.bits <= ALL_ACTION_BITS
    }

    /// The bits of the set.
    pub closed spec fn spec_bits(self) -> u32 {
        self.bits
    }

    /// The set without any kind of action.
    pub fn empty() -> (set: Self)
        ensures
            set.spec_bits() == 0,
            set@ == Set::<ActionKind>::empty(),
    {
        let set = AcceptedActions { bits: 0 };
        proof {
            assert forall|kind: ActionKind| !action_bit_set(0u32, kind) by {
                lemma_flag_bit_algebra(0, 0, kind.spec_bit());
            }
            assert(set@ =~= Set::<ActionKind>::empty());
        }
        set
    }

    /// The set of all kinds of action.
    pub fn all() -> (set: Self)
        ensures
            set.spec_bits() == ALL_ACTION_BITS,
            forall|kind: ActionKind| set@.contains(kind),
    {
        let set = AcceptedActions { bits: ALL_ACTION_BITS };
        proof {
            assert forall|kind: ActionKind| action_bit_set(0xfu32, kind) by {
                lemma_flag_bit_algebra(0, 0, kind.spec_bit());
            }
        }
        set
    }

    /// The set that holds `kind` and nothing else.
    pub fn only(kind: ActionKind) -> (set: Self)
        ensures
            set.spec_bits() == kind.spec_bit(),
            set@ == set![kind],
    {
        let set = AcceptedActions { bits: kind.bit() };
        proof {
            assert forall|other: ActionKind|
                action_bit_set(kind.spec_bit(), other) <==> other == kind by {
                lemma_action_bits_distinct(kind, other);
            }
            assert(set@ =~= set![kind]);
        }
        set
    }

    /// The set whose bits are `bits`, unless `bits` has a bit that stands for
    /// no kind of action.
    pub fn from_bits(bits: u32) -> (set: Option<Self>)
        ensures
            set is Some <==> bits <= ALL_ACTION_BITS,
            set matches Some(s) ==> s.spec_bits() == bits,
    {
        if bits <= ALL_ACTION_BITS {
            Some(AcceptedActions { bits })
        } else {
            None
        }
    }

    /// The bits of the set.
    pub fn bits(&self) -> (bits: u32)
        ensures
            bits == self.spec_bits(),
            bits <= ALL_ACTION_BITS,
    {
        proof {
            use_type_invariant(self);
        }
        self.bits
    }

    /// Whether the set holds no kind of action.
    pub fn is_empty(&self) -> (empty: bool)
        ensures
            empty == (self@ == Set::<ActionKind>::empty()),
            empty == (self.spec_bits() == 0),
    {
        proof {
            use_type_invariant(self);
            assert forall|kind: ActionKind| !action_bit_set(0u32, kind) by {
                lemma_flag_bit_algebra(0, 0, kind.spec_bit());
            }
            if self.bits == 0 {
                assert(self@ =~= Set::<ActionKind>::empty());
            } else if self@ == Set::<ActionKind>::empty() {
                assert forall|kind: ActionKind|
                    action_bit_set(self.bits, kind) == action_bit_set(0u32, kind) by {
                    assert(!self@.contains(kind));
                }
                lemma_action_bits_extensional(self.bits, 0);
            }
        }
        self.bits == 0
    }

    /// Whether the set holds every kind of action.
    pub fn is_all(&self) -> (all: bool)
        ensures
            all == (forall|kind: ActionKind| self@.contains(kind)),
            all == (self.spec_bits() == ALL_ACTION_BITS),
    {
        proof {
            use_type_invariant(self);
            assert forall|kind: ActionKind| action_bit_set(0xfu32, kind) by {
                lemma_flag_bit_algebra(0, 0, kind.spec_bit());
            }
            if self.bits != ALL_ACTION_BITS && (forall|kind: ActionKind| self@.contains(kind)) {
                assert forall|kind: ActionKind|
                    action_bit_set(self.bits, kind) == action_bit_set(0xfu32, kind) by {
                    assert(self@.contains(kind));
                }
                lemma_action_bits_extensional(self.bits, ALL_ACTION_BITS);
            }
        }
        self.bits == ALL_ACTION_BITS
    }

    /// Whether the set holds `kind`.
    pub fn accepts(&self, kind: ActionKind) -> (accepted: bool)
        ensures
            accepted == self@.contains(kind),
    {
        self.bits & kind.bit() != 0
    }

    /// Whether the set holds every kind of `other`.
    pub fn contains(&self, other: AcceptedActions) -> (contained: bool)
        ensures
            contained == other@.subset_of(self@),
    {
        let self_bits: u32 = self.bits;
        let other_bits: u32 = other.bits;
        proof {
            use_type_invariant(self);
            use_type_invariant(other);
            if self_bits & other_bits == other_bits {
                assert forall|kind: ActionKind| other@.contains(kind) implies self@.contains(
                    kind,
                ) by {
                    lemma_superset_has_bit(self_bits, other_bits, kind.spec_bit());
                }
            } else if other@.subset_of(self@) {
                lemma_mask_closed(self_bits, other_bits, ALL_ACTION_BITS);
                assert forall|kind: ActionKind|
                    action_bit_set(self_bits & other_bits, kind) == action_bit_set(
                        other_bits,
                        kind,
                    ) by {
                    lemma_flag_bit_algebra(self_bits, other_bits, kind.spec_bit());
                    assert(other@.contains(kind) ==> self@.contains(kind));
                }
                lemma_action_bits_extensional(self_bits & other_bits, other_bits);
            }
        }
        self_bits & other_bits == other_bits
    }

    /// The set of the kinds that are in `self` or in `other`.
    pub fn union(self, other: AcceptedActions) -> (set: Self)
        ensures
            set@ == self@.union(other@),
            set.spec_bits() == self.spec_bits() | other.spec_bits(),
    {
        let self_bits: u32 = self.bits;
        let other_bits: u32 = other.bits;
        proof {
            use_type_invariant(self);
            use_type_invariant(other);
            lemma_mask_closed(self_bits, other_bits, ALL_ACTION_BITS);
        }
        let set = AcceptedActions { bits: self_bits | other_bits };
        proof {
            assert forall|kind: ActionKind|
                action_bit_set(self_bits | other_bits, kind) <==> (action_bit_set(self_bits, kind)
                    || action_bit_set(other_bits, kind)) by {
                lemma_flag_bit_algebra(self_bits, other_bits, kind.spec_bit());
            }
            assert(set@ =~= self@.union(other@));
        }
        set
    }

    /// The set of the kinds that are in `self` and in `other`.
    pub fn intersection(self, other: AcceptedActions) -> (set: Self)
        ensures
            set@ == self@.intersect(other@),
            set.spec_bits() == self.spec_bits() & other.spec_bits(),
    {
        let self_bits: u32 = self.bits;
        let other_bits: u32 = other.bits;
        proof {
            use_type_invariant(self);
            use_type_invariant(other);
            lemma_mask_closed(self_bits, other_bits, ALL_ACTION_BITS);
        }
        let set = AcceptedActions { bits: self_bits & other_bits };
        proof {
            assert forall|kind: ActionKind|
                action_bit_set(self_bits & other_bits, kind) <==> (action_bit_set(self_bits, kind)
                    && action_bit_set(other_bits, kind)) by {
                lemma_flag_bit_algebra(self_bits, other_bits, kind.spec_bit());
            }
            assert(set@ =~= self@.intersect(other@));
        }
        set
    }

    /// The set of the kinds that are in `self` and not in `other`.
    pub fn difference(self, other: AcceptedActions) -> (set: Self)
        ensures
            set@ == self@.difference(other@),
            set.spec_bits() == self.spec_bits() & !other.spec_bits(),
    {
        let self_bits: u32 = self.bits;
        let other_bits: u32 = other.bits;
        proof {
            use_type_invariant(self);
            use_type_invariant(other);
            lemma_mask_closed(self_bits, other_bits, ALL_ACTION_BITS);
        }
        let set = AcceptedActions { bits: self_bits & !other_bits };
        proof {
            assert forall|kind: ActionKind|
                action_bit_set(self_bits & !other_bits, kind) <==> (action_bit_set(self_bits, kind)
                    && !action_bit_set(other_bits, kind)) by {
                lemma_flag_bit_algebra(self_bits, other_bits, kind.spec_bit());
            }
            assert(set@ =~= self@.difference(other@));
        }
        set
    }

    /// Adds the kinds of `other` to the set.
    pub fn insert(&mut self, other: AcceptedActions)
        ensures
            final(self)@ == old(self)@.union(other@),
    {
        *self = self.union(other);
    }

    /// Takes the kinds of `other` out of the set.
    pub fn remove(&mut self, other: AcceptedActions)
        ensures
            final(self)@ == old(self)@.difference(other@),
    {
        *self = self.difference(other);
    }
}

impl Default for AcceptedActions {
    /// The most permissive set: every kind of action.
    fn default() -> (set: AcceptedActions)
        ensures
            set.spec_bits() == ALL_ACTION_BITS,
            forall|kind: ActionKind| set@.contains(kind),
    {
        AcceptedActions::all()
    }
}

} // verus!
