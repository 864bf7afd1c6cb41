//! Segments and the vocabulary that classifies them.

pub mod action;
pub mod bits;
pub mod category;

use vstd::prelude::*;
use crate::segment::action::{Action, ActionKind};
use crate::segment::category::Category;

verus! {

/// What the service knows of a segment beyond what is needed to act on it.
/// Only the request for full segment information fills it in.
#[derive(Clone, Debug, PartialEq, Eq)]
pub struct AdditionalSegmentInfo {
    /// The video that the segment belongs to.
    pub video_id: String,
    /// How many votes called the segment incorrect.
    pub incorrect_votes: u32,
    /// The public ID of the user who submitted the segment.
    pub submitter_id: String,
    /// When the segment was submitted, in milliseconds since the Unix epoch.
    pub time_submitted: i64,
    /// How often the segment was viewed.
    pub views: u32,
    /// The service that hosts the video.
    pub service: String,
    /// Whether the segment is hidden.
    pub hidden: bool,
    /// The reputation of the submitter when the segment was submitted, in
    /// thousandths.
    pub submitter_reputation: i64,
    /// Whether the submitter is shadow-banned.
    pub shadow_banned: bool,
    /// The user agent that the segment was submitted with.
    pub submitter_user_agent: String,
}

impl Default for AdditionalSegmentInfo {
    fn default() -> (info: AdditionalSegmentInfo)
        ensures
            info.video_id@.len() == 0,
            info.incorrect_votes == 0,
            info.submitter_id@.len() == 0,
            info.time_submitted == 0,
            info.views == 0,
            info.service@.len() == 0,
            !info.hidden,
            info.submitter_reputation == 0,
            !info.shadow_banned,
            info.submitter_user_agent@.len() == 0,
    {
        AdditionalSegmentInfo {
            video_id: String::new(),
            incorrect_votes: 0,
            submitter_id: String::new(),
            time_submitted: 0,
            views: 0,
            service: String::new(),
            hidden: false,
            submitter_reputation: 0,
            shadow_banned: false,
            submitter_user_agent: String::new(),
        }
    }
}

/// A classified stretch of a video, or a classified point in it.
#[derive(Clone, Debug, PartialEq, Eq)]
pub struct Segment {
    /// What the segment is.
    pub category: Category,
    /// What to do with it, and when.
    pub action: Action,
    /// The identifier that the service gave the segment.
    pub uuid: String,
    /// Whether moderators have closed the segment to further votes.
    pub locked: bool,
    /// The votes for the segment less those against it.
    pub votes: i32,
    /// The length of the video when the segment was submitted, in thousandths
    /// of a second. `None` where the service never recorded it.
    pub video_duration_on_submission: Option<i64>,
    /// What else the service knows of the segment, where it was asked for.
    pub additional_info: Option<AdditionalSegmentInfo>,
}

impl Segment {
    /// Whether the segment is consistent in itself: its times are not
    /// negative and in order, a recorded video length is positive, and a
    /// highlight is a point of interest.
    pub open spec fn well_formed(&self) -> bool {
        &&& self.action.well_formed()
        &&& self.video_duration_on_submission matches Some(duration) ==> duration > 0
        &&& self.category == Category::Highlight ==> self.action.spec_kind()
            == ActionKind::PointOfInterest
    }

    /// The length of the segment, in thousandths of a second; zero for a
    /// point and for a label of the whole video.
    pub fn duration(&self) -> (duration: i64)
        requires
            self.action.well_formed(),
        ensures
            duration == self.action.spec_duration(),
            duration >= 0,
    {
        self.action.duration()
    }

    /// Whether the additional information has yet to be asked for.
    pub fn lacks_additional_info(&self) -> (lacking: bool)
        ensures
            lacking == (self.additional_info is None),
    {
        self.additional_info.is_none()
    }

    /// Takes the additional information over from `fetched`, the same
    /// segment as the request for full information gave it. Nothing else
    /// changes.
    pub fn fill_additional_info(&mut self, fetched: Segment)
        ensures
            final(self).additional_info == fetched.additional_info,
            final(self).category == old(self).category,
            final(self).action == old(self).action,
            final(self).uuid == old(self).uuid,
            final(self).locked == old(self).locked,
            final(self).votes == old(self).votes,
            final(self).video_duration_on_submission == old(self).video_duration_on_submission,
    {
        self.additional_info = fetched.additional_info;
    }
}

} // verus!
