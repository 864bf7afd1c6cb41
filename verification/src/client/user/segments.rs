//! Segments as the service sends them, and their way into the form that the
//! rest of the library works with.

use sha2::{Digest, Sha256};
use vstd::prelude::*;
use vstd::string::*;
use vstd::utf8::encode_utf8;
use crate::api::{
    accepted_action_names, accepted_category_names, action_named, category_named,
    convert_action_bitflags_to_url, convert_category_bitflags_to_url, convert_to_action_type,
    convert_to_segment_kind, ACTION_TYPE_FIELD, CATEGORY_FIELD,
};
use crate::client::{ClientBuilder, Request, RequestView};
use crate::error::{BadData, ErrorView, SponsorBlockError};
use crate::segment::action::{AcceptedActions, Action, ActionKind};
use crate::segment::category::{AcceptedCategories, Category};
use crate::segment::{AdditionalSegmentInfo, Segment};
use crate::util::de::{
    bool_from_integer, none_on_zero, spec_bool_from_integer, spec_none_on_zero,
};
use crate::util::{bytes_to_hex_string, hex_string, str_eq, texts_of, to_url_array, url_array};

verus! {

/// The additional information on a segment as it stands in an answer of the
/// service: every yes or no is a number, zero for no.
#[derive(Clone, Debug, PartialEq, Eq)]
pub struct RawAdditionalSegmentInfo {
    /// The video that the segment belongs to.
    pub video_id: String,
    /// How many votes called the segment incorrect.
    pub incorrect_votes: u32,
    /// The public ID of the user who submitted the segment.
    pub submitter_id: String,
    /// When the segment was submitted, in milliseconds since the Unix epoch.
    pub time_submitted: i64,
    /// How often the segment was viewed.
    pub views: u32,
    /// The service that hosts the video.
    pub service: String,
    /// Whether the segment is hidden, as a number: zero for no.
    pub hidden: i64,
    /// The reputation of the submitter when the segment was submitted, in
    /// thousandths.
    pub submitter_reputation: i64,
    /// Whether the submitter is shadow-banned, as a number: zero for no.
    pub shadow_banned: i64,
    /// The user agent that the segment was submitted with.
    pub submitter_user_agent: String,
}

/// A segment as it stands in an answer of the service. Times are in
/// thousandths of a second.
#[derive(Clone, Debug, PartialEq, Eq)]
pub struct RawSegment {
    /// The token of the category.
    pub category: String,
    /// The token of the kind of action.
    pub action_type: String,
    /// The start and the end, where the answer gives them as a pair.
    pub time_points: Option<(i64, i64)>,
    /// The start, where the answer gives it on its own.
    pub start_time: Option<i64>,
    /// The end, where the answer gives it on its own.
    pub end_time: Option<i64>,
    /// The identifier that the service gave the segment.
    pub uuid: String,
    /// Whether the segment is locked, as a number: zero for no.
    pub locked: i64,
    /// The votes for the segment less those against it.
    pub votes: i32,
    /// The length of the video on submission. Zero stands for a length that
    /// was never recorded.
    pub video_duration_upon_submission: Option<i64>,
    /// The additional information. Where the answer has none, the fields
    /// hold placeholders.
    pub additional_info: RawAdditionalSegmentInfo,
}

impl RawAdditionalSegmentInfo {
    /// The same information with each number that stands for a yes or no
    /// turned into one.
    pub open spec fn normalized(self) -> AdditionalSegmentInfo {
        AdditionalSegmentInfo {
            video_id: self.video_id,
            incorrect_votes: self.incorrect_votes,
            submitter_id: self.submitter_id,
            time_submitted: self.time_submitted,
            views: self.views,
            service: self.service,
            hidden: spec_bool_from_integer(self.hidden),
            submitter_reputation: self.submitter_reputation,
            shadow_banned: spec_bool_from_integer(self.shadow_banned),
            submitter_user_agent: self.submitter_user_agent,
        }
    }

    /// Turns each number that stands for a yes or no into one.
    pub fn convert_to_additional_info(self) -> (info: AdditionalSegmentInfo)
        ensures
            info == self.normalized(),
    {
        AdditionalSegmentInfo {
            video_id: self.video_id,
            incorrect_votes: self.incorrect_votes,
            submitter_id: self.submitter_id,
            time_submitted: self.time_submitted,
            views: self.views,
            service: self.service,
            hidden: bool_from_integer(self.hidden),
            submitter_reputation: self.submitter_reputation,
            shadow_banned: bool_from_integer(self.shadow_banned),
            submitter_user_agent: self.submitter_user_agent,
        }
    }
}

impl RawSegment {
    /// The start and the end of the segment: the pair where the answer has
    /// one, else the start and the end that it gives separately. `None` where
    /// it has neither.
    pub open spec fn times(&self) -> Option<(i64, i64)> {
        match self.time_points {
            Some(points) => Some(points),
            None => match (self.start_time, self.end_time) {
                (Some(start), Some(end)) => Some((start, end)),
                _ => None,
            },
        }
    }

    /// Why the segment is turned down, if it is. The rules are tried in this
    /// order: the category token is known; the action token is known; the
    /// times are there; the start is not after the end; the start is not
    /// negative; the recorded length of the video is not negative. An end
    /// that is negative breaks one of the two rules on the start.
    pub open spec fn rejection(&self) -> Option<ErrorView> {
        if category_named(self.category@) is None {
            Some(ErrorView::UnknownValue { kind: CATEGORY_FIELD@, value: self.category@ })
        } else if action_named(self.action_type@) is None {
            Some(ErrorView::UnknownValue { kind: ACTION_TYPE_FIELD@, value: self.action_type@ })
        } else {
            match self.times() {
                None => Some(ErrorView::BadData(BadData::MissingTimes)),
                Some((start, end)) => if start > end {
                    Some(ErrorView::BadData(BadData::StartAfterEnd { start, end }))
                } else if start < 0 {
                    Some(ErrorView::BadData(BadData::NegativeStart { start }))
                } else {
                    match self.video_duration_upon_submission {
                        Some(duration) => if duration < 0 {
                            Some(
                                ErrorView::BadData(BadData::NegativeVideoDuration { duration }),
                            )
                        } else {
                            None
                        },
                        None => None,
                    }
                },
            }
        }
    }

    /// The kind of action of the segment: what the action token says, but a
    /// point of interest for every highlight, whatever the token.
    pub open spec fn action_kind(&self) -> ActionKind {
        if category_named(self.category@) == Some(Category::Highlight) {
            ActionKind::PointOfInterest
        } else {
            action_named(self.action_type@).unwrap()
        }
    }

    /// The segment that the record stands for, given that it is not turned
    /// down. The additional information is kept only if `additional_info`
    /// says so.
    pub open spec fn normalized(self, additional_info: bool) -> Segment {
        Segment {
            category: category_named(self.category@).unwrap(),
            action: self.action_kind().spec_to_action(
                self.times().unwrap().0,
                self.times().unwrap().1,
            ),
            uuid: self.uuid,
            locked: spec_bool_from_integer(self.locked),
            votes: self.votes,
            video_duration_on_submission: spec_none_on_zero(self.video_duration_upon_submission),
            additional_info: if additional_info {
                Some(self.additional_info.normalized())
            } else {
                None
            },
        }
    }

    /// Checks a segment as the service sent it and turns it into a
    /// `Segment`.
    ///
    /// `additional_info` says whether the answer was one that carries
    /// additional information; where it was not, the placeholders in the
    /// record are dropped.
    pub fn convert_to_segment(self, additional_info: bool) -> (result: Result<
        Segment,
        SponsorBlockError,
    >)
        ensures
            match result {
                Ok(segment) => self.rejection() is None && segment == self.normalized(
                    additional_info,
                ) && segment.well_formed(),
                Err(error) => self.rejection() == Some(error@),
            },
    {
        let category = match convert_to_segment_kind(self.category.as_str()) {
            Ok(category) => category,
            Err(unknown) => {
                return Err(SponsorBlockError::UnknownValue(unknown));
            },
        };
        let mut action_type = match convert_to_action_type(self.action_type.as_str()) {
            Ok(kind) => kind,
            Err(unknown) => {
                return Err(SponsorBlockError::UnknownValue(unknown));
            },
        };
        let (start, end) = match self.time_points {
            Some(points) => points,
            None => match (self.start_time, self.end_time) {
                (Some(start), Some(end)) => (start, end),
                _ => {
                    return Err(SponsorBlockError::BadData(BadData::MissingTimes));
                },
            },
        };
        if start > end {
            return Err(SponsorBlockError::BadData(BadData::StartAfterEnd { start, end }));
        }
        if start < 0 {
            return Err(SponsorBlockError::BadData(BadData::NegativeStart { start }));
        }
        if let Some(duration) = self.video_duration_upon_submission {
            if duration < 0 {
                return Err(
                    SponsorBlockError::BadData(BadData::NegativeVideoDuration { duration }),
                );
            }
        }
        // The service reports `skip` for a highlight unless it was asked for
        // points of interest; a highlight is one whatever it reports.

        if category == Category::Highlight {
            action_type = ActionKind::PointOfInterest;
        }
        Ok(
            Segment {
                category,
                action: action_type.to_action(start, end),
                uuid: self.uuid,
                locked: bool_from_integer(self.locked),
                votes: self.votes,
                video_duration_on_submission: none_on_zero(self.video_duration_upon_submission),
                additional_info: if additional_info {
                    Some(self.additional_info.convert_to_additional_info())
                } else {
                    None
                },
            },
        )
    }
}


/// A record is accepted exactly when both of its tokens are known, its times
/// are there, the start is neither negative nor after the end, and the
/// length of the video, where one is given, is not negative.
pub proof fn lemma_accepted_exactly_when_sound(record: RawSegment)
    ensures
        record.rejection() is None <==> {
            &&& category_named(record.category@) is Some
            &&& action_named(record.action_type@) is Some
            &&& record.times() matches Some((start, end)) && 0 <= start <= end
            &&& record.video_duration_upon_submission matches Some(duration) ==> duration >= 0
        },
{
}

/// A record with a negative start or a negative end is turned down.
pub proof fn lemma_negative_time_is_rejected(record: RawSegment)
    ensures
        record.times() matches Some((start, end)) && (start < 0 || end < 0)
            ==> record.rejection() is Some,
{
}

/// The two ways of giving the times of a segment come to the same: a record
/// with a pair of times and one with the same start and end given apart are
/// turned down for the same reason or stand for the same segment.
pub proof fn lemma_time_encodings_equivalent(
    paired: RawSegment,
    apart: RawSegment,
    start: i64,
    end: i64,
    flag: bool,
)
    requires
        paired.time_points == Some((start, end)),
        apart == (RawSegment {
            time_points: None,
            start_time: Some(start),
            end_time: Some(end),
            ..paired
        }),
    ensures
        paired.rejection() == apart.rejection(),
        paired.normalized(flag) == apart.normalized(flag),
{
}

/// A length of the video of zero stands for a length that was never
/// recorded: it comes out as absent, and any other length as itself.
pub proof fn lemma_unrecorded_duration_is_absent(record: RawSegment, flag: bool)
    ensures
        record.normalized(flag).video_duration_on_submission is None <==> (
        record.video_duration_upon_submission is None || record.video_duration_upon_submission
            == Some(0i64)),
        record.normalized(flag).video_duration_on_submission matches Some(duration)
            ==> record.video_duration_upon_submission == Some(duration),
{
}

/// A highlight comes out as a point of interest at its start, whatever its
/// action token says.
pub proof fn lemma_highlight_is_point_of_interest(record: RawSegment, flag: bool)
    requires
        category_named(record.category@) == Some(Category::Highlight),
    ensures
        record.times() matches Some((start, end)) ==> record.normalized(flag).action
            == Action::PointOfInterest(start),
{
}

/// The additional information is kept exactly when it was asked for.
pub proof fn lemma_additional_info_follows_flag(record: RawSegment, flag: bool)
    ensures
        record.normalized(flag).additional_info is Some <==> flag,
{
}

/// One of the videos that the service offers for a hash prefix: a video the
/// hash of whose ID starts with the prefix, with its segments.
#[derive(Clone, Debug, PartialEq, Eq)]
pub struct RawHashMatch {
    /// The ID of the video.
    pub video_id: String,
    /// The hash of the ID.
    pub hash: String,
    /// The segments of the video.
    pub segments: Vec<RawSegment>,
}

/// The error of the first record that is turned down, if one is.
pub open spec fn first_rejection(records: Seq<RawSegment>) -> Option<ErrorView>
    decreases records.len(),
{
    if records.len() == 0 {
        None
    } else if records[0].rejection() is Some {
        records[0].rejection()
    } else {
        first_rejection(records.drop_first())
    }
}

/// The segment that each record stands for.
pub open spec fn normalized_all(records: Seq<RawSegment>, additional_info: bool) -> Seq<Segment> {
    records.map_values(|record: RawSegment| record.normalized(additional_info))
}

/// The first of the candidates that is the video with the given ID, if one
/// is.
pub open spec fn first_match(candidates: Seq<RawHashMatch>, video_id: Seq<char>) -> Option<
    RawHashMatch,
>
    decreases candidates.len(),
{
    if candidates.len() == 0 {
        None
    } else if candidates[0].video_id@ == video_id {
        Some(candidates[0])
    } else {
        first_match(candidates.drop_first(), video_id)
    }
}

/// No record is turned down exactly when none has a rejection; and where one
/// is, the error is that of the first such record.
pub proof fn lemma_first_rejection(records: Seq<RawSegment>)
    ensures
        first_rejection(records) is None <==> forall|i: int|
            0 <= i < records.len() ==> (#[trigger] records[i]).rejection() is None,
        first_rejection(records) is Some ==> exists|index: int|
            {
                &&& 0 <= index < records.len()
                &&& (#[trigger] records[index]).rejection() == first_rejection(records)
                &&& forall|earlier: int|
                    0 <= earlier < index ==> (#[trigger] records[earlier]).rejection() is None
            },
    decreases records.len(),
{
    if records.len() > 0 {
        let rest = records.drop_first();
        lemma_first_rejection(rest);
        assert forall|i: int| 0 <= i < rest.len() implies #[trigger] rest[i] == records[i + 1] by {}
        if records[0].rejection() is Some {
            assert(records[0].rejection() == first_rejection(records));
        } else {
            if first_rejection(rest) is None {
                assert forall|i: int| 0 <= i < records.len() implies (
                #[trigger] records[i]).rejection() is None by {
                    if i > 0 {
                        assert(rest[i - 1].rejection() is None);
                    }
                }
            } else {
                let tail_index = choose|index: int|
                    {
                        &&& 0 <= index < rest.len()
                        &&& (#[trigger] rest[index]).rejection() == first_rejection(rest)
                        &&& forall|earlier: int|
                            0 <= earlier < index ==> (#[trigger] rest[earlier]).rejection() is None
                    };
                let index = tail_index + 1;
                assert(records[index] == rest[tail_index]);
                assert forall|earlier: int| 0 <= earlier < index implies (
                #[trigger] records[earlier]).rejection() is None by {
                    if earlier > 0 {
                        assert(rest[earlier - 1].rejection() is None);
                    }
                }
                assert(records[index].rejection() == first_rejection(records));
            }
        }
    }
}

/// No candidate matches exactly when none has the ID asked for; and where
/// one does, the match is the first candidate with that ID.
pub proof fn lemma_first_match(candidates: Seq<RawHashMatch>, video_id: Seq<char>)
    ensures
        first_match(candidates, video_id) is None <==> forall|i: int|
            0 <= i < candidates.len() ==> (#[trigger] candidates[i]).video_id@ != video_id,
        first_match(candidates, video_id) matches Some(found) ==> exists|index: int|
            {
                &&& 0 <= index < candidates.len()
                &&& #[trigger] candidates[index] == found
                &&& found.video_id@ == video_id
                &&& forall|earlier: int|
                    0 <= earlier < index ==> (#[trigger] candidates[earlier]).video_id@
                        != video_id
            },
    decreases candidates.len(),
{
    if candidates.len() > 0 {
        let rest = candidates.drop_first();
        lemma_first_match(rest, video_id);
        assert forall|i: int| 0 <= i < rest.len() implies #[trigger] rest[i] == candidates[i
            + 1] by {}
        if candidates[0].video_id@ == video_id {
            assert(candidates[0] == first_match(candidates, video_id)->0);
        } else {
            if first_match(rest, video_id) is None {
                assert forall|i: int| 0 <= i < candidates.len() implies (
                #[trigger] candidates[i]).video_id@ != video_id by {
                    if i > 0 {
                        assert(rest[i - 1].video_id@ != video_id);
                    }
                }
            } else {
                let found = first_match(rest, video_id)->0;
                let tail_index = choose|index: int|
                    {
                        &&& 0 <= index < rest.len()
                        &&& #[trigger] rest[index] == found
                        &&& found.video_id@ == video_id
                        &&& forall|earlier: int|
                            0 <= earlier < index ==> (#[trigger] rest[earlier]).video_id@
                                != video_id
                    };
                let index = tail_index + 1;
                assert(candidates[index] == found);
                assert forall|earlier: int| 0 <= earlier < index implies (
                #[trigger] candidates[earlier]).video_id@ != video_id by {
                    if earlier > 0 {
                        assert(rest[earlier - 1].video_id@ != video_id);
                    }
                }
            }
        }
    }
}

/// Checks and converts the segments of an answer, in their order. The first
/// record that is turned down fails the whole answer, with its error.
pub fn convert_segments(records: Vec<RawSegment>, additional_info: bool) -> (result: Result<
    Vec<Segment>,
    SponsorBlockError,
>)
    ensures
        match result {
            Ok(segments) => first_rejection(records@) is None && segments@ == normalized_all(
                records@,
                additional_info,
            ),
            Err(error) => first_rejection(records@) == Some(error@),
        },
{
    let mut segments: Vec<Segment> = Vec::new();
    assert(records@.skip(0) =~= records@);
    for record in iter: records
        invariant
            iter.seq() == records@,
            iter.index() <= records@.len(),
            segments@.len() == iter.index(),
            first_rejection(records@) == first_rejection(records@.skip(iter.index() as int)),
            forall|i: int|
                0 <= i < iter.index() ==> #[trigger] segments@[i] == records@[i].normalized(
                    additional_info,
                ),
    {
        let ghost rest = records@.skip(iter.index() as int);
        assert(rest[0] == record);
        assert(rest.drop_first() =~= records@.skip(iter.index() + 1));
        match record.convert_to_segment(additional_info) {
            Ok(segment) => {
                segments.push(segment);
            },
            Err(error) => {
                return Err(error);
            },
        }
    }
    assert(segments@ =~= normalized_all(records@, additional_info));
    Ok(segments)
}

/// Picks, among the videos that the service offers for a hash prefix, the
/// one that was asked for, and hands out its segments. Several videos can
/// share a prefix; that none of them is the one asked for is an error.
pub fn find_hash_match(candidates: Vec<RawHashMatch>, video_id: &str) -> (result: Result<
    Vec<RawSegment>,
    SponsorBlockError,
>)
    ensures
        match result {
            Ok(records) => first_match(candidates@, video_id@) matches Some(found)
                && records == found.segments,
            Err(error) => first_match(candidates@, video_id@) is None && error@
                == ErrorView::NoMatchingVideoHash,
        },
{
    assert(candidates@.skip(0) =~= candidates@);
    for candidate in iter: candidates
        invariant
            iter.seq() == candidates@,
            iter.index() <= candidates@.len(),
            first_match(candidates@, video_id@) == first_match(
                candidates@.skip(iter.index() as int),
                video_id@,
            ),
    {
        let ghost rest = candidates@.skip(iter.index() as int);
        assert(rest[0] == candidate);
        assert(rest.drop_first() =~= candidates@.skip(iter.index() + 1));
        if str_eq(candidate.video_id.as_str(), video_id) {
            return Ok(candidate.segments);
        }
    }
    Err(SponsorBlockError::NoMatchingVideoHash)
}

/// What a request for the segments of a video amounts to, once the answer is
/// parsed, where the request named the video by a hash prefix: the segments
/// of the first candidate that is the video asked for, checked and
/// converted, without additional information.
pub open spec fn segments_of_hash_matches(
    candidates: Seq<RawHashMatch>,
    video_id: Seq<char>,
) -> Result<Seq<Segment>, ErrorView> {
    match first_match(candidates, video_id) {
        None => Err(ErrorView::NoMatchingVideoHash),
        Some(found) => match first_rejection(found.segments@) {
            Some(error) => Err(error),
            None => Ok(normalized_all(found.segments@, false)),
        },
    }
}

/// Turns the parsed answer to a request for the segments of a video, named
/// by a hash prefix, into the segments of that video.
pub fn segments_from_hash_matches(candidates: Vec<RawHashMatch>, video_id: &str) -> (result:
    Result<Vec<Segment>, SponsorBlockError>)
    ensures
        match result {
            Ok(segments) => segments_of_hash_matches(candidates@, video_id@) == Ok::<
                Seq<Segment>,
                ErrorView,
            >(segments@),
            Err(error) => segments_of_hash_matches(candidates@, video_id@) == Err::<
                Seq<Segment>,
                ErrorView,
            >(error@),
        },
{
    let records = find_hash_match(candidates, video_id)?;
    convert_segments(records, false)
}

/// Turns the parsed answer to a request for the segments of a video, named
/// by its ID, into the segments of that video: each record checked and
/// converted, without additional information.
pub fn segments_from_records(records: Vec<RawSegment>) -> (result: Result<
    Vec<Segment>,
    SponsorBlockError,
>)
    ensures
        match result {
            Ok(segments) => first_rejection(records@) is None && segments@ == normalized_all(
                records@,
                false,
            ),
            Err(error) => first_rejection(records@) == Some(error@),
        },
{
    convert_segments(records, false)
}

/// Turns the parsed answer to a request for full information on segments
/// into those segments: each record checked and converted, with its
/// additional information.
pub fn segment_info_from_records(records: Vec<RawSegment>) -> (result: Result<
    Vec<Segment>,
    SponsorBlockError,
>)
    ensures
        match result {
            Ok(segments) => first_rejection(records@) is None && segments@ == normalized_all(
                records@,
                true,
            ),
            Err(error) => first_rejection(records@) == Some(error@),
        },
{
    convert_segments(records, true)
}

/// The one segment that was asked for, out of the answer to a request for
/// full information: the last of the answer. An answer without segments is
/// an error.
pub fn single_segment_info(segments: Vec<Segment>) -> (result: Result<Segment, SponsorBlockError>)
    ensures
        match result {
            Ok(segment) => segments@.len() > 0 && segment == segments@.last(),
            Err(error) => segments@.len() == 0 && error@ == ErrorView::BadData(
                BadData::NoSegments,
            ),
        },
{
    let mut segments = segments;
    match segments.pop() {
        Some(segment) => Ok(segment),
        None => Err(SponsorBlockError::BadData(BadData::NoSegments)),
    }
}

/// The path of the segments of a video.
pub const SKIP_SEGMENTS_ENDPOINT: &'static str = "/skipSegments";

/// The path of the full information on segments.
pub const SEGMENT_INFO_ENDPOINT: &'static str = "/segmentInfo";

/// The SHA-256 digest of a sequence of bytes.
pub uninterp spec fn sha256(data: Seq<u8>) -> Seq<u8>;

/// Calls `Digest::digest` of the `sha2` crate for `Sha256`. Taken on trust:
/// what comes back is the SHA-256 digest of the bytes, a value that depends
/// on the bytes alone and is 32 bytes long.
#[verifier::external_body]
fn sha256_digest(data: &[u8]) -> (digest: Vec<u8>)
    ensures
        digest@ == sha256(data@),
        digest@.len() == 32,
{
    Sha256::digest(data).to_vec()
}

/// The first characters of a digest written in hexadecimal.
pub open spec fn digest_prefix(digest: Seq<u8>, length: u8) -> Seq<char> {
    hex_string(digest).take(length as int)
}

/// What stands for a video in a request that does not name it: the first
/// characters of the SHA-256 digest of its ID, written in hexadecimal.
pub open spec fn video_id_hash_prefix(video_id: Seq<char>, length: u8) -> Seq<char> {
    digest_prefix(sha256(encode_utf8(video_id)), length)
}

/// The first `length` characters of a digest written in hexadecimal.
pub fn hash_prefix_of_digest(digest: &[u8], length: u8) -> (prefix: String)
    requires
        length <= 2 * digest@.len(),
    ensures
        prefix@ == digest_prefix(digest@, length),
{
    let hex = bytes_to_hex_string(digest);
    let prefix = hex.as_str().substring_char(0, length as usize);
    assert(hex@.subrange(0, length as int) =~= hex@.take(length as int));
    String::from_str(prefix)
}

/// The first `length` characters of the hash of a video ID.
pub fn hash_prefix_of_video_id(video_id: &str, length: u8) -> (prefix: String)
    requires
        length <= 64,
    ensures
        prefix@ == video_id_hash_prefix(video_id@, length),
{
    let digest = sha256_digest(video_id.as_bytes());
    hash_prefix_of_digest(digest.as_slice(), length)
}

/// The parameters that every request for the segments of a video ends in:
/// the categories and the kinds of action that are wanted, the service, and,
/// where there are any, the segments that must come whatever their votes.
pub open spec fn segment_filter_parameters(
    service: Seq<char>,
    accepted_categories: Set<Category>,
    accepted_actions: Set<ActionKind>,
    required_segments: Seq<Seq<char>>,
) -> Seq<(Seq<char>, Seq<char>)> {
    let always = seq![
        ("categories"@, url_array(accepted_category_names(accepted_categories))),
        ("actionTypes"@, url_array(accepted_action_names(accepted_actions))),
        ("service"@, service),
    ];
    if required_segments.len() > 0 {
        always.push(("requiredSegments"@, url_array(required_segments)))
    } else {
        always
    }
}

impl ClientBuilder {
    /// The request for the segments of a video that names the video by a
    /// prefix of the hash of its ID.
    pub open spec fn spec_segments_request(
        &self,
        video_id: Seq<char>,
        accepted_categories: Set<Category>,
        accepted_actions: Set<ActionKind>,
        required_segments: Seq<Seq<char>>,
    ) -> RequestView {
        RequestView {
            url: self.spec_base_url() + SKIP_SEGMENTS_ENDPOINT@ + "/"@ + video_id_hash_prefix(
                video_id,
                self.spec_hash_prefix_length(),
            ),
            query: segment_filter_parameters(
                self.spec_service(),
                accepted_categories,
                accepted_actions,
                required_segments,
            ),
        }
    }

    /// The request for the segments of a video that names the video by its
    /// ID.
    pub open spec fn spec_segments_by_id_request(
        &self,
        video_id: Seq<char>,
        accepted_categories: Set<Category>,
        accepted_actions: Set<ActionKind>,
        required_segments: Seq<Seq<char>>,
    ) -> RequestView {
        RequestView {
            url: self.spec_base_url() + SKIP_SEGMENTS_ENDPOINT@,
            query: seq![("videoID"@, video_id)] + segment_filter_parameters(
                self.spec_service(),
                accepted_categories,
                accepted_actions,
                required_segments,
            ),
        }
    }

    /// The request for full information on segments.
    pub open spec fn spec_segment_info_request(
        &self,
        segment_uuids: Seq<Seq<char>>,
    ) -> RequestView {
        RequestView {
            url: self.spec_base_url() + SEGMENT_INFO_ENDPOINT@,
            query: seq![("UUIDs"@, url_array(segment_uuids))],
        }
    }

    /// Adds the parameters that every request for the segments of a video
    /// ends in.
    fn add_segment_filters(
        &self,
        request: &mut Request,
        accepted_categories: AcceptedCategories,
        accepted_actions: AcceptedActions,
        required_segments: &[String],
    )
        ensures
            final(request)@ == (RequestView {
                url: old(request)@.url,
                query: old(request)@.query + segment_filter_parameters(
                    self.spec_service(),
                    accepted_categories@,
                    accepted_actions@,
                    texts_of(required_segments@),
                ),
            }),
    {
        request.add_parameter("categories", convert_category_bitflags_to_url(accepted_categories));
        request.add_parameter("actionTypes", convert_action_bitflags_to_url(accepted_actions));
        request.add_parameter("service", String::from_str(self.configured_service()));
        if required_segments.len() > 0 {
            request.add_parameter("requiredSegments", to_url_array(required_segments));
        }
        assert(final(request)@.query =~= old(request)@.query + segment_filter_parameters(
            self.spec_service(),
            accepted_categories@,
            accepted_actions@,
            texts_of(required_segments@),
        ));
    }

    /// The request for the segments of a video. It does not name the video:
    /// it sends the first characters of the hash of its ID, and the service
    /// answers with every video whose hash starts so.
    pub fn segments_request(
        &self,
        video_id: &str,
        accepted_categories: AcceptedCategories,
        accepted_actions: AcceptedActions,
    ) -> (request: Request)
        ensures
            request@ == self.spec_segments_request(
                video_id@,
                accepted_categories@,
                accepted_actions@,
                Seq::empty(),
            ),
    {
        let required: Vec<String> = Vec::new();
        let request = self.segments_with_required_request(
            video_id,
            accepted_categories,
            accepted_actions,
            required.as_slice(),
        );
        assert(texts_of(required@) =~= Seq::<Seq<char>>::empty());
        request
    }

    /// The request for the segments of a video, with the identifiers of
    /// segments that must come even if their votes would keep them back.
    pub fn segments_with_required_request(
        &self,
        video_id: &str,
        accepted_categories: AcceptedCategories,
        accepted_actions: AcceptedActions,
        required_segments: &[String],
    ) -> (request: Request)
        ensures
            request@ == self.spec_segments_request(
                video_id@,
                accepted_categories@,
                accepted_actions@,
                texts_of(required_segments@),
            ),
    {
        let prefix = hash_prefix_of_video_id(video_id, self.configured_hash_prefix_length());
        let path = String::from_str(SKIP_SEGMENTS_ENDPOINT).concat("/").concat(prefix.as_str());
        let mut request = Request::new(self.configured_base_url(), path.as_str());
        self.add_segment_filters(
            &mut request,
            accepted_categories,
            accepted_actions,
            required_segments,
        );
        assert(request@.url =~= self.spec_base_url() + SKIP_SEGMENTS_ENDPOINT@ + "/"@
            + video_id_hash_prefix(video_id@, self.spec_hash_prefix_length()));
        request
    }

    /// The request for the segments of a video that names the video by its
    /// ID, for an instance of the service that is trusted with it.
    pub fn segments_by_id_request(
        &self,
        video_id: &str,
        accepted_categories: AcceptedCategories,
        accepted_actions: AcceptedActions,
        required_segments: &[String],
    ) -> (request: Request)
        ensures
            request@ == self.spec_segments_by_id_request(
                video_id@,
                accepted_categories@,
                accepted_actions@,
                texts_of(required_segments@),
            ),
    {
        let mut request = Request::new(self.configured_base_url(), SKIP_SEGMENTS_ENDPOINT);
        request.add_parameter("videoID", String::from_str(video_id));
        self.add_segment_filters(
            &mut request,
            accepted_categories,
            accepted_actions,
            required_segments,
        );
        request
    }

    /// The request for full information on one segment.
    pub fn segment_info_request(&self, segment_uuid: &str) -> (request: Request)
        ensures
            request@ == self.spec_segment_info_request(seq![segment_uuid@]),
    {
        let mut segment_uuids: Vec<String> = Vec::new();
        segment_uuids.push(String::from_str(segment_uuid));
        let request = self.segment_info_multiple_request(segment_uuids.as_slice());
        assert(texts_of(segment_uuids@) =~= seq![segment_uuid@]);
        request
    }

    /// The request for full information on segments.
    pub fn segment_info_multiple_request(&self, segment_uuids: &[String]) -> (request: Request)
        ensures
            request@ == self.spec_segment_info_request(texts_of(segment_uuids@)),
    {
        let mut request = Request::new(self.configured_base_url(), SEGMENT_INFO_ENDPOINT);
        request.add_parameter("UUIDs", to_url_array(segment_uuids));
        request
    }
}

impl Segment {
    /// The request that fills in the additional information of the
    /// segment, where it has none yet; `None` where it has.
    pub fn additional_info_request(&self, builder: &ClientBuilder) -> (request: Option<Request>)
        ensures
            match request {
                Some(request) => self.additional_info is None && request@
                    == builder.spec_segment_info_request(seq![self.uuid@]),
                None => self.additional_info is Some,
            },
    {
        if self.lacks_additional_info() {
            Some(builder.segment_info_request(self.uuid.as_str()))
        } else {
            None
        }
    }
}

} // verus!
