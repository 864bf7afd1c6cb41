//! Typed vocabulary, request encoding and response validation for the
//! SponsorBlock video-segment service.
//!
//! The library holds everything about a call to the service that is not the
//! call itself: the tokens of the vocabulary, the sets of categories and
//! actions and their form in a query, the requests for each endpoint, the
//! sorting of status codes, and the checks that turn the records of an
//! answer into values that can be relied on. Sending a request and parsing
//! an answer are left to the caller.
//!
//! Fractional quantities of the service (times in seconds, minutes saved,
//! reputations) are held as whole thousandths.

pub mod api;
pub mod client;
pub mod error;
pub mod gen_user_id;
pub mod segment;
pub mod util;

pub use crate::client::user::segments::{RawAdditionalSegmentInfo, RawHashMatch, RawSegment};
pub use crate::client::user::user_info::UserInfo;
pub use crate::client::user::user_stats::{
    ActionCounts, CategoryCounts, OverallStats, RawUserStats, UserStats,
};
pub use crate::client::{ClientBuilder, Request};
pub use crate::error::{
    BadData, SponsorBlockError, SponsorBlockResult, StatusCode, UnknownValueError,
};
pub use crate::gen_user_id::gen_user_id;
pub use crate::segment::action::{AcceptedActions, Action, ActionKind};
pub use crate::segment::category::{AcceptedCategories, Category};
pub use crate::segment::{AdditionalSegmentInfo, Segment};
