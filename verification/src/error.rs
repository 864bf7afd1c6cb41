//! The ways in which a call to the service can fail.

use vstd::prelude::*;

verus! {

/// An HTTP status code number.
pub type StatusCode = u16;

/// A value received from the service that is not part of the known
/// vocabulary. It signals that the vocabulary here is older than the
/// service's.
#[derive(Clone, Debug, PartialEq, Eq)]
pub struct UnknownValueError {
    /// The name of the field that the value stood in.
    pub kind: String,
    /// The value that was not recognised.
    pub value: String,
}

/// Why a record that parsed was still turned down. Times are in thousandths
/// of a second.
#[derive(Clone, Copy, Debug, PartialEq, Eq, Structural)]
pub enum BadData {
    /// A segment carries neither a pair of times nor a start and an end.
    MissingTimes,
    /// A segment starts after it ends.
    StartAfterEnd { start: i64, end: i64 },
    /// A segment starts before the video does.
    NegativeStart { start: i64 },
    /// The video was recorded with a negative length.
    NegativeVideoDuration { duration: i64 },
    /// Information on one segment was asked for, and none came back.
    NoSegments,
}

/// The errors of this library.
#[derive(Clone, Debug, PartialEq, Eq)]
pub enum SponsorBlockError {
    /// The service itself failed. Holds the status code it answered with.
    HttpApi(StatusCode),
    /// The service turned the request down. Holds the status code; 404 means
    /// that it has nothing for the query.
    HttpClient(StatusCode),
    /// The service answered with a status that is neither success nor one of
    /// the two above.
    HttpUnknown(StatusCode),
    /// No answer was had from the service. Holds the transport's account of it.
    HttpCommunication(String),
    /// None of the videos that the service offered for a hash prefix is the
    /// one asked for.
    NoMatchingVideoHash,
    /// The answer did not have the expected shape. Holds the parser's account
    /// of it.
    Deserialization(String),
    /// The answer had the expected shape and makes no sense.
    BadData(BadData),
    /// The answer holds a value outside the known vocabulary.
    UnknownValue(UnknownValueError),
}

/// What an error says, with each text as a sequence of characters.
pub enum ErrorView {
    HttpApi(StatusCode),
    HttpClient(StatusCode),
    HttpUnknown(StatusCode),
    HttpCommunication(Seq<char>),
    NoMatchingVideoHash,
    Deserialization(Seq<char>),
    BadData(BadData),
    UnknownValue { kind: Seq<char>, value: Seq<char> },
}

impl View for SponsorBlockError {
    type V = ErrorView;

    open spec fn view(&self) -> ErrorView {
        match self {
            SponsorBlockError::HttpApi(status) => ErrorView::HttpApi(*status),
            SponsorBlockError::HttpClient(status) => ErrorView::HttpClient(*status),
            SponsorBlockError::HttpUnknown(status) => ErrorView::HttpUnknown(*status),
            SponsorBlockError::HttpCommunication(account) => ErrorView::HttpCommunication(
                account@,
            ),
            SponsorBlockError::NoMatchingVideoHash => ErrorView::NoMatchingVideoHash,
            SponsorBlockError::Deserialization(account) => ErrorView::Deserialization(account@),
            SponsorBlockError::BadData(reason) => ErrorView::BadData(*reason),
            SponsorBlockError::UnknownValue(unknown) => ErrorView::UnknownValue {
                kind: unknown.kind@,
                value: unknown.value@,
            },
        }
    }
}

pub type SponsorBlockResult<T> = Result<T, SponsorBlockError>;

impl SponsorBlockError {
    /// Whether the error only says that the service has nothing for the
    /// query: a status of 404, or no video that matches a hash prefix.
    pub open spec fn spec_is_not_found(&self) -> bool {
        self@ == ErrorView::HttpClient(404) || self@ == ErrorView::NoMatchingVideoHash
    }

    /// Whether the error only says that the service has nothing for the
    /// query: a status of 404, or no video that matches a hash prefix.
    pub fn is_not_found(&self) -> (not_found: bool)
        ensures
            not_found == self.spec_is_not_found(),
    {
        match self {
            SponsorBlockError::HttpClient(status) => *status == 404,
            SponsorBlockError::NoMatchingVideoHash => true,
            _ => false,
        }
    }
}

} // verus!
