use sponsor_block::util::trim_trailing_slashes;
use sponsor_block::{
    AcceptedActions, AcceptedCategories, Action, ActionKind, AdditionalSegmentInfo, Category,
    ClientBuilder, Request, Segment,
};

fn pair(name: &str, value: &str) -> (String, String) {
    (name.to_owned(), value.to_owned())
}

fn builder() -> ClientBuilder {
    let mut builder = ClientBuilder::new("local-id".to_owned());
    builder.base_url("https://example.org/api/");
    builder
}

const ALL_CATEGORIES: &str = "[\"sponsor\",\"selfpromo\",\"interaction\",\"poi_highlight\",\"intro\",\"outro\",\"preview\",\"music_offtopic\",\"filler\",\"exclusive_access\"]";

#[test]
fn defaults_of_the_builder() {
    let builder = ClientBuilder::new("local-id".to_owned());
    assert_eq!(builder.configured_user_id(), "local-id");
    assert_eq!(builder.configured_user_agent(), ClientBuilder::DEFAULT_USER_AGENT);
    assert_eq!(builder.configured_base_url(), "https://sponsor.ajay.app/api");
    assert_eq!(builder.configured_base_url(), ClientBuilder::BASE_URL_MAIN);
    assert_eq!(builder.configured_hash_prefix_length(), 4);
    assert_eq!(builder.configured_hash_prefix_length(), ClientBuilder::DEFAULT_HASH_PREFIX_LENGTH);
    assert_eq!(builder.configured_service(), "YouTube");
    assert_eq!(builder.configured_service(), ClientBuilder::DEFAULT_SERVICE);
    assert_eq!(builder.configured_timeout(), Some(5_000_000_000));
    assert_eq!(builder.configured_timeout(), Some(ClientBuilder::DEFAULT_TIMEOUT));
    assert_eq!(ClientBuilder::BASE_URL_TESTING, "https://sponsor.ajay.app/test/api");
}

#[test]
fn setters_chain_and_leave_the_rest_alone() {
    let mut builder = ClientBuilder::new("local-id".to_owned());
    builder
        .base_url("http://localhost:8080/api")
        .hash_prefix_length(32)
        .service("PeerTube".to_owned())
        .timeout_millis(Some(1_500));
    assert_eq!(builder.configured_user_id(), "local-id");
    assert_eq!(builder.configured_base_url(), "http://localhost:8080/api");
    assert_eq!(builder.configured_hash_prefix_length(), 32);
    assert_eq!(builder.configured_service(), "PeerTube");
    assert_eq!(builder.configured_timeout(), Some(1_500_000_000));
    builder.timeout(None);
    assert_eq!(builder.configured_timeout(), None);
    builder.timeout(Some(1));
    assert_eq!(builder.configured_timeout(), Some(1));
    builder.timeout_millis(None);
    assert_eq!(builder.configured_timeout(), None);
    builder.timeout_millis(Some(i64::MAX));
    assert_eq!(builder.configured_timeout(), Some(i64::MAX as i128 * 1_000_000));
    builder.hash_prefix_length(4);
    assert_eq!(builder.configured_hash_prefix_length(), 4);
    assert_eq!(builder.clone(), builder);
}

#[test]
fn slashes_at_the_end_of_the_base_url_are_left_off() {
    let mut builder = ClientBuilder::new("local-id".to_owned());
    builder.base_url("https://example.org/api/");
    assert_eq!(builder.configured_base_url(), "https://example.org/api");
    builder.base_url("https://example.org/api///");
    assert_eq!(builder.configured_base_url(), "https://example.org/api");
    builder.base_url("https://example.org/api");
    assert_eq!(builder.configured_base_url(), "https://example.org/api");
    assert_eq!(trim_trailing_slashes("a/b/"), "a/b");
    assert_eq!(trim_trailing_slashes("///"), "");
    assert_eq!(trim_trailing_slashes(""), "");
    assert_eq!(trim_trailing_slashes("/a"), "/a");
    assert_eq!(trim_trailing_slashes("caf\u{e9}/\u{1f600}//"), "caf\u{e9}/\u{1f600}");
}

#[test]
fn request_for_segments_sends_a_hash_prefix() {
    let request = builder().segments_request(
        "9Yhc6mmdJC4",
        AcceptedCategories::all(),
        AcceptedActions::all(),
    );
    assert_eq!(
        request,
        Request {
            url: "https://example.org/api/skipSegments/ce06".to_owned(),
            query: vec![
                pair("categories", ALL_CATEGORIES),
                pair("actionTypes", "[\"skip\",\"mute\",\"poi\",\"full\"]"),
                pair("service", "YouTube"),
            ],
        }
    );
}

#[test]
fn request_for_segments_with_required_ones() {
    let mut builder = builder();
    builder.hash_prefix_length(8).service("Odysee".to_owned());
    let required = vec!["uuid-1".to_owned(), "uuid-2".to_owned()];
    let request = builder.segments_with_required_request(
        "9Yhc6mmdJC4",
        AcceptedCategories::only(Category::Sponsor).union(AcceptedCategories::only(Category::Highlight)),
        AcceptedActions::only(ActionKind::Skip),
        &required,
    );
    assert_eq!(
        request,
        Request {
            url: "https://example.org/api/skipSegments/ce0615cb".to_owned(),
            query: vec![
                pair("categories", "[\"sponsor\",\"poi_highlight\"]"),
                pair("actionTypes", "[\"skip\"]"),
                pair("service", "Odysee"),
                pair("requiredSegments", "[\"uuid-1\",\"uuid-2\"]"),
            ],
        }
    );
}

#[test]
fn no_required_segments_no_parameter() {
    let with_none = builder().segments_with_required_request(
        "9Yhc6mmdJC4",
        AcceptedCategories::empty(),
        AcceptedActions::empty(),
        &[],
    );
    assert_eq!(
        with_none.query,
        vec![pair("categories", "[]"), pair("actionTypes", "[]"), pair("service", "YouTube")]
    );
    assert_eq!(
        with_none,
        builder().segments_request("9Yhc6mmdJC4", AcceptedCategories::empty(), AcceptedActions::empty())
    );
}

#[test]
fn request_for_segments_by_id_names_the_video() {
    let request = builder().segments_by_id_request(
        "9Yhc6mmdJC4",
        AcceptedCategories::only(Category::NonMusic),
        AcceptedActions::only(ActionKind::Mute),
        &["uuid-9".to_owned()],
    );
    assert_eq!(
        request,
        Request {
            url: "https://example.org/api/skipSegments".to_owned(),
            query: vec![
                pair("videoID", "9Yhc6mmdJC4"),
                pair("categories", "[\"music_offtopic\"]"),
                pair("actionTypes", "[\"mute\"]"),
                pair("service", "YouTube"),
                pair("requiredSegments", "[\"uuid-9\"]"),
            ],
        }
    );
}

#[test]
fn request_for_segment_info() {
    assert_eq!(
        builder().segment_info_request("uuid-1"),
        Request {
            url: "https://example.org/api/segmentInfo".to_owned(),
            query: vec![pair("UUIDs", "[\"uuid-1\"]")],
        }
    );
    assert_eq!(
        builder().segment_info_multiple_request(&["uuid-1".to_owned(), "uuid-2".to_owned()]),
        Request {
            url: "https://example.org/api/segmentInfo".to_owned(),
            query: vec![pair("UUIDs", "[\"uuid-1\",\"uuid-2\"]")],
        }
    );
    assert_eq!(
        builder().segment_info_multiple_request(&[]).query,
        vec![pair("UUIDs", "[]")]
    );
}

#[test]
fn requests_for_user_info() {
    assert_eq!(
        builder().user_info_public_request("abc123"),
        Request {
            url: "https://example.org/api/userInfo".to_owned(),
            query: vec![pair("publicUserID", "abc123")],
        }
    );
    assert_eq!(
        builder().user_info_local_request("secret"),
        Request {
            url: "https://example.org/api/userInfo".to_owned(),
            query: vec![pair("userID", "secret")],
        }
    );
}

#[test]
fn requests_for_user_stats() {
    assert_eq!(
        builder().user_stats_public_request("abc123"),
        Request {
            url: "https://example.org/api/userStats".to_owned(),
            query: vec![
                pair("publicUserID", "abc123"),
                pair("fetchCategoryStats", "true"),
                pair("fetchActionTypeStats", "true"),
            ],
        }
    );
    assert_eq!(
        builder().user_stats_local_request("secret"),
        Request {
            url: "https://example.org/api/userStats".to_owned(),
            query: vec![
                pair("userID", "secret"),
                pair("fetchCategoryStats", "true"),
                pair("fetchActionTypeStats", "true"),
            ],
        }
    );
}

#[test]
fn request_for_the_status() {
    assert_eq!(
        builder().api_status_request(),
        Request { url: "https://example.org/api/status".to_owned(), query: Vec::new() }
    );
    assert_eq!(
        ClientBuilder::new("id".to_owned()).api_status_request().url,
        "https://sponsor.ajay.app/api/status"
    );
}

#[test]
fn a_request_is_built_up_from_parts() {
    let mut request = Request::new("http://host", "/path");
    assert_eq!(request, Request { url: "http://host/path".to_owned(), query: Vec::new() });
    request.add_parameter("a", "1".to_owned());
    request.add_parameter("b", String::new());
    assert_eq!(request.query, vec![pair("a", "1"), pair("b", "")]);
    assert_eq!(request.url, "http://host/path");
}

fn segment(additional_info: Option<AdditionalSegmentInfo>) -> Segment {
    Segment {
        category: Category::Sponsor,
        action: Action::Skip(1_000, 2_000),
        uuid: "uuid-7".to_owned(),
        locked: true,
        votes: -2,
        video_duration_on_submission: Some(10_000),
        additional_info,
    }
}

#[test]
fn additional_info_is_asked_for_only_where_it_lacks() {
    let bare = segment(None);
    assert!(bare.lacks_additional_info());
    assert_eq!(
        bare.additional_info_request(&builder()),
        Some(Request {
            url: "https://example.org/api/segmentInfo".to_owned(),
            query: vec![pair("UUIDs", "[\"uuid-7\"]")],
        })
    );
    let full = segment(Some(AdditionalSegmentInfo::default()));
    assert!(!full.lacks_additional_info());
    assert_eq!(full.additional_info_request(&builder()), None);
}

#[test]
fn additional_info_is_taken_over() {
    let mut info = AdditionalSegmentInfo::default();
    info.views = 12;
    info.video_id = "9Yhc6mmdJC4".to_owned();
    let mut bare = segment(None);
    let mut fetched = segment(Some(info.clone()));
    fetched.votes = 100;
    bare.fill_additional_info(fetched);
    assert_eq!(bare, segment(Some(info)));
    assert_eq!(bare.votes, -2);
}

#[test]
fn durations_of_actions() {
    assert_eq!(Action::Skip(1_000, 2_500).duration(), 1_500);
    assert_eq!(Action::Mute(0, 0).duration(), 0);
    assert_eq!(Action::PointOfInterest(9_000).duration(), 0);
    assert_eq!(Action::FullVideo.duration(), 0);
    assert_eq!(segment(None).duration(), 1_000);
    assert_eq!(Action::Skip(1, 2).kind(), ActionKind::Skip);
    assert_eq!(Action::Mute(1, 2).kind(), ActionKind::Mute);
    assert_eq!(Action::PointOfInterest(1).kind(), ActionKind::PointOfInterest);
    assert_eq!(Action::FullVideo.kind(), ActionKind::FullVideo);
    assert_eq!(ActionKind::Skip.to_action(1, 2), Action::Skip(1, 2));
    assert_eq!(ActionKind::Mute.to_action(1, 2), Action::Mute(1, 2));
    assert_eq!(ActionKind::PointOfInterest.to_action(1, 2), Action::PointOfInterest(1));
    assert_eq!(ActionKind::FullVideo.to_action(1, 2), Action::FullVideo);
}
