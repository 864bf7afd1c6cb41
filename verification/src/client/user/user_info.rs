//! What the service knows of a user.

use vstd::prelude::*;
use vstd::string::*;
use crate::client::{ClientBuilder, Request, RequestView};
use crate::util::str_eq;

verus! {

/// The result of a request for user information.
#[derive(Clone, Debug, PartialEq, Eq)]
pub struct UserInfo {
    /// The user's public ID.
    pub public_user_id: String,
    /// The name that the user chose; `None` where the user chose none.
    pub user_name: Option<String>,
    /// How much time the user's segments have saved others, in thousandths
    /// of a minute.
    pub minutes_saved: i64,
    /// How many segments the user submitted, not counting ignored and hidden
    /// ones.
    pub segment_count: u32,
    /// How many of the user's segments are ignored or hidden.
    pub ignored_segment_count: u32,
    /// How often others viewed the user's segments, not counting ignored and
    /// hidden ones.
    pub view_count: u32,
    /// How often others viewed the user's ignored and hidden segments.
    pub ignored_view_count: u32,
    /// How many warnings are in force against the user.
    pub warnings: u32,
    /// The user's reputation, in thousandths.
    pub reputation: i64,
    /// Whether the user is a VIP.
    pub vip: bool,
    /// The identifier of the segment that the user submitted last.
    pub last_segment_id: Option<String>,
}

/// The name that a user chose. The service sends the user's ID where the user
/// chose no name: such a name, and an absent one, come out as `None`.
pub open spec fn chosen_user_name(user_name: Option<String>, user_id: String) -> Option<String> {
    match user_name {
        Some(name) => if name@ == user_id@ {
            None
        } else {
            Some(name)
        },
        None => None,
    }
}

/// A user has no chosen name exactly when the service sent no name or sent
/// the user's ID as the name; any other name is kept as it is.
pub proof fn lemma_chosen_user_name(user_name: Option<String>, user_id: String)
    ensures
        chosen_user_name(user_name, user_id) is None <==> (user_name matches Some(name)
            ==> name@ == user_id@),
        chosen_user_name(user_name, user_id) matches Some(name) ==> user_name == Some(name),
{
}

/// The name that a user chose, out of the name that the service sent: `None`
/// where the service sent the user's ID as the name, or no name.
pub fn normalize_user_name(user_name: Option<String>, user_id: &String) -> (chosen: Option<String>)
    ensures
        chosen == chosen_user_name(user_name, *user_id),
{
    match user_name {
        Some(name) => if str_eq(name.as_str(), user_id.as_str()) {
            None
        } else {
            Some(name)
        },
        None => None,
    }
}

impl UserInfo {
    /// The information as the service sent it, with the user's name as the
    /// user chose it.
    pub open spec fn normalized(self) -> UserInfo {
        UserInfo { user_name: chosen_user_name(self.user_name, self.public_user_id), ..self }
    }

    /// Turns the information as the service sent it into the form handed to
    /// callers: a name that is the user's ID becomes `None`.
    pub fn convert_to_user_info(self) -> (info: UserInfo)
        ensures
            info == self.normalized(),
    {
        let user_name = normalize_user_name(self.user_name, &self.public_user_id);
        UserInfo {
            public_user_id: self.public_user_id,
            user_name,
            minutes_saved: self.minutes_saved,
            segment_count: self.segment_count,
            ignored_segment_count: self.ignored_segment_count,
            view_count: self.view_count,
            ignored_view_count: self.ignored_view_count,
            warnings: self.warnings,
            reputation: self.reputation,
            vip: self.vip,
            last_segment_id: self.last_segment_id,
        }
    }

    /// All segments that the user submitted, ignored and hidden ones
    /// included.
    pub fn total_segment_count(&self) -> (total: u32)
        requires
            self.segment_count + self.ignored_segment_count <= u32::MAX,
        ensures
            total == self.segment_count + self.ignored_segment_count,
    {
        self.segment_count + self.ignored_segment_count
    }

    /// All views of the user's segments, those of ignored and hidden ones
    /// included.
    pub fn total_view_count(&self) -> (total: u32)
        requires
            self.view_count + self.ignored_view_count <= u32::MAX,
        ensures
            total == self.view_count + self.ignored_view_count,
    {
        self.view_count + self.ignored_view_count
    }
}

/// The path of the information on a user.
pub const USER_INFO_ENDPOINT: &'static str = "/userInfo";

impl ClientBuilder {
    /// The request for the information on the user with a public ID.
    pub open spec fn spec_user_info_public_request(
        &self,
        public_user_id: Seq<char>,
    ) -> RequestView {
        RequestView {
            url: self.spec_base_url() + USER_INFO_ENDPOINT@,
            query: seq![("publicUserID"@, public_user_id)],
        }
    }

    /// The request for the information on the user with a local ID.
    pub open spec fn spec_user_info_local_request(&self, local_user_id: Seq<char>) -> RequestView {
        RequestView {
            url: self.spec_base_url() + USER_INFO_ENDPOINT@,
            query: seq![("userID"@, local_user_id)],
        }
    }

    /// The request for the information on a user, named by public ID.
    pub fn user_info_public_request(&self, public_user_id: &str) -> (request: Request)
        ensures
            request@ == self.spec_user_info_public_request(public_user_id@),
    {
        let mut request = Request::new(self.configured_base_url(), USER_INFO_ENDPOINT);
        request.add_parameter("publicUserID", String::from_str(public_user_id));
        request
    }

    /// The request for the information on a user, named by local ID. The
    /// local ID is a secret of the user.
    pub fn user_info_local_request(&self, local_user_id: &str) -> (request: Request)
        ensures
            request@ == self.spec_user_info_local_request(local_user_id@),
    {
        let mut request = Request::new(self.configured_base_url(), USER_INFO_ENDPOINT);
        request.add_parameter("userID", String::from_str(local_user_id));
        request
    }
}

} // verus!
