//! What a client sends to the service and what it makes of the answers.

pub mod user;

use vstd::prelude::*;
use vstd::string::*;
use crate::util::{trim_trailing_slashes, without_trailing_slashes};

verus! {

/// The settings of a client: whom it acts for, which instance of the service
/// it talks to, and how.
///
/// The length of a hash prefix is always from 4 to 32, and a timeout is
/// always longer than nothing.
#[derive(Debug, PartialEq, Eq)]
pub struct ClientBuilder {
    user_agent: String,
    user_id: String,
    base_url: String,
    hash_prefix_length: u8,
    service: String,
    timeout: Option<i128>,
}

impl ClientBuilder {
    /// The base URL of the public instance of the service.
    pub const BASE_URL_MAIN: &'static str = "https://sponsor.ajay.app/api";

    /// The base URL of the testing database of the public instance.
    pub const BASE_URL_TESTING: &'static str = "https://sponsor.ajay.app/test/api";

    /// The number of characters of a hash that is sent unless another is set.
    pub const DEFAULT_HASH_PREFIX_LENGTH: u8 = 4;

    /// The least number of characters of a hash that may be sent.
    pub const MIN_HASH_PREFIX_LENGTH: u8 = 4;

    /// The greatest number of characters of a hash that may be sent.
    pub const MAX_HASH_PREFIX_LENGTH: u8 = 32;

    /// The service value that is sent unless another is set.
    pub const DEFAULT_SERVICE: &'static str = "YouTube";

    /// The user agent that requests are made under.
    pub const DEFAULT_USER_AGENT: &'static str = "sponsor_block-rs/0.1.0";

    /// The time that a request may take unless another is set, in nanoseconds:
    /// five seconds.
    pub const DEFAULT_TIMEOUT: i128 = 5_000_000_000;

    /// The nanoseconds in a millisecond.
    pub const NANOSECONDS_PER_MILLISECOND: i128 = 1_000_000;

    #[verifier::type_invariant]
    spec fn settings_in_range(self) -> bool {
        &&& Self::MIN_HASH_PREFIX_LENGTH <= self.hash_prefix_length <= Self::MAX_HASH_PREFIX_LENGTH
        &&& self.timeout matches Some(nanoseconds) ==> nanoseconds > 0
    }

    /// The user agent that requests are made under.
    pub closed spec fn spec_user_agent(&self) -> Seq<char> {
        self.user_agent@
    }

    /// The local ID of the user that the client acts for.
    pub closed spec fn spec_user_id(&self) -> Seq<char> {
        self.user_id@
    }

    /// The base URL of the instance that the client talks to.
    pub closed spec fn spec_base_url(&self) -> Seq<char> {
        self.base_url@
    }

    /// The number of characters of a hash that the client sends.
    pub closed spec fn spec_hash_prefix_length(&self) -> u8 {
        self.hash_prefix_length
    }

    /// The service value that the client sends.
    pub closed spec fn spec_service(&self) -> Seq<char> {
        self.service@
    }

    /// The time that a request may take, in nanoseconds; `None` for no limit.
    pub closed spec fn spec_timeout(&self) -> Option<i128> {
        self.timeout
    }

    /// The settings for a user, with every other setting at its default.
    pub fn new(user_id: String) -> (builder: Self)
        ensures
            builder.spec_user_agent() == Self::DEFAULT_USER_AGENT@,
            builder.spec_user_id() == user_id@,
            builder.spec_base_url() == Self::BASE_URL_MAIN@,
            builder.spec_hash_prefix_length() == Self::DEFAULT_HASH_PREFIX_LENGTH,
            builder.spec_service() == Self::DEFAULT_SERVICE@,
            builder.spec_timeout() == Some(Self::DEFAULT_TIMEOUT),
    {
        ClientBuilder {
            user_agent: Self::DEFAULT_USER_AGENT.to_owned(),
            user_id,
            base_url: Self::BASE_URL_MAIN.to_owned(),
            hash_prefix_length: Self::DEFAULT_HASH_PREFIX_LENGTH,
            service: Self::DEFAULT_SERVICE.to_owned(),
            timeout: Some(Self::DEFAULT_TIMEOUT),
        }
    }

    /// Sets the base URL of the instance to talk to; for the public instance
    /// that includes `/api`. Slashes at its end are left off.
    pub fn base_url(&mut self, base_url: &str) -> (builder: &mut Self)
        ensures
            builder.spec_base_url() == without_trailing_slashes(base_url@),
            builder.spec_user_agent() == old(self).spec_user_agent(),
            builder.spec_user_id() == old(self).spec_user_id(),
            builder.spec_hash_prefix_length() == old(self).spec_hash_prefix_length(),
            builder.spec_service() == old(self).spec_service(),
            builder.spec_timeout() == old(self).spec_timeout(),
            *final(self) == *final(builder),
    {
        proof {
            use_type_invariant(&*self);
        }
        self.base_url = trim_trailing_slashes(base_url);
        self
    }

    /// Sets the number of characters of the hash of a video ID that is sent
    /// in place of the ID. Fewer characters tell the service less and bring
    /// more candidates back.
    pub fn hash_prefix_length(&mut self, hash_prefix_length: u8) -> (builder: &mut Self)
        requires
            Self::MIN_HASH_PREFIX_LENGTH <= hash_prefix_length <= Self::MAX_HASH_PREFIX_LENGTH,
        ensures
            builder.spec_hash_prefix_length() == hash_prefix_length,
            builder.spec_user_agent() == old(self).spec_user_agent(),
            builder.spec_user_id() == old(self).spec_user_id(),
            builder.spec_base_url() == old(self).spec_base_url(),
            builder.spec_service() == old(self).spec_service(),
            builder.spec_timeout() == old(self).spec_timeout(),
            *final(self) == *final(builder),
    {
        proof {
            use_type_invariant(&*self);
        }
        self.hash_prefix_length = hash_prefix_length;
        self
    }

    /// Sets the service value to send: the platform that the videos are on.
    pub fn service(&mut self, service: String) -> (builder: &mut Self)
        ensures
            builder.spec_service() == service@,
            builder.spec_user_agent() == old(self).spec_user_agent(),
            builder.spec_user_id() == old(self).spec_user_id(),
            builder.spec_base_url() == old(self).spec_base_url(),
            builder.spec_hash_prefix_length() == old(self).spec_hash_prefix_length(),
            builder.spec_timeout() == old(self).spec_timeout(),
            *final(self) == *final(builder),
    {
        proof {
            use_type_invariant(&*self);
        }
        self.service = service;
        self
    }

    /// Sets the time that a request may take, from the start of connecting to
    /// the end of the body, in nanoseconds; `None` for no limit.
    pub fn timeout(&mut self, duration: Option<i128>) -> (builder: &mut Self)
        requires
            duration matches Some(nanoseconds) ==> nanoseconds > 0,
        ensures
            builder.spec_timeout() == duration,
            builder.spec_user_agent() == old(self).spec_user_agent(),
            builder.spec_user_id() == old(self).spec_user_id(),
            builder.spec_base_url() == old(self).spec_base_url(),
            builder.spec_hash_prefix_length() == old(self).spec_hash_prefix_length(),
            builder.spec_service() == old(self).spec_service(),
            *final(self) == *final(builder),
    {
        proof {
            use_type_invariant(&*self);
        }
        self.timeout = duration;
        self
    }

    /// Sets the time that a request may take, in milliseconds; `None` for no
    /// limit.
    pub fn timeout_millis(&mut self, millis: Option<i64>) -> (builder: &mut Self)
        requires
            millis matches Some(milliseconds) ==> milliseconds > 0,
        ensures
            builder.spec_timeout() == match millis {
                Some(milliseconds) => Some(
                    (milliseconds * Self::NANOSECONDS_PER_MILLISECOND) as i128,
                ),
                None => None,
            },
            builder.spec_user_agent() == old(self).spec_user_agent(),
            builder.spec_user_id() == old(self).spec_user_id(),
            builder.spec_base_url() == old(self).spec_base_url(),
            builder.spec_hash_prefix_length() == old(self).spec_hash_prefix_length(),
            builder.spec_service() == old(self).spec_service(),
            *final(self) == *final(builder),
    {
        let duration = match millis {
            Some(milliseconds) => {
                let wide: i128 = milliseconds as i128;
                Some(wide * Self::NANOSECONDS_PER_MILLISECOND)
            },
            None => None,
        };
        self.timeout(duration)
    }

    /// The user agent that requests are made under.
    pub fn configured_user_agent(&self) -> (user_agent: &str)
        ensures
            user_agent@ == self.spec_user_agent(),
    {
        self.user_agent.as_str()
    }

    /// The local ID of the user that the client acts for.
    pub fn configured_user_id(&self) -> (user_id: &str)
        ensures
            user_id@ == self.spec_user_id(),
    {
        self.user_id.as_str()
    }

    /// The base URL of the instance that the client talks to.
    pub fn configured_base_url(&self) -> (base_url: &str)
        ensures
            base_url@ == self.spec_base_url(),
    {
        self.base_url.as_str()
    }

    /// The number of characters of a hash that the client sends.
    pub fn configured_hash_prefix_length(&self) -> (length: u8)
        ensures
            length == self.spec_hash_prefix_length(),
            Self::MIN_HASH_PREFIX_LENGTH <= length <= Self::MAX_HASH_PREFIX_LENGTH,
    {
        proof {
            use_type_invariant(self);
        }
        self.hash_prefix_length
    }

    /// The service value that the client sends.
    pub fn configured_service(&self) -> (service: &str)
        ensures
            service@ == self.spec_service(),
    {
        self.service.as_str()
    }

    /// The time that a request may take, in nanoseconds; `None` for no limit.
    pub fn configured_timeout(&self) -> (timeout: Option<i128>)
        ensures
            timeout == self.spec_timeout(),
            timeout matches Some(nanoseconds) ==> nanoseconds > 0,
    {
        proof {
            use_type_invariant(self);
        }
        self.timeout
    }
}

impl Clone for ClientBuilder {
    fn clone(&self) -> (copy: Self)
        ensures
            copy == *self,
    {
        proof {
            use_type_invariant(self);
        }
        ClientBuilder {
            user_agent: self.user_agent.clone(),
            user_id: self.user_id.clone(),
            base_url: self.base_url.clone(),
            hash_prefix_length: self.hash_prefix_length,
            service: self.service.clone(),
            timeout: self.timeout,
        }
    }
}

/// A request to the service: the URL to get, and the parameters of its
/// query in the order in which they are added.
#[derive(Clone, Debug, PartialEq, Eq)]
pub struct Request {
    /// The URL, without a query.
    pub url: String,
    /// The parameters of the query, each a name and a value.
    pub query: Vec<(String, String)>,
}

/// What a request says, with each text as a sequence of characters.
pub struct RequestView {
    pub url: Seq<char>,
    pub query: Seq<(Seq<char>, Seq<char>)>,
}

impl View for Request {
    type V = RequestView;

    open spec fn view(&self) -> RequestView {
        RequestView {
            url: self.url@,
            query: self.query@.map_values(|pair: (String, String)| (pair.0@, pair.1@)),
        }
    }
}

impl Request {
    /// A request for a path below a base URL, so far without parameters.
    pub fn new(base_url: &str, path: &str) -> (request: Request)
        ensures
            request@ == (RequestView { url: base_url@ + path@, query: Seq::empty() }),
    {
        let request = Request { url: String::from_str(base_url).concat(path), query: Vec::new() };
        assert(request@.query =~= Seq::empty());
        request
    }

    /// Adds a parameter to the query, behind those that are there.
    pub fn add_parameter(&mut self, name: &str, value: String)
        ensures
            final(self)@ == (RequestView {
                url: old(self)@.url,
                query: old(self)@.query.push((name@, value@)),
            }),
    {
        self.query.push((String::from_str(name), value));
        assert(final(self)@.query =~= old(self)@.query.push((name@, value@)));
    }
}

} // verus!
