//! Immich: the photo server's statistics as the dashboard shows them.

use crate::sensors::network::{format_bytes, human_bytes};
use crate::text::{chars_of, push_chars, push_str, string_from};
use vstd::prelude::*;

verus! {

/// Asset counts and storage use of the Immich server.
#[derive(Clone, Debug)]
pub struct ImmichStats {
    pub photos: u64,
    pub videos: u64,
    pub total_assets: u64,
    pub usage_bytes: u64,
    pub usage_human: String,
    pub user_name: String,
}

/// One user's entry in the server statistics.
#[derive(Clone, Debug)]
pub struct RawUserUsage {
    pub user_name: String,
}

/// The server statistics as the Immich API reports them
/// (`GET /api/server/statistics`).
#[derive(Clone, Debug)]
pub struct RawImmichStats {
    pub photos: u64,
    pub videos: u64,
    pub usage: u64,
    pub usage_by_user: Option<Vec<RawUserUsage>>,
}

/// The user named on the card: the first user listed, or `User`.
pub open spec fn card_user(u: Option<Vec<RawUserUsage>>) -> Seq<char> {
    match u {
        Some(v) => if v@.len() > 0 {
            v@[0].user_name@
        } else {
            "User"@
        },
        None => "User"@,
    }
}

impl ImmichStats {
    /// The card for the reported statistics: the counts, their sum, the
    /// storage use in bytes and human-readable, and the first user's name.
    pub fn from_raw(raw: RawImmichStats) -> (s: ImmichStats)
        requires
            raw.photos + raw.videos <= u64::MAX,
        ensures
            s.photos == raw.photos,
            s.videos == raw.videos,
            s.total_assets == raw.photos + raw.videos,
            s.usage_bytes == raw.usage,
            s.usage_human@ == human_bytes(raw.usage as nat),
            s.user_name@ == card_user(raw.usage_by_user),
    {
        let user_name = match &raw.usage_by_user {
            Some(v) => if v.len() > 0 {
                v[0].user_name.clone()
            } else {
                string_from("User")
            },
            None => string_from("User"),
        };
        ImmichStats {
            photos: raw.photos,
            videos: raw.videos,
            total_assets: raw.photos + raw.videos,
            usage_bytes: raw.usage,
            usage_human: format_bytes(raw.usage),
            user_name,
        }
    }
}

/// `s` without its trailing `c` characters.
pub open spec fn trim_trailing(s: Seq<char>, c: char) -> Seq<char>
    decreases s.len(),
{
    if s.len() > 0 && s.last() == c {
        trim_trailing(s.drop_last(), c)
    } else {
        s
    }
}

proof fn lemma_trim_trailing_cut(s: Seq<char>, c: char, j: int)
    requires
        0 <= j <= s.len(),
        forall|k: int| j <= k < s.len() ==> s[k] == c,
    ensures
        trim_trailing(s, c) == trim_trailing(s.subrange(0, j), c),
    decreases s.len() - j,
{
    if j < s.len() {
        assert(s.drop_last().subrange(0, j) =~= s.subrange(0, j));
        lemma_trim_trailing_cut(s.drop_last(), c, j);
    } else {
        assert(s.subrange(0, j) =~= s);
    }
}

/// The statistics endpoint under a server URL.
pub open spec fn statistics_endpoint(url: Seq<char>) -> Seq<char> {
    trim_trailing(url, '/') + "/api/server/statistics"@
}

/// A client of the Immich API.
#[derive(Clone, Debug)]
pub struct ImmichClient {
    url: String,
    api_key: String,
}

impl ImmichClient {
    /// The server URL.
    pub closed spec fn base_url(&self) -> Seq<char> {
        self.url@
    }

    /// The API key.
    pub closed spec fn key(&self) -> Seq<char> {
        self.api_key@
    }

    /// A client of the server at `url` that authenticates with `api_key`.
    pub fn new(url: String, api_key: String) -> (c: Self)
        ensures
            c.base_url() == url@,
            c.key() == api_key@,
    {
        ImmichClient { url, api_key }
    }

    /// The API key, sent as the `x-api-key` header.
    pub fn api_key(&self) -> (k: &str)
        ensures
            k@ == self.key(),
    {
        self.api_key.as_str()
    }

    /// The statistics endpoint: the server URL without trailing slashes,
    /// followed by `/api/server/statistics`.
    pub fn endpoint(&self) -> (e: String)
        ensures
            e@ == statistics_endpoint(self.base_url()),
    {
        let u = chars_of(self.url.as_str());
        let mut j: usize = u.len();
        while j > 0 && u[j - 1] == '/'
            invariant
                j <= u@.len(),
                u@ == self.url@,
                forall|k: int| j <= k < u@.len() ==> u@[k] == '/',
            decreases j,
        {
            j = j - 1;
        }
        proof {
            lemma_trim_trailing_cut(u@, '/', j as int);
        }
        let mut e = String::new();
        push_chars(&mut e, u.as_slice().split_at(j).0);
        push_str(&mut e, "/api/server/statistics");
        proof {
            assert(u@.subrange(0, j as int) == trim_trailing(u@, '/'));
        }
        e
    }
}

/// Trailing slashes on the server URL do not change the endpoint.
pub proof fn law_endpoint_ignores_trailing_slash(url: Seq<char>)
    ensures
        statistics_endpoint(url.push('/')) == statistics_endpoint(url),
{
    assert(url.push('/').drop_last() =~= url);
}

} // verus!
