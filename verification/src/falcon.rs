//! The parts of the CrowdStrike Falcon API client that decide rather than
//! talk: which host a cloud lives at, how long a token is trusted, what a
//! CCID answer means, and how often a failed start is retried.

use vstd::prelude::*;

use crate::error::AppError;
use crate::text::{concat3, owned};

verus! {

/// The API host of a cloud region; us-1, and anything unknown, is the bare
/// endpoint.
pub open spec fn spec_api_base_url(cloud: Option<Seq<char>>) -> Seq<char> {
    match cloud {
        Some(c) => if c == "us-2"@ {
            "https://api.us-2.crowdstrike.com"@
        } else if c == "eu-1"@ {
            "https://api.eu-1.crowdstrike.com"@
        } else if c == "us-gov-1"@ {
            "https://api.laggar.gcw.crowdstrike.com"@
        } else if c == "us-gov-2"@ {
            "https://api.us-gov-2.crowdstrike.com"@
        } else {
            "https://api.crowdstrike.com"@
        },
        None => "https://api.crowdstrike.com"@,
    }
}

pub fn api_base_url(cloud: Option<&str>) -> (r: &'static str)
    ensures
        r@ == spec_api_base_url(
            match cloud {
                Some(c) => Some(c@),
                None => None,
            },
        ),
{
    match cloud {
        Some(c) => if crate::text::str_eq(c, "us-2") {
            "https://api.us-2.crowdstrike.com"
        } else if crate::text::str_eq(c, "eu-1") {
            "https://api.eu-1.crowdstrike.com"
        } else if crate::text::str_eq(c, "us-gov-1") {
            "https://api.laggar.gcw.crowdstrike.com"
        } else if crate::text::str_eq(c, "us-gov-2") {
            "https://api.us-gov-2.crowdstrike.com"
        } else {
            "https://api.crowdstrike.com"
        },
        None => "https://api.crowdstrike.com",
    }
}

/// Token lifetime in seconds when the OAuth2 answer gives none.
pub const DEFAULT_EXPIRES_IN: u64 = 1799;

pub fn default_expires_in() -> (r: u64)
    ensures
        r == DEFAULT_EXPIRES_IN,
{
    DEFAULT_EXPIRES_IN
}

/// Tokens are refreshed this many seconds before they actually expire, so
/// endpoint calls never have to think about the token's lifetime.
pub const REFRESH_MARGIN_SECS: u64 = 60;

/// When a token issued at `issued_at_ms` for `expires_in` seconds stops
/// being used.
pub open spec fn spec_token_expiry(issued_at_ms: u64, expires_in: u64) -> int {
    issued_at_ms + (if expires_in > REFRESH_MARGIN_SECS {
        expires_in - REFRESH_MARGIN_SECS
    } else {
        0
    }) * 1000
}

/// The current access token and the time (milliseconds on a monotonic
/// clock) from which it is refreshed instead.
#[derive(Debug)]
pub struct TokenState {
    pub access_token: String,
    pub expires_at: u64,
}

impl TokenState {
    pub fn issued(access_token: String, issued_at_ms: u64, expires_in: u64) -> (r: Self)
        requires
            spec_token_expiry(issued_at_ms, expires_in) <= u64::MAX,
        ensures
            r.access_token == access_token,
            r.expires_at == spec_token_expiry(issued_at_ms, expires_in),
    {
        let secs = expires_in.saturating_sub(REFRESH_MARGIN_SECS);
        TokenState { access_token, expires_at: issued_at_ms + secs * 1000 }
    }

    /// The token, while it may still be used at `now_ms`; nothing once it
    /// must be refreshed.
    pub fn current(&self, now_ms: u64) -> (r: Option<String>)
        ensures
            now_ms < self.expires_at ==> r == Some(self.access_token),
            now_ms >= self.expires_at ==> r is None,
    {
        if now_ms < self.expires_at {
            Some(self.access_token.clone())
        } else {
            None
        }
    }
}

/// The CCID out of the `resources` of the CCID query: the first one.
pub fn first_ccid(resources: Vec<String>) -> (r: Result<String, AppError>)
    ensures
        resources@.len() > 0 ==> r == Ok::<String, AppError>(resources@[0]),
        resources@.len() == 0 ==> (r matches Err(AppError::Other(m)) && m@ == "No CCID returned from API"@),
{
    if resources.len() == 0 {
        return Err(AppError::Other(owned("No CCID returned from API")));
    }
    let mut resources = resources;
    Ok(resources.swap_remove(0))
}

/// The FQL filter of the installer query for a platform.
pub fn sensor_filter(platform: &str) -> (r: String)
    ensures
        r@ == "platform:'"@ + platform@ + "'"@,
{
    concat3("platform:'", platform, "'")
}

/// Pauses between the attempts to authenticate at startup: after the first
/// failure 5 seconds, after the second 10, and after the third none, the
/// start is given up.
pub fn auth_retry_delay(failed_attempts: usize) -> (r: Option<u64>)
    ensures
        failed_attempts == 1 ==> r == Some(5u64),
        failed_attempts == 2 ==> r == Some(10u64),
        failed_attempts != 1 && failed_attempts != 2 ==> r is None,
{
    if failed_attempts == 1 {
        Some(5)
    } else if failed_attempts == 2 {
        Some(10)
    } else {
        None
    }
}


/// Every cloud that configuration accepts has its own API host: no two
/// regions share one, so a region is never silently sent elsewhere.
pub proof fn law_each_cloud_has_its_own_host()
    ensures
        forall|i: int, j: int|
            0 <= i < j < 5 ==> spec_api_base_url(Some(#[trigger] crate::config::validate::spec_clouds()[i]))
                != spec_api_base_url(Some(#[trigger] crate::config::validate::spec_clouds()[j])),
{
    reveal_strlit("us-1");
    reveal_strlit("us-2");
    reveal_strlit("eu-1");
    reveal_strlit("us-gov-1");
    reveal_strlit("us-gov-2");
    reveal_strlit("https://api.us-2.crowdstrike.com");
    reveal_strlit("https://api.eu-1.crowdstrike.com");
    reveal_strlit("https://api.laggar.gcw.crowdstrike.com");
    reveal_strlit("https://api.us-gov-2.crowdstrike.com");
    reveal_strlit("https://api.crowdstrike.com");
    let c = crate::config::validate::spec_clouds();
    assert(c[0] == "us-1"@ && c[1] == "us-2"@ && c[2] == "eu-1"@ && c[3] == "us-gov-1"@ && c[4]
        == "us-gov-2"@);
    assert("us-1"@ != "us-2"@ && "us-1"@ != "eu-1"@ && "us-1"@ != "us-gov-1"@ && "us-1"@
        != "us-gov-2"@) by {
        assert("us-1"@[1] != "us-2"@[1] || "us-1"@[3] != "us-2"@[3]);
        assert("us-1"@[0] != "eu-1"@[0]);
        assert("us-1"@.len() != "us-gov-1"@.len());
        assert("us-1"@.len() != "us-gov-2"@.len());
    }
    assert("us-2"@ != "eu-1"@ && "us-gov-1"@ != "us-gov-2"@) by {
        assert("us-2"@[0] != "eu-1"@[0]);
        assert("us-gov-1"@[7] != "us-gov-2"@[7]);
    }
    assert("us-2"@.len() != "us-gov-1"@.len() && "eu-1"@.len() != "us-gov-2"@.len());
    let u = |k: int| spec_api_base_url(Some(c[k]));
    assert(u(0) == "https://api.crowdstrike.com"@);
    assert(u(1) == "https://api.us-2.crowdstrike.com"@);
    assert(u(2) == "https://api.eu-1.crowdstrike.com"@);
    assert(u(3) == "https://api.laggar.gcw.crowdstrike.com"@);
    assert(u(4) == "https://api.us-gov-2.crowdstrike.com"@);
    assert(u(0).len() != u(1).len() && u(0).len() != u(2).len() && u(0).len() != u(3).len()
        && u(0).len() != u(4).len());
    assert(u(1)[12] != u(2)[12]);
    assert(u(1).len() != u(3).len() && u(1).len() != u(4).len());
    assert(u(2).len() != u(3).len() && u(2).len() != u(4).len());
    assert(u(3).len() != u(4).len());
}

} // verus!
