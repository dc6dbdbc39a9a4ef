use vstd::prelude::*;

use crate::error::{error_text, AppError};
use crate::text::{alphanumeric_char, chars_of, concat3, is_alphanumeric, owned, str_eq};

verus! {

/// A character allowed in a token: the token ends up in a URL path.
pub open spec fn token_char(c: char) -> bool {
    is_alphanumeric(c) || c == '-' || c == '_'
}

/// 1 to 128 characters from `[A-Za-z0-9_-]`.
pub open spec fn token_ok(t: Seq<char>) -> bool {
    1 <= t.len() <= 128 && forall|i: int| 0 <= i < t.len() ==> token_char(#[trigger] t[i])
}

pub open spec fn token_error(t: Seq<char>) -> Seq<char> {
    "Invalid token '"@ + t + "': use 1-128 chars from [A-Za-z0-9_-]"@
}

/// The clouds the API client knows a base URL for.
pub open spec fn spec_clouds() -> Seq<Seq<char>> {
    seq!["us-1"@, "us-2"@, "eu-1"@, "us-gov-1"@, "us-gov-2"@]
}

pub open spec fn cloud_ok(c: Seq<char>) -> bool {
    c == "us-1"@ || c == "us-2"@ || c == "eu-1"@ || c == "us-gov-1"@ || c == "us-gov-2"@
}

pub open spec fn cloud_error(c: Seq<char>) -> Seq<char> {
    "Invalid cloud '"@ + c + "': use one of us-1, us-2, eu-1, us-gov-1, us-gov-2"@
}

/// The supported clouds, in the order they are offered.
pub fn clouds() -> (res: Vec<String>)
    ensures
        crate::text::views(res@) == spec_clouds(),
{
    let mut v: Vec<String> = Vec::new();
    v.push(owned("us-1"));
    v.push(owned("us-2"));
    v.push(owned("eu-1"));
    v.push(owned("us-gov-1"));
    v.push(owned("us-gov-2"));
    assert(crate::text::views(v@) =~= spec_clouds());
    v
}

/// The token ends up in the URL path, so only characters that are safe
/// there are allowed.
pub fn validate_token(token: &str) -> (res: Result<(), AppError>)
    ensures
        res is Ok <==> token_ok(token@),
        res matches Err(e) ==> e is Other && error_text(e) == token_error(token@),
{
    let v = chars_of(token);
    let mut ok = v.len() >= 1 && v.len() <= 128;
    let mut i: usize = 0;
    while i < v.len()
        invariant
            0 <= i <= v.len(),
            v@ == token@,
            ok == (1 <= v.len() <= 128 && forall|j: int| 0 <= j < i ==> token_char(#[trigger] v@[j])),
        decreases v.len() - i,
    {
        let c = v[i];
        let good = alphanumeric_char(c) || c == '-' || c == '_';
        ok = ok && good;
        i = i + 1;
    }
    if ok {
        Ok(())
    } else {
        Err(
            AppError::Other(
                concat3("Invalid token '", token, "': use 1-128 chars from [A-Za-z0-9_-]"),
            ),
        )
    }
}

/// The cloud must be one the API client has a base URL for.
pub fn validate_cloud(cloud: &str) -> (res: Result<(), AppError>)
    ensures
        res is Ok <==> cloud_ok(cloud@),
        res matches Err(e) ==> e is Other && error_text(e) == cloud_error(cloud@),
{
    if str_eq(cloud, "us-1") || str_eq(cloud, "us-2") || str_eq(cloud, "eu-1") || str_eq(
        cloud,
        "us-gov-1",
    ) || str_eq(cloud, "us-gov-2") {
        Ok(())
    } else {
        Err(
            AppError::Other(
                concat3(
                    "Invalid cloud '",
                    cloud,
                    "': use one of us-1, us-2, eu-1, us-gov-1, us-gov-2",
                ),
            ),
        )
    }
}

} // verus!
