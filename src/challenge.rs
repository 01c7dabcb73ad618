use crate::error::CertError;
use crate::text::has_prefix;
use vstd::prelude::*;
use vstd::string::*;

verus! {

/// The path prefix under which the issuer fetches HTTP-01 tokens.
pub const WELL_KNOWN_PATH_PREFIX: &'static str = "/.well-known/acme-challenge/";

/// The path prefix under which the issuer fetches HTTP-01 tokens.
pub open spec fn well_known_prefix() -> Seq<char> {
    WELL_KNOWN_PATH_PREFIX@
}

/// The storage key prefix of challenge tokens.
pub const TOKEN_PATH_PREFIX: &'static str = "lets-encrypt/";

pub open spec fn min_of(a: int, b: int) -> int {
    if a < b {
        a
    } else {
        b
    }
}

/// Relies on `substring::Substring::substring` for `str`: the characters
/// from index `start` up to index `end`, both cut to the length of `s`,
/// and nothing where `end <= start`.
#[verifier::external_body]
fn char_substring<'a>(s: &'a str, start: usize, end: usize) -> (r: &'a str)
    ensures
        start < end ==> r@ == s@.subrange(
            min_of(start as int, s@.len() as int),
            min_of(end as int, s@.len() as int),
        ),
        end <= start ==> r@.len() == 0,
{
    substring::Substring::substring(s, start, end)
}

/// The token a request path asks for, where the path lies under the
/// well-known challenge prefix; `None` for any other path, which the proxy
/// routes as usual.
pub fn challenge_token(path: &str) -> (r: Option<&str>)
    ensures
        r is None <==> !(well_known_prefix().len() <= path@.len() && path@.subrange(
            0,
            well_known_prefix().len() as int,
        ) == well_known_prefix()),
        r matches Some(t) ==> t@ == path@.subrange(well_known_prefix().len() as int, path@.len() as int),
{
    if !has_prefix(path, WELL_KNOWN_PATH_PREFIX) {
        return None;
    }
    let start = WELL_KNOWN_PATH_PREFIX.unicode_len();
    let end = path.unicode_len();
    if start < end {
        Some(char_substring(path, start, end))
    } else {
        let empty = char_substring(path, start, start);
        assert(empty@ =~= path@.subrange(start as int, end as int));
        Some(empty)
    }
}

/// The storage key under which the key authorization of `token` is kept.
pub fn token_path(token: &str) -> (r: String)
    ensures
        r@ == TOKEN_PATH_PREFIX@ + token@,
{
    String::from_str(TOKEN_PATH_PREFIX).concat(token)
}

/// The HTTP answer to a challenge request.
#[derive(Clone, Debug)]
pub struct ChallengeReply {
    pub status: u16,
    pub body: String,
}

/// The answer to a challenge request, given what loading its token gave:
/// the stored value with status 200, or status 500 where the token or the
/// storage is missing, since an expected token that cannot be served is a
/// fault of the system and not of the client.
pub fn challenge_reply(loaded: Result<String, CertError>) -> (r: ChallengeReply)
    ensures
        loaded matches Ok(v) ==> r.status == 200 && r.body@ == v@,
        loaded is Err ==> r.status == 500,
{
    match loaded {
        Ok(value) => ChallengeReply { status: 200, body: value },
        Err(e) => ChallengeReply { status: 500, body: e.to_string() },
    }
}

} // verus!
