//! What a token claims, and what a client is handed with it.

use vstd::prelude::*;
use crate::decimal::{decimal_text, decimal_within, i32_to_text, parse_i32};

verus! {

/// The seconds of one day.
pub const SECONDS_PER_DAY: i64 = 86_400;

/// The moment at which a token issued at `issued_at` for `lift_time_days` days expires.
pub open spec fn expiry(issued_at: int, lift_time_days: int) -> int {
    issued_at + lift_time_days * SECONDS_PER_DAY
}

/// What a client is handed after it has shown who it is.
#[derive(Debug, Clone)]
pub struct Passport {
    pub access_token: String,
    pub token_type: String,
    pub expires_in: usize,
}

/// What a token says: who it is for, when it was issued and when it expires.
/// Times are seconds since the epoch.
#[derive(Debug, Clone)]
pub struct Claims {
    pub sub: String,
    pub exp: usize,
    pub iat: usize,
}

impl Claims {
    /// The claims of a token for `brawler_id`, issued at `issued_at` for
    /// `lift_time_days` days.
    ///
    /// There are none where a time lies before the epoch or does not fit in a
    /// machine word.
    pub fn issue(brawler_id: i32, issued_at: i64, lift_time_days: i64) -> (claims: Option<Claims>)
        ensures
            claims is Some <==> 0 <= issued_at <= usize::MAX && 0 <= expiry(
                issued_at as int,
                lift_time_days as int,
            ) <= usize::MAX,
            claims matches Some(claims) ==> {
                &&& claims.sub@ == decimal_text(brawler_id as int)
                &&& claims.iat == issued_at
                &&& claims.exp == expiry(issued_at as int, lift_time_days as int)
            },
    {
        assert(SECONDS_PER_DAY == 86_400);
        let expires: i128 = issued_at as i128 + lift_time_days as i128 * 86_400;
        if issued_at < 0 || issued_at as i128 > usize::MAX as i128 {
            return None;
        }
        if expires < 0 || expires > usize::MAX as i128 {
            return None;
        }
        Some(Claims { sub: i32_to_text(brawler_id), exp: expires as usize, iat: issued_at as usize })
    }

    /// The brawler that the token is for, if its subject is the text of an identifier.
    pub fn brawler_id(&self) -> (id: Option<i32>)
        ensures
            id is Some <==> decimal_within(self.sub@, i32::MIN as int, i32::MAX as int) is Some,
            id matches Some(value) ==> decimal_within(self.sub@, i32::MIN as int, i32::MAX as int)
                == Some(value as int),
    {
        parse_i32(self.sub.as_str())
    }
}

impl Passport {
    /// The passport for a signed token that expires at `expires_in`.
    pub fn new(access_token: String, expires_in: usize) -> (passport: Passport)
        ensures
            passport.access_token == access_token,
            passport.token_type@ == "Bearer"@,
            passport.expires_in == expires_in,
    {
        Passport { access_token, token_type: "Bearer".to_owned(), expires_in }
    }
}

/// The claims that are issued for a brawler name that brawler again.
pub proof fn lemma_claims_name_their_brawler(brawler_id: i32)
    ensures
        decimal_within(decimal_text(brawler_id as int), i32::MIN as int, i32::MAX as int) == Some(
            brawler_id as int,
        ),
{
    crate::decimal::lemma_decimal_round_trip(brawler_id as int);
}

} // verus!
