//! Matching a scraped profile to a stored one: the canonical phone number is the
//! strongest signal; an exact name and city match is the fallback.

use vstd::prelude::*;

verus! {

/// The next lookup of a match, or its outcome.
#[derive(Debug)]
pub enum MatchStep {
    /// Look the profile up by this canonical phone number.
    ByPhone(String),
    /// Look the profile up by name and city; what that finds is the match.
    ByNameCity,
    /// The stored profile that matches.
    Matched(u128),
}

/// The first lookup for a profile with phone number `phone`: by phone where there is a
/// non-empty one, else by name and city.
pub fn find_match_start(phone: Option<&str>) -> (r: MatchStep)
    ensures
        phone is Some && phone->0@.len() > 0 ==> (r matches MatchStep::ByPhone(q) && q@
            == phone->0@),
        !(phone is Some && phone->0@.len() > 0) ==> r is ByNameCity,
{
    match phone {
        Some(p) => {
            if !p.is_empty() {
                MatchStep::ByPhone(p.to_string())
            } else {
                MatchStep::ByNameCity
            }
        },
        None => MatchStep::ByNameCity,
    }
}

/// After the phone lookup: a profile found by phone is the match, and the name and
/// city are not consulted; otherwise look up by name and city.
pub fn find_match_after_phone(found: Option<u128>) -> (r: MatchStep)
    ensures
        found matches Some(id) ==> r == MatchStep::Matched(id),
        found is None ==> r is ByNameCity,
{
    match found {
        Some(id) => MatchStep::Matched(id),
        None => MatchStep::ByNameCity,
    }
}

} // verus!
