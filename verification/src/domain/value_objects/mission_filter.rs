//! What a listing of missions can be narrowed by.

use vstd::prelude::*;
use vstd::string::*;
use crate::domain::entities::missions::MissionEntity;
use crate::domain::value_objects::mission_statuses::MissionStatuses;

verus! {

/// The code point of `c`, with the letters `A` to `Z` taken as `a` to `z`.
pub open spec fn folded(c: char) -> u32 {
    if 'A' <= c <= 'Z' {
        (c as u32 + 32) as u32
    } else {
        c as u32
    }
}

/// The folded code points of a text, one for one.
pub open spec fn folded_text(text: Seq<char>) -> Seq<u32> {
    Seq::new(text.len(), |i: int| folded(text[i]))
}

/// Whether `needle` stands in `hay` from place `at` on.
pub open spec fn occurs_at(hay: Seq<u32>, needle: Seq<u32>, at: int) -> bool {
    &&& 0 <= at
    &&& at + needle.len() <= hay.len()
    &&& hay.subrange(at, at + needle.len()) == needle
}

/// Whether `needle` is a part of `hay`, upper and lower case of the letters `a`
/// to `z` taken as the same. The empty text is a part of every text.
pub open spec fn contains_text(hay: Seq<char>, needle: Seq<char>) -> bool {
    exists|at: int| occurs_at(folded_text(hay), folded_text(needle), at)
}

/// A listing shows the missions that have the status, if one is given, and
/// whose name contains the text, if one is given.
#[derive(Debug)]
pub struct MissionFilter {
    pub status: Option<MissionStatuses>,
    pub name: Option<String>,
}

fn fold(c: char) -> (code: u32)
    ensures
        code == folded(c),
{
    let code = c as u32;
    if 65 <= code && code <= 90 {
        code + 32
    } else {
        code
    }
}

fn fold_text(text: &str) -> (codes: Vec<u32>)
    ensures
        codes@ == folded_text(text@),
{
    let n = text.unicode_len();
    let mut codes: Vec<u32> = Vec::new();
    let mut i: usize = 0;
    while i < n
        invariant
            n == text@.len(),
            i <= n,
            codes@.len() == i,
            forall|k: int| 0 <= k < i ==> codes@[k] == folded(text@[k]),
        decreases n - i,
    {
        codes.push(fold(text.get_char(i)));
        i = i + 1;
    }
    assert(codes@ =~= folded_text(text@));
    codes
}

fn stands_at(hay: &Vec<u32>, needle: &Vec<u32>, at: usize) -> (found: bool)
    requires
        at + needle@.len() <= hay@.len(),
    ensures
        found == occurs_at(hay@, needle@, at as int),
{
    let hay_len = hay.len();
    let mut k: usize = 0;
    while k < needle.len()
        invariant
            at + needle@.len() <= hay@.len(),
            hay@.len() == hay_len,
            k <= needle@.len(),
            forall|j: int| 0 <= j < k ==> hay@[at + j] == needle@[j],
        decreases needle.len() - k,
    {
        if hay[at + k] != needle[k] {
            assert(hay@.subrange(at as int, at + needle@.len())[k as int] != needle@[k as int]);
            return false;
        }
        k = k + 1;
    }
    assert(hay@.subrange(at as int, at + needle@.len()) =~= needle@);
    true
}

/// Whether `needle` is a part of `hay`, upper and lower case of the letters `a`
/// to `z` taken as the same.
pub fn contains_ignoring_case(hay: &str, needle: &str) -> (found: bool)
    ensures
        found == contains_text(hay@, needle@),
{
    let hay_codes = fold_text(hay);
    let needle_codes = fold_text(needle);
    if needle_codes.len() > hay_codes.len() {
        return false;
    }
    let last = hay_codes.len() - needle_codes.len();
    let mut at: usize = 0;
    loop
        invariant
            hay_codes@ == folded_text(hay@),
            needle_codes@ == folded_text(needle@),
            last == hay_codes@.len() - needle_codes@.len(),
            at <= last,
            forall|k: int| 0 <= k < at ==> !occurs_at(hay_codes@, needle_codes@, k),
        decreases last - at,
    {
        if stands_at(&hay_codes, &needle_codes, at) {
            return true;
        }
        if at == last {
            return false;
        }
        at = at + 1;
    }
}

impl MissionFilter {
    /// Whether the filter lets `mission` through.
    pub open spec fn accepts(self, mission: MissionEntity) -> bool {
        &&& self.status matches Some(status) ==> mission.status == status
        &&& self.name matches Some(name) ==> contains_text(mission.name@, name@)
    }

    /// The filter that lets every mission through.
    pub fn any() -> (filter: MissionFilter)
        ensures
            filter.status is None,
            filter.name is None,
    {
        MissionFilter { status: None, name: None }
    }

    /// Whether the filter lets `mission` through.
    pub fn matches(&self, mission: &MissionEntity) -> (accepted: bool)
        ensures
            accepted == self.accepts(*mission),
    {
        let status_ok = match &self.status {
            Some(status) => mission.status == *status,
            None => true,
        };
        if !status_ok {
            return false;
        }
        match &self.name {
            Some(name) => contains_ignoring_case(mission.name.as_str(), name.as_str()),
            None => true,
        }
    }
}

} // verus!
