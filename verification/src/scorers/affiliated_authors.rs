//! Accounts affiliated with X, xAI, Tesla and SpaceX, identified by the affiliate badge their
//! account carries.
//!
//! The badge is the parent organization's own statement that an account belongs to it, granted
//! and revoked through Verified Organizations: someone who leaves loses the badge and stops being
//! deranked without anyone editing a list. The organization list below is the target set, not a
//! roster of people.

use vstd::prelude::*;
use crate::candidate::{opt_chars, PostCandidate};
use crate::text::{chars_of, chars_eq, normalize_handle, normalize_handle_chars, roster_view};
use crate::unicode::string_from_chars;

verus! {

/// Organizations whose affiliates are deranked, matched against the handle the badge points at.
pub open spec fn affiliated_roster() -> Seq<Seq<char>> {
    seq!["x"@, "xai"@, "tesla"@, "spacex"@]
}

pub fn affiliated_organizations() -> (orgs: Vec<&'static str>)
    ensures
        roster_view(orgs@) == affiliated_roster(),
{
    let orgs = vec!["x", "xai", "tesla", "spacex"];
    assert(roster_view(orgs@) == affiliated_roster());
    orgs
}

/// A handle trimmed, without leading `@`, ASCII-lowercased.
pub fn normalize(handle: &str) -> (out: String)
    ensures
        out@ == normalize_handle(handle@),
{
    string_from_chars(&normalize_handle_chars(&chars_of(handle)))
}

/// The listed organization a badge's parent handle names, if any.
pub open spec fn organization_of(parent_handle: Seq<char>) -> Option<Seq<char>> {
    if affiliated_roster().contains(normalize_handle(parent_handle)) {
        Some(normalize_handle(parent_handle))
    } else {
        None
    }
}

/// The badge a post carries: the author's, else that of the account it reposts.
pub open spec fn badge(c: PostCandidate) -> Option<Seq<char>> {
    match c.author_affiliate_handle {
        Some(h) => Some(h@),
        None => opt_chars(c.retweeted_affiliate_handle),
    }
}

/// The listed organization of the first badge that names one: the author's badge, else the
/// reposted account's.
pub open spec fn affiliation(c: PostCandidate) -> Option<Seq<char>> {
    let by_author = match c.author_affiliate_handle {
        Some(h) => organization_of(h@),
        None => None,
    };
    if by_author is Some {
        by_author
    } else {
        match c.retweeted_affiliate_handle {
            Some(h) => organization_of(h@),
            None => None,
        }
    }
}

pub open spec fn opt_str_chars(o: Option<&str>) -> Option<Seq<char>> {
    match o {
        Some(s) => Some(s@),
        None => None,
    }
}

/// The organization on the list this badge points at, or `None` for a badge from anyone else.
pub fn affiliation_of_handle(parent_handle: &str) -> (r: Option<&'static str>)
    ensures
        opt_str_chars(r) == organization_of(parent_handle@),
{
    let normalized = normalize_handle_chars(&chars_of(parent_handle));
    let orgs = affiliated_organizations();
    let mut i: usize = 0;
    while i < orgs.len()
        invariant
            i <= orgs.len(),
            roster_view(orgs@) == affiliated_roster(),
            normalized@ == normalize_handle(parent_handle@),
            forall|k: int| 0 <= k < i ==> #[trigger] roster_view(orgs@)[k] != normalized@,
        decreases orgs.len() - i,
    {
        let org = orgs[i];
        assert(roster_view(orgs@)[i as int] == org@);
        if chars_eq(&chars_of(org), &normalized) {
            return Some(org);
        }
        i += 1;
    }
    None
}

/// The badge a post carries, whether the badged account wrote it or the post is a repost of one.
pub fn badge_of(candidate: &PostCandidate) -> (r: Option<&str>)
    ensures
        opt_str_chars(r) == badge(*candidate),
{
    match &candidate.author_affiliate_handle {
        Some(h) => Some(h.as_str()),
        None => match &candidate.retweeted_affiliate_handle {
            Some(h) => Some(h.as_str()),
            None => None,
        },
    }
}

/// The listed organization the post is affiliated with, through its author's badge or the badge
/// of the account it reposts.
pub fn affiliation_of(candidate: &PostCandidate) -> (r: Option<&'static str>)
    ensures
        opt_str_chars(r) == affiliation(*candidate),
{
    let by_author = match &candidate.author_affiliate_handle {
        Some(h) => affiliation_of_handle(h.as_str()),
        None => None,
    };
    if by_author.is_some() {
        return by_author;
    }
    match &candidate.retweeted_affiliate_handle {
        Some(h) => affiliation_of_handle(h.as_str()),
        None => None,
    }
}

pub fn is_affiliated(candidate: &PostCandidate) -> (r: bool)
    ensures
        r == affiliation(*candidate) is Some,
{
    affiliation_of(candidate).is_some()
}

/// An affiliation is always one of the listed organizations, and a post has one only if it
/// carries a badge: a post with no badge is never deranked as affiliated.
pub proof fn lemma_affiliation_needs_badge(c: PostCandidate)
    ensures
        affiliation(c) matches Some(org) ==> affiliated_roster().contains(org),
        affiliation(c) is Some ==> badge(c) is Some,
{
}

/// The listed organizations are exactly these 4: X, xAI, Tesla and SpaceX.
pub proof fn lemma_affiliated_roster_entries()
    ensures
        affiliated_roster().len() == 4,
        affiliated_roster().contains("x"@),
        affiliated_roster().contains("xai"@),
        affiliated_roster().contains("tesla"@),
        affiliated_roster().contains("spacex"@),
{
    let r = affiliated_roster();
    assert(r[0] == "x"@);
    assert(r[1] == "xai"@);
    assert(r[2] == "tesla"@);
    assert(r[3] == "spacex"@);
}

/// A post's affiliation, read off its badges: the author's badge when, normalized, it names a
/// listed organization; else the reposted account's badge when it does; else none.
pub proof fn lemma_affiliation_by_fields(c: PostCandidate)
    ensures
        (c.author_affiliate_handle matches Some(h) && affiliated_roster().contains(normalize_handle(h@)))
            ==> affiliation(c) == Some(normalize_handle(c.author_affiliate_handle.unwrap()@)),
        (!(c.author_affiliate_handle matches Some(h) && affiliated_roster().contains(normalize_handle(h@)))
            && (c.retweeted_affiliate_handle matches Some(h) && affiliated_roster().contains(
            normalize_handle(h@),
        ))) ==> affiliation(c) == Some(normalize_handle(c.retweeted_affiliate_handle.unwrap()@)),
        (!(c.author_affiliate_handle matches Some(h) && affiliated_roster().contains(normalize_handle(h@)))
            && !(c.retweeted_affiliate_handle matches Some(h) && affiliated_roster().contains(
            normalize_handle(h@),
        ))) ==> affiliation(c) is None,
{
}

} // verus!
