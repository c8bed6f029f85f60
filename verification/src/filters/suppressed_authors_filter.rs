//! The operator's suppression list for the For You feed.

use vstd::prelude::*;
use crate::candidate::{
    opt_chars, partition_by_flags, select, FilterResult, PostCandidate, ScoredPostsQuery,
};
use crate::text::{chars_of, normalize_handle, normalize_handle_chars, roster_contains, roster_view};

verus! {

/// Accounts excluded from the For You feed, by screen name, without the leading `@`.
///
/// This is an operator editorial decision, not a learned or measured quality signal. It stands
/// on its own under its own name so that it is a single auditable list rather than a special
/// case buried inside a heuristic.
pub open spec fn suppressed_roster() -> Seq<Seq<char>> {
    seq![
        "dogedesigner"@,
        "farzyness"@,
        "kettlebelldan"@,
        "xfreeze"@,
        "wholemars"@,
        "sawyermerritt"@,
        "teslaownerssv"@,
    ]
}

/// The suppression list, entry by entry.
pub fn suppressed_screen_names() -> (names: Vec<&'static str>)
    ensures
        roster_view(names@) == suppressed_roster(),
{
    let names = vec![
        "dogedesigner",
        "farzyness",
        "kettlebelldan",
        "xfreeze",
        "wholemars",
        "sawyermerritt",
        "teslaownerssv",
    ];
    assert(roster_view(names@) == suppressed_roster());
    names
}

/// A screen name is suppressed when, normalized, it is on the list; a missing one never is.
pub open spec fn is_suppressed_name(screen_name: Option<Seq<char>>) -> bool {
    match screen_name {
        Some(name) => suppressed_roster().contains(normalize_handle(name)),
        None => false,
    }
}

/// A post is removed when its author or the author it reposts is suppressed.
pub open spec fn is_suppressed_candidate(c: PostCandidate) -> bool {
    is_suppressed_name(opt_chars(c.author_screen_name)) || is_suppressed_name(
        opt_chars(c.retweeted_screen_name),
    )
}

/// Removes posts authored by, or reposted from, an account on the suppression list.
///
/// Matching is on screen name. When that hydration is missing the candidate is kept: the list
/// fails open, so a degraded hydrator costs precision on this list rather than removing posts
/// it never matched.
pub struct SuppressedAuthorsFilter;

impl SuppressedAuthorsFilter {
    pub fn is_suppressed(screen_name: Option<&str>) -> (r: bool)
        ensures
            r == is_suppressed_name(
                match screen_name {
                    Some(s) => Some(s@),
                    None => None,
                },
            ),
    {
        match screen_name {
            Some(name) => {
                let normalized = normalize_handle_chars(&chars_of(name));
                roster_contains(&suppressed_screen_names(), &normalized)
            },
            None => false,
        }
    }

    pub fn should_remove(candidate: &PostCandidate) -> (r: bool)
        ensures
            r == is_suppressed_candidate(*candidate),
    {
        let author = match &candidate.author_screen_name {
            Some(s) => Some(s.as_str()),
            None => None,
        };
        let reposted = match &candidate.retweeted_screen_name {
            Some(s) => Some(s.as_str()),
            None => None,
        };
        Self::is_suppressed(author) || Self::is_suppressed(reposted)
    }

    /// Keeps the candidates that `should_remove` rejects not, removes the rest, in input order.
    pub fn filter(&self, _query: &ScoredPostsQuery, candidates: Vec<PostCandidate>) -> (result:
        FilterResult<PostCandidate>)
        ensures
            result.kept@ == select(
                candidates@,
                Seq::new(candidates@.len(), |i: int| is_suppressed_candidate(candidates@[i])),
                false,
            ),
            result.removed@ == select(
                candidates@,
                Seq::new(candidates@.len(), |i: int| is_suppressed_candidate(candidates@[i])),
                true,
            ),
    {
        let mut flags: Vec<bool> = Vec::new();
        let mut i: usize = 0;
        while i < candidates.len()
            invariant
                i <= candidates.len(),
                flags@ == Seq::new(i as nat, |k: int| is_suppressed_candidate(candidates@[k])),
            decreases candidates.len() - i,
        {
            flags.push(Self::should_remove(&candidates[i]));
            i += 1;
        }
        partition_by_flags(candidates, &flags)
    }
}

/// A post is removed exactly when its author's screen name or the reposted account's screen name,
/// normalized, is on the suppression list, each on its own whatever the other holds.
pub proof fn lemma_suppression_by_fields(c: PostCandidate)
    ensures
        is_suppressed_candidate(c) <==> ((c.author_screen_name matches Some(n)
            && suppressed_roster().contains(normalize_handle(n@))) || (c.retweeted_screen_name matches Some(
            n,
        ) && suppressed_roster().contains(normalize_handle(n@)))),
{
}

/// The list fails open: a post whose screen names were not hydrated is never removed.
pub proof fn lemma_unhydrated_is_kept(c: PostCandidate)
    requires
        c.author_screen_name is None,
        c.retweeted_screen_name is None,
    ensures
        !is_suppressed_candidate(c),
{
}

/// The suppression list holds exactly these 7 screen names.
pub proof fn lemma_suppressed_roster_entries()
    ensures
        suppressed_roster().len() == 7,
        suppressed_roster().contains("dogedesigner"@),
        suppressed_roster().contains("farzyness"@),
        suppressed_roster().contains("kettlebelldan"@),
        suppressed_roster().contains("xfreeze"@),
        suppressed_roster().contains("wholemars"@),
        suppressed_roster().contains("sawyermerritt"@),
        suppressed_roster().contains("teslaownerssv"@),
{
    let r = suppressed_roster();
    assert(r[0] == "dogedesigner"@);
    assert(r[1] == "farzyness"@);
    assert(r[2] == "kettlebelldan"@);
    assert(r[3] == "xfreeze"@);
    assert(r[4] == "wholemars"@);
    assert(r[5] == "sawyermerritt"@);
    assert(r[6] == "teslaownerssv"@);
}

} // verus!
