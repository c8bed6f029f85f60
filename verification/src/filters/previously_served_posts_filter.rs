//! Removal of posts already served in this session.

use vstd::prelude::*;
use crate::candidate::{
    id_set, partition_by_flags, related_post_ids, relates_to_any, relates_to_any_in, select, FilterResult,
    PostCandidate, ScoredPostsQuery,
};

verus! {

pub open spec fn served_flags(query: ScoredPostsQuery, cands: Seq<PostCandidate>) -> Seq<bool> {
    Seq::new(cands.len(), |i: int| relates_to_any(cands[i], query.served_ids@))
}

/// Removes every candidate that is or reposts a post already served, on every
/// request type.
pub struct PreviouslyServedPostsFilter;

impl PreviouslyServedPostsFilter {
    pub fn filter(&self, query: &ScoredPostsQuery, candidates: Vec<PostCandidate>) -> (result:
        FilterResult<PostCandidate>)
        ensures
            result.kept@ == select(candidates@, served_flags(*query, candidates@), false),
            result.removed@ == select(candidates@, served_flags(*query, candidates@), true),
    {
        let served_ids = id_set(&query.served_ids);
        let mut flags: Vec<bool> = Vec::new();
        let mut i: usize = 0;
        while i < candidates.len()
            invariant
                i <= candidates.len(),
                forall|id: u64| served_ids@.contains(id) <==> query.served_ids@.contains(id),
                flags@ == served_flags(*query, candidates@).take(i as int),
            decreases candidates.len() - i,
        {
            flags.push(relates_to_any_in(&candidates[i], &served_ids, Ghost(query.served_ids@)));
            assert(flags@ == served_flags(*query, candidates@).take(i + 1));
            i += 1;
        }
        assert(flags@ == served_flags(*query, candidates@));
        partition_by_flags(candidates, &flags)
    }
}

/// A candidate is removed exactly when its own id, or the id of the post it reposts, is among the
/// served ids.
pub proof fn lemma_served_by_fields(query: ScoredPostsQuery, cands: Seq<PostCandidate>, i: int)
    requires
        0 <= i < cands.len(),
    ensures
        served_flags(query, cands)[i] <==> (query.served_ids@.contains(cands[i].tweet_id) || (
        cands[i].retweeted_tweet_id matches Some(r) && query.served_ids@.contains(r))),
{
    let ids = related_post_ids(cands[i]);
    assert(ids[0] == cands[i].tweet_id);
    if let Some(r) = cands[i].retweeted_tweet_id {
        assert(ids[1] == r);
    }
}

} // verus!
