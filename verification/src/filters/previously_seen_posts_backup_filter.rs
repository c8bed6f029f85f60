//! Removal of posts the viewer has already been shown, once the impression history is known.

use vstd::prelude::*;
use crate::candidate::{
    id_set, lemma_select_agree, partition_by_flags, related_post_ids, relates_to_any, relates_to_any_in, select,
    FilterResult,
    PostCandidate, ScoredPostsQuery,
};

verus! {

pub open spec fn impressed_flags(query: ScoredPostsQuery, cands: Seq<PostCandidate>) -> Seq<bool> {
    Seq::new(cands.len(), |i: int| relates_to_any(cands[i], query.impressed_post_ids@))
}

/// Removes every candidate that is or reposts a post the viewer was already shown.
/// With no impression history every candidate is kept.
pub struct PreviouslySeenPostsBackupFilter;

impl PreviouslySeenPostsBackupFilter {
    pub fn filter(&self, query: &ScoredPostsQuery, candidates: Vec<PostCandidate>) -> (result:
        FilterResult<PostCandidate>)
        ensures
            result.kept@ == select(candidates@, impressed_flags(*query, candidates@), false),
            result.removed@ == select(candidates@, impressed_flags(*query, candidates@), true),
            query.impressed_post_ids@.len() == 0 ==> result.kept@ == candidates@,
    {
        if query.impressed_post_ids.len() == 0 {
            proof {
                lemma_nothing_impressed_keeps_all(*query, candidates@);
            }
            return FilterResult { kept: candidates, removed: Vec::new() };
        }
        let impressed_post_ids = id_set(&query.impressed_post_ids);
        let mut flags: Vec<bool> = Vec::new();
        let mut i: usize = 0;
        while i < candidates.len()
            invariant
                i <= candidates.len(),
                forall|id: u64| impressed_post_ids@.contains(id) <==> query.impressed_post_ids@.contains(id),
                flags@ == impressed_flags(*query, candidates@).take(i as int),
            decreases candidates.len() - i,
        {
            flags.push(
                relates_to_any_in(&candidates[i], &impressed_post_ids, Ghost(query.impressed_post_ids@)),
            );
            assert(flags@ == impressed_flags(*query, candidates@).take(i + 1));
            i += 1;
        }
        assert(flags@ == impressed_flags(*query, candidates@));
        partition_by_flags(candidates, &flags)
    }
}

proof fn lemma_nothing_impressed_keeps_all(query: ScoredPostsQuery, cands: Seq<PostCandidate>)
    requires
        query.impressed_post_ids@.len() == 0,
    ensures
        select(cands, impressed_flags(query, cands), false) == cands,
        select(cands, impressed_flags(query, cands), true) == Seq::<PostCandidate>::empty(),
    decreases cands.len(),
{
    if cands.len() > 0 {
        let prefix = cands.drop_last();
        lemma_nothing_impressed_keeps_all(query, prefix);
        lemma_select_agree(prefix, impressed_flags(query, cands), impressed_flags(query, prefix), false);
        lemma_select_agree(prefix, impressed_flags(query, cands), impressed_flags(query, prefix), true);
        assert(!relates_to_any(cands.last(), query.impressed_post_ids@));
    }
}

/// A candidate is removed exactly when its own id, or the id of the post it reposts, is among the
/// posts the viewer was shown.
pub proof fn lemma_impressed_by_fields(query: ScoredPostsQuery, cands: Seq<PostCandidate>, i: int)
    requires
        0 <= i < cands.len(),
    ensures
        impressed_flags(query, cands)[i] <==> (query.impressed_post_ids@.contains(cands[i].tweet_id) || (
        cands[i].retweeted_tweet_id matches Some(r) && query.impressed_post_ids@.contains(r))),
{
    let ids = related_post_ids(cands[i]);
    assert(ids[0] == cands[i].tweet_id);
    if let Some(r) = cands[i].retweeted_tweet_id {
        assert(ids[1] == r);
    }
}

} // verus!
