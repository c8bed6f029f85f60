//! The post candidate and the query that the filters and scorers read, and the result a filter
//! hands back.

use vstd::prelude::*;
use std::collections::HashSet;

verus! {

/// A post that the pipeline may serve, with the hydrated fields that the filters and scorers
/// read. A field left `None` was not hydrated.
#[derive(Debug, Clone, Default, PartialEq)]
pub struct PostCandidate {
    pub tweet_id: u64,
    pub author_id: u64,
    pub retweeted_tweet_id: Option<u64>,
    pub retweeted_user_id: Option<u64>,
    pub in_network: Option<bool>,
    pub tweet_text: String,
    pub author_screen_name: Option<String>,
    pub retweeted_screen_name: Option<String>,
    pub author_affiliate_handle: Option<String>,
    pub retweeted_affiliate_handle: Option<String>,
    pub min_video_duration_ms: Option<i32>,
    pub quoted_video_duration_ms: Option<i32>,
    pub filtered_topic_ids: Option<Vec<i64>>,
    pub unfiltered_topic_ids: Option<Vec<i64>>,
}

/// The request a candidate batch is scored and filtered for.
#[derive(Debug, Clone, Default, PartialEq)]
pub struct ScoredPostsQuery {
    /// Posts already served in this session.
    pub served_ids: Vec<u64>,
    /// Posts the viewer has already been shown, from the impression history.
    pub impressed_post_ids: Vec<u64>,
    pub is_bottom_request: bool,
    pub is_top_request: bool,
}

/// A filter's answer: the candidates it keeps and those it removes, each in input order.
#[derive(Debug)]
pub struct FilterResult<T> {
    pub kept: Vec<T>,
    pub removed: Vec<T>,
}

/// An optional string, as characters.
pub open spec fn opt_chars(o: Option<String>) -> Option<Seq<char>> {
    match o {
        Some(s) => Some(s@),
        None => None,
    }
}

/// The author a post's content belongs to: the original author of a repost, else the author.
pub open spec fn original_author_id(c: PostCandidate) -> u64 {
    match c.retweeted_user_id {
        Some(id) => id,
        None => c.author_id,
    }
}

/// The post itself and the post it reposts: a repost carries the same content.
pub open spec fn related_post_ids(c: PostCandidate) -> Seq<u64> {
    seq![c.tweet_id] + match c.retweeted_tweet_id {
        Some(id) => seq![id],
        None => Seq::<u64>::empty(),
    }
}

/// A repost's content belongs to the account it reposts: the original author is the reposted
/// account when the post is a repost, else its author.
pub proof fn lemma_original_author_by_fields(c: PostCandidate)
    ensures
        c.retweeted_user_id matches Some(r) ==> original_author_id(c) == r,
        c.retweeted_user_id is None ==> original_author_id(c) == c.author_id,
{
}

impl PostCandidate {
    /// The author a post's content belongs to: the original author of a repost, else the author.
    pub fn get_original_author_id(&self) -> (id: u64)
        ensures
            id == original_author_id(*self),
    {
        match self.retweeted_user_id {
            Some(id) => id,
            None => self.author_id,
        }
    }
}

/// The ids of the post and of the post it reposts.
pub fn get_related_post_ids(c: &PostCandidate) -> (ids: Vec<u64>)
    ensures
        ids@ == related_post_ids(*c),
{
    let mut ids: Vec<u64> = Vec::new();
    ids.push(c.tweet_id);
    if let Some(id) = c.retweeted_tweet_id {
        ids.push(id);
    }
    ids
}

/// The elements of `s` whose flag equals `want`, in order.
pub open spec fn select<T>(s: Seq<T>, flags: Seq<bool>, want: bool) -> Seq<T>
    decreases s.len(),
{
    if s.len() == 0 {
        Seq::<T>::empty()
    } else {
        let prev = select(s.drop_last(), flags, want);
        if flags[s.len() - 1] == want {
            prev.push(s.last())
        } else {
            prev
        }
    }
}

/// Splitting by flags loses and invents nothing: the two parts together hold each element of
/// `s` exactly as often as `s` does.
pub proof fn lemma_select_partitions<T>(s: Seq<T>, flags: Seq<bool>)
    ensures
        select(s, flags, false).len() + select(s, flags, true).len() == s.len(),
        select(s, flags, false).to_multiset().add(select(s, flags, true).to_multiset())
            == s.to_multiset(),
    decreases s.len(),
{
    broadcast use vstd::seq_lib::group_to_multiset_ensures;

    if s.len() == 0 {
        assert(select(s, flags, false) == Seq::<T>::empty());
        assert(select(s, flags, true) == Seq::<T>::empty());
        assert(s.to_multiset() =~= vstd::multiset::Multiset::empty());
    } else {
        lemma_select_partitions(s.drop_last(), flags);
        assert(s == s.drop_last().push(s.last()));
        assert(s.to_multiset() == s.drop_last().to_multiset().insert(s.last()));
        if flags[s.len() - 1] {
            assert(select(s, flags, true) == select(s.drop_last(), flags, true).push(s.last()));
        } else {
            assert(select(s, flags, false) == select(s.drop_last(), flags, false).push(s.last()));
        }
    }
}

/// Only the flags of the elements matter.
pub proof fn lemma_select_agree<T>(s: Seq<T>, f1: Seq<bool>, f2: Seq<bool>, want: bool)
    requires
        forall|i: int| 0 <= i < s.len() ==> f1[i] == f2[i],
    ensures
        select(s, f1, want) == select(s, f2, want),
    decreases s.len(),
{
    if s.len() > 0 {
        lemma_select_agree(s.drop_last(), f1, f2, want);
    }
}

/// Moves each candidate into `kept` or `removed` by its flag, keeping input order.
pub fn partition_by_flags<T>(items: Vec<T>, flags: &Vec<bool>) -> (result: FilterResult<T>)
    requires
        flags.len() == items.len(),
    ensures
        result.kept@ == select(items@, flags@, false),
        result.removed@ == select(items@, flags@, true),
{
    let ghost all = items@;
    let mut kept: Vec<T> = Vec::new();
    let mut removed: Vec<T> = Vec::new();
    let mut i: usize = 0;
    for item in it: items.into_iter()
        invariant
            it.seq() == all,
            flags.len() == all.len(),
            i == it.index(),
            kept@ == select(all.take(i as int), flags@, false),
            removed@ == select(all.take(i as int), flags@, true),
    {
        assert(all.take(i + 1).drop_last() == all.take(i as int));
        assert(all.take(i + 1).last() == item);
        if flags[i] {
            removed.push(item);
        } else {
            kept.push(item);
        }
        i += 1;
    }
    assert(all.take(all.len() as int) == all);
    FilterResult { kept, removed }
}


/// Some post related to the candidate is among `ids`.
pub open spec fn relates_to_any(c: PostCandidate, ids: Seq<u64>) -> bool {
    exists|k: int| 0 <= k < related_post_ids(c).len() && ids.contains(#[trigger] related_post_ids(c)[k])
}

/// The set of the given ids, built once so that each lookup is constant time.
pub fn id_set(ids: &Vec<u64>) -> (set: HashSet<u64>)
    ensures
        forall|id: u64| set@.contains(id) <==> ids@.contains(id),
{
    broadcast use vstd::std_specs::hash::group_hash_axioms;

    let mut set: HashSet<u64> = HashSet::new();
    let mut i: usize = 0;
    while i < ids.len()
        invariant
            i <= ids.len(),
            forall|id: u64| set@.contains(id) <==> ids@.take(i as int).contains(id),
        decreases ids.len() - i,
    {
        set.insert(ids[i]);
        let ghost before = ids@.take(i as int);
        let ghost after = ids@.take(i + 1);
        assert(after == before.push(ids@[i as int]));
        assert forall|id: u64| set@.contains(id) <==> after.contains(id) by {
            if before.contains(id) {
                let k = choose|k: int| 0 <= k < before.len() && #[trigger] before[k] == id;
                assert(after[k] == id);
            }
            if id == ids@[i as int] {
                assert(after[i as int] == id);
            }
            if after.contains(id) {
                let k = choose|k: int| 0 <= k < after.len() && #[trigger] after[k] == id;
                if k < i {
                    assert(before[k] == id);
                }
            }
        }
        i += 1;
    }
    assert(ids@.take(ids.len() as int) == ids@);
    set
}

/// Whether some post related to the candidate is in `set`.
pub fn relates_to_any_in(c: &PostCandidate, set: &HashSet<u64>, ids: Ghost<Seq<u64>>) -> (r: bool)
    requires
        forall|id: u64| set@.contains(id) <==> ids@.contains(id),
    ensures
        r == relates_to_any(*c, ids@),
{
    broadcast use vstd::std_specs::hash::group_hash_axioms;

    let related = get_related_post_ids(c);
    let mut k: usize = 0;
    while k < related.len()
        invariant
            k <= related.len(),
            related@ == related_post_ids(*c),
            forall|id: u64| set@.contains(id) <==> ids@.contains(id),
            forall|m: int| 0 <= m < k ==> !ids@.contains(#[trigger] related_post_ids(*c)[m]),
        decreases related.len() - k,
    {
        if set.contains(&related[k]) {
            return true;
        }
        k += 1;
    }
    false
}

} // verus!
