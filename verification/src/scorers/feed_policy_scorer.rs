//! The feed-policy weight of a candidate, exactly: its network membership, a boost for hard news,
//! and a derank each for an author overexposed on one topic within the batch, for an account
//! badged by a listed organization, for an account on a government roster, and for engagement
//! bait or clickbait.

use vstd::prelude::*;
use std::collections::HashMap;
use crate::candidate::{original_author_id, PostCandidate};
use crate::filters::feed_quality_filter::{
    clickbait_phrases, engagement_bait_phrases, has_phrase, FeedQualityFilter,
};
use crate::scorers::affiliated_authors::{affiliation, is_affiliated};
use crate::scorers::government_authors::{
    foreign_government_roster, handles_of, is_foreign_government, is_trump_administration, on_roster,
    trump_administration_roster,
};
use crate::text::normalize_handle;
use crate::text::{ascii_lowercase, chars_of, eq_ignore_ascii_case, eq_ignore_ascii_case_chars, pieces_view, split_chars, split_segments, Separator};

verus! {

/// An author's share of topic mentions is judged only with at least this many posts in the batch.
pub const MIN_AUTHOR_POSTS_FOR_TOPIC_RATIO: usize = 4;

/// Whether a candidate comes from an account the viewer follows.
#[derive(Debug, Clone, Copy, PartialEq, Eq, Structural)]
pub enum NetworkMembership {
    InNetwork,
    OutOfNetwork,
    /// Network hydration is missing.
    Unknown,
}

/// The decisions the policy weight of a candidate is made of.
#[derive(Debug, Clone, Copy, PartialEq, Eq, Structural)]
pub struct PolicyFactors {
    pub network: NetworkMembership,
    /// The post is on a hard-news topic: boosted.
    pub hard_news: bool,
    /// Its author is overexposed on one topic within the batch: deranked.
    pub overexposed_topic: bool,
    /// It carries the affiliate badge of a listed organization: deranked.
    pub affiliated: bool,
    /// One of its handles is on a government roster: deranked.
    pub government: bool,
    /// Its text is engagement bait or clickbait: deranked.
    pub low_quality_text: bool,
}

/// A policy weight is `numerator / WEIGHT_DENOMINATOR`: the in-network weight 2, the
/// out-of-network weight 1/10 and the unknown-network weight 0, times 3/2 for hard news, times
/// 1/2 for each derank.
pub const WEIGHT_DENOMINATOR: u64 = 320;

/// The network weight, in tenths.
pub open spec fn network_tenths(network: NetworkMembership) -> nat {
    match network {
        NetworkMembership::InNetwork => 20,
        NetworkMembership::OutOfNetwork => 1,
        NetworkMembership::Unknown => 0,
    }
}

/// Doubles the weight unless the derank applies; the denominator holds one halving per derank.
pub open spec fn unless_deranked(w: nat, derank: bool) -> nat {
    if derank {
        w
    } else {
        2 * w
    }
}

/// The numerator of the policy weight over `WEIGHT_DENOMINATOR`.
pub open spec fn weight_numerator(f: PolicyFactors) -> nat {
    let network = network_tenths(f.network);
    let news: nat = if f.hard_news {
        3 * network
    } else {
        2 * network
    };
    unless_deranked(
        unless_deranked(
            unless_deranked(unless_deranked(news, f.overexposed_topic), f.affiliated),
            f.government,
        ),
        f.low_quality_text,
    )
}

/// On a government roster: the current administration's or a foreign government's.
pub open spec fn on_government_roster(c: PostCandidate) -> bool {
    on_roster(c, trump_administration_roster()) || on_roster(c, foreign_government_roster())
}

/// Engagement bait or clickbait.
pub open spec fn is_low_quality_text(text: Seq<char>) -> bool {
    has_phrase(text, engagement_bait_phrases()) || has_phrase(text, clickbait_phrases())
}

/// The factors of a candidate's policy weight, given its original author's counts.
pub open spec fn factors_of(c: PostCandidate, counts: Option<(nat, nat)>, hard_news_ids: Seq<i64>) -> PolicyFactors {
    PolicyFactors {
        network: membership_of(c.in_network),
        hard_news: hard_news(c, hard_news_ids),
        overexposed_topic: overexposed(counts),
        affiliated: affiliation(c) is Some,
        government: on_government_roster(c),
        low_quality_text: is_low_quality_text(c.tweet_text@),
    }
}

/// How often an author appears in the batch and how many of those posts mention the topic.
#[derive(Debug, Clone, Copy, PartialEq, Eq, Structural)]
pub struct MentionCounts {
    pub post_count: usize,
    pub mention_count: usize,
}

pub open spec fn membership_of(in_network: Option<bool>) -> NetworkMembership {
    match in_network {
        Some(true) => NetworkMembership::InNetwork,
        Some(false) => NetworkMembership::OutOfNetwork,
        None => NetworkMembership::Unknown,
    }
}

/// Some id of the list is a hard-news topic.
pub open spec fn has_hard_news_topic(topic_ids: Option<Seq<i64>>, hard_news_ids: Seq<i64>) -> bool {
    match topic_ids {
        Some(ids) => any_listed(ids, hard_news_ids),
        None => false,
    }
}

/// Some id of `ids` is in `listed`.
pub open spec fn any_listed(ids: Seq<i64>, listed: Seq<i64>) -> bool {
    exists|k: int| 0 <= k < ids.len() && listed.contains(#[trigger] ids[k])
}

pub open spec fn opt_ids(o: Option<Vec<i64>>) -> Option<Seq<i64>> {
    match o {
        Some(v) => Some(v@),
        None => None,
    }
}

pub open spec fn hard_news(c: PostCandidate, hard_news_ids: Seq<i64>) -> bool {
    has_hard_news_topic(opt_ids(c.filtered_topic_ids), hard_news_ids) || has_hard_news_topic(
        opt_ids(c.unfiltered_topic_ids),
        hard_news_ids,
    )
}

/// Some alphanumeric run of the text is `elon` or `elonmusk`, ignoring ASCII case.
pub open spec fn mentions_elon(text: Seq<char>) -> bool {
    names_elon(split_segments(text, Separator::NonAlphanumeric))
}

/// One of the tokens is `elon` or `elonmusk`, ignoring ASCII case.
pub open spec fn names_elon(tokens: Seq<Seq<char>>) -> bool {
    exists|k: int|
        0 <= k < tokens.len() && (eq_ignore_ascii_case(#[trigger] tokens[k], "elon"@)
            || eq_ignore_ascii_case(tokens[k], "elonmusk"@))
}

/// For each original author of the batch: how many of its posts the batch holds, and how many of
/// those mention the topic.
pub open spec fn author_counts(cands: Seq<PostCandidate>) -> Map<u64, (nat, nat)>
    decreases cands.len(),
{
    if cands.len() == 0 {
        Map::empty()
    } else {
        let prev = author_counts(cands.drop_last());
        let c = cands.last();
        let a = original_author_id(c);
        let before = if prev.contains_key(a) {
            prev[a]
        } else {
            (0nat, 0nat)
        };
        let mention: nat = if mentions_elon(c.tweet_text@) {
            1
        } else {
            0
        };
        prev.insert(a, ((before.0 + 1) as nat, (before.1 + mention) as nat))
    }
}

/// More than a quarter of the author's posts mention the topic, judged on at least
/// `MIN_AUTHOR_POSTS_FOR_TOPIC_RATIO` posts.
pub open spec fn overexposed(counts: Option<(nat, nat)>) -> bool {
    match counts {
        Some((posts, mentions)) => posts >= MIN_AUTHOR_POSTS_FOR_TOPIC_RATIO && 4 * mentions > posts,
        None => false,
    }
}

pub open spec fn counts_view(m: Option<MentionCounts>) -> Option<(nat, nat)> {
    match m {
        Some(c) => Some((c.post_count as nat, c.mention_count as nat)),
        None => None,
    }
}

/// No author has more mentions than posts, nor more posts than the batch.
pub proof fn lemma_author_counts_bounded(cands: Seq<PostCandidate>)
    ensures
        forall|a: u64| #[trigger] author_counts(cands).contains_key(a) ==> author_counts(cands)[a].1
            <= author_counts(cands)[a].0 <= cands.len(),
    decreases cands.len(),
{
    if cands.len() > 0 {
        let prev = cands.drop_last();
        lemma_author_counts_bounded(prev);
        let author = original_author_id(cands.last());
        assert forall|a: u64| #[trigger] author_counts(cands).contains_key(a) implies author_counts(cands)[a].1
            <= author_counts(cands)[a].0 <= cands.len() by {
            if a != author {
                assert(author_counts(prev).contains_key(a));
            } else if author_counts(prev).contains_key(a) {
                assert(author_counts(prev)[a].1 <= author_counts(prev)[a].0 <= prev.len());
            }
        }
    }
}

/// The counts are counts: an author appears in the map exactly when some post of the batch is
/// originally theirs, and then its post count is the number of the batch's posts originally by
/// that author, and its mention count the number of those that mention the topic.
pub proof fn lemma_author_counts_count(cands: Seq<PostCandidate>, a: u64)
    ensures
        author_counts(cands).contains_key(a) <==> exists|i: int|
            0 <= i < cands.len() && original_author_id(#[trigger] cands[i]) == a,
        author_counts(cands).contains_key(a) ==> author_counts(cands)[a].0 == cands.filter(
            |c: PostCandidate| original_author_id(c) == a,
        ).len(),
        author_counts(cands).contains_key(a) ==> author_counts(cands)[a].1 == cands.filter(
            |c: PostCandidate| original_author_id(c) == a && mentions_elon(c.tweet_text@),
        ).len(),
    decreases cands.len(),
{
    reveal(Seq::filter);
    if cands.len() > 0 {
        let rest = cands.drop_last();
        lemma_author_counts_count(rest, a);
        if exists|i: int| 0 <= i < rest.len() && original_author_id(#[trigger] rest[i]) == a {
            let i = choose|i: int| 0 <= i < rest.len() && original_author_id(#[trigger] rest[i]) == a;
            assert(cands[i] == rest[i]);
        }
        if exists|i: int| 0 <= i < cands.len() && original_author_id(#[trigger] cands[i]) == a {
            let i = choose|i: int| 0 <= i < cands.len() && original_author_id(#[trigger] cands[i]) == a;
            if i < rest.len() {
                assert(rest[i] == cands[i]);
            }
        }
        if !author_counts(rest).contains_key(a) {
            assert(rest.filter(|c: PostCandidate| original_author_id(c) == a).len() == 0) by {
                let f = rest.filter(|c: PostCandidate| original_author_id(c) == a);
                if f.len() > 0 {
                    rest.lemma_filter_pred(|c: PostCandidate| original_author_id(c) == a, 0);
                    assert(f.contains(f[0]));
                    rest.lemma_filter_contains_rev(|c: PostCandidate| original_author_id(c) == a, f[0]);
                }
            }
            assert(rest.filter(|c: PostCandidate| original_author_id(c) == a && mentions_elon(c.tweet_text@)).len()
                == 0) by {
                let f = rest.filter(|c: PostCandidate| original_author_id(c) == a && mentions_elon(c.tweet_text@));
                if f.len() > 0 {
                    rest.lemma_filter_pred(|c: PostCandidate| original_author_id(c) == a && mentions_elon(c.tweet_text@), 0);
                    assert(f.contains(f[0]));
                    rest.lemma_filter_contains_rev(|c: PostCandidate| original_author_id(c) == a && mentions_elon(c.tweet_text@), f[0]);
                }
            }
        }
    }
}

/// A token names the topic exactly when, ASCII-lowercased, it is `elon` or `elonmusk`.
pub proof fn lemma_elon_tokens(tokens: Seq<Seq<char>>)
    ensures
        names_elon(tokens) <==> exists|k: int|
            0 <= k < tokens.len() && (ascii_lowercase(#[trigger] tokens[k]) == "elon"@ || ascii_lowercase(
                tokens[k],
            ) == "elonmusk"@),
{
    reveal_strlit("elon");
    reveal_strlit("elonmusk");
    assert(ascii_lowercase("elon"@) =~= "elon"@);
    assert(ascii_lowercase("elonmusk"@) =~= "elonmusk"@);
}

/// Scores candidates by feed policy. The weight itself is a product of factors that this library
/// decides one by one: see `policy_factors`.
pub struct FeedPolicyScorer;

impl FeedPolicyScorer {
    pub fn network_membership(in_network: Option<bool>) -> (r: NetworkMembership)
        ensures
            r == membership_of(in_network),
    {
        match in_network {
            Some(true) => NetworkMembership::InNetwork,
            Some(false) => NetworkMembership::OutOfNetwork,
            None => NetworkMembership::Unknown,
        }
    }

    pub fn contains_hard_news_topic(topic_ids: Option<&Vec<i64>>, hard_news_topic_ids: &Vec<i64>) -> (r:
        bool)
        ensures
            r == has_hard_news_topic(
                match topic_ids {
                    Some(v) => Some(v@),
                    None => None,
                },
                hard_news_topic_ids@,
            ),
    {
        match topic_ids {
            None => false,
            Some(ids) => {
                let mut k: usize = 0;
                while k < ids.len()
                    invariant
                        topic_ids == Some(ids),
                        k <= ids.len(),
                        forall|m: int| 0 <= m < k ==> !hard_news_topic_ids@.contains(#[trigger] ids@[m]),
                    decreases ids.len() - k,
                {
                    let mut j: usize = 0;
                    while j < hard_news_topic_ids.len()
                        invariant
                            topic_ids == Some(ids),
                            k < ids.len(),
                            j <= hard_news_topic_ids.len(),
                            forall|m: int| 0 <= m < j ==> #[trigger] hard_news_topic_ids@[m] != ids@[k as int],
                        decreases hard_news_topic_ids.len() - j,
                    {
                        if hard_news_topic_ids[j] == ids[k] {
                            assert(hard_news_topic_ids@.contains(ids@[k as int]));
                            return true;
                        }
                        j += 1;
                    }
                    k += 1;
                }
                false
            },
        }
    }

    pub fn is_hard_news(candidate: &PostCandidate, hard_news_topic_ids: &Vec<i64>) -> (r: bool)
        ensures
            r == hard_news(*candidate, hard_news_topic_ids@),
    {
        let filtered = match &candidate.filtered_topic_ids {
            Some(v) => Some(v),
            None => None,
        };
        let unfiltered = match &candidate.unfiltered_topic_ids {
            Some(v) => Some(v),
            None => None,
        };
        Self::contains_hard_news_topic(filtered, hard_news_topic_ids)
            || Self::contains_hard_news_topic(unfiltered, hard_news_topic_ids)
    }

    pub fn mentions_elon_musk(text: &str) -> (r: bool)
        ensures
            r == mentions_elon(text@),
    {
        Self::any_token_names_elon(&split_chars(&chars_of(text), Separator::NonAlphanumeric))
    }

    /// Whether one of the tokens is `elon` or `elonmusk`, ignoring ASCII case.
    pub fn any_token_names_elon(tokens: &Vec<Vec<char>>) -> (r: bool)
        ensures
            r == names_elon(pieces_view(tokens@)),
    {
        let ghost segs = pieces_view(tokens@);
        let elon = chars_of("elon");
        let elonmusk = chars_of("elonmusk");
        let mut k: usize = 0;
        while k < tokens.len()
            invariant
                k <= tokens.len(),
                segs == pieces_view(tokens@),
                elon@ == "elon"@,
                elonmusk@ == "elonmusk"@,
                forall|m: int|
                    0 <= m < k ==> !(eq_ignore_ascii_case(#[trigger] segs[m], "elon"@)
                        || eq_ignore_ascii_case(segs[m], "elonmusk"@)),
            decreases tokens.len() - k,
        {
            assert(segs[k as int] == tokens@[k as int]@);
            if eq_ignore_ascii_case_chars(&tokens[k], &elon) || eq_ignore_ascii_case_chars(&tokens[k], &elonmusk) {
                return true;
            }
            k += 1;
        }
        false
    }

    /// For each original author of the batch, its post count and topic-mention count. The public
    /// Home Mixer does not expose author timelines, so the batch stands in for them.
    pub fn author_elon_mention_counts(candidates: &Vec<PostCandidate>) -> (counts: HashMap<u64, MentionCounts>)
        ensures
            forall|a: u64| #[trigger] counts@.contains_key(a) <==> author_counts(candidates@).contains_key(a),
            forall|a: u64| #[trigger] counts@.contains_key(a) ==> counts@[a].post_count == author_counts(candidates@)[a].0
                && counts@[a].mention_count == author_counts(candidates@)[a].1,
    {
        broadcast use vstd::std_specs::hash::group_hash_axioms;

        let ghost cands = candidates@;
        let mut counts: HashMap<u64, MentionCounts> = HashMap::new();
        let mut i: usize = 0;
        while i < candidates.len()
            invariant
                cands == candidates@,
                i <= candidates.len(),
                forall|a: u64| #[trigger] counts@.contains_key(a) <==> author_counts(cands.take(i as int)).contains_key(a),
                forall|a: u64| #[trigger] counts@.contains_key(a) ==> counts@[a].post_count == author_counts(cands.take(i as int))[a].0
                    && counts@[a].mention_count == author_counts(cands.take(i as int))[a].1,
            decreases candidates.len() - i,
        {
            let candidate = &candidates[i];
            let author: u64 = candidate.get_original_author_id();
            let mentions = Self::mentions_elon_musk(candidate.tweet_text.as_str());
            proof {
                assert(cands.take(i + 1).drop_last() == cands.take(i as int));
                assert(cands.take(i + 1).last() == cands[i as int]);
                lemma_author_counts_bounded(cands.take(i as int));
            }
            let before = match counts.get(&author) {
                Some(c) => *c,
                None => MentionCounts { post_count: 0, mention_count: 0 },
            };
            let updated = MentionCounts {
                post_count: before.post_count + 1,
                mention_count: if mentions {
                    before.mention_count + 1
                } else {
                    before.mention_count
                },
            };
            counts.insert(author, updated);
            i += 1;
        }
        assert(cands.take(cands.len() as int) == cands);
        counts
    }

    /// More than a quarter of the author's posts in the batch mention the topic, and the batch
    /// holds at least `MIN_AUTHOR_POSTS_FOR_TOPIC_RATIO` of them.
    pub fn is_overexposed(counts: Option<MentionCounts>) -> (r: bool)
        ensures
            r == overexposed(counts_view(counts)),
    {
        match counts {
            Some(c) => c.post_count >= MIN_AUTHOR_POSTS_FOR_TOPIC_RATIO && c.mention_count > c.post_count
                / 4,
            None => false,
        }
    }

    /// The batch holds enough of the author's posts for its share of topic mentions to count.
    pub fn has_enough_posts(counts: &MentionCounts) -> (r: bool)
        ensures
            r == (counts.post_count >= MIN_AUTHOR_POSTS_FOR_TOPIC_RATIO),
    {
        counts.post_count >= MIN_AUTHOR_POSTS_FOR_TOPIC_RATIO
    }

    /// The factors of a candidate's policy weight, given its original author's counts.
    pub fn policy_factors(
        candidate: &PostCandidate,
        author_counts: Option<MentionCounts>,
        hard_news_topic_ids: &Vec<i64>,
    ) -> (r: PolicyFactors)
        ensures
            r == factors_of(*candidate, counts_view(author_counts), hard_news_topic_ids@),
    {
        PolicyFactors {
            network: Self::network_membership(candidate.in_network),
            hard_news: Self::is_hard_news(candidate, hard_news_topic_ids),
            overexposed_topic: Self::is_overexposed(author_counts),
            affiliated: is_affiliated(candidate),
            government: is_trump_administration(candidate) || is_foreign_government(candidate),
            low_quality_text: FeedQualityFilter::is_engagement_bait(candidate.tweet_text.as_str())
                || FeedQualityFilter::is_clickbait(candidate.tweet_text.as_str()),
        }
    }

    /// The policy weight of the factors, as the numerator over `WEIGHT_DENOMINATOR`.
    pub fn policy_weight_numerator(factors: &PolicyFactors) -> (n: u64)
        ensures
            n == weight_numerator(*factors),
    {
        let network: u64 = match factors.network {
            NetworkMembership::InNetwork => 20,
            NetworkMembership::OutOfNetwork => 1,
            NetworkMembership::Unknown => 0,
        };
        let mut n: u64 = if factors.hard_news {
            3 * network
        } else {
            2 * network
        };
        if !factors.overexposed_topic {
            n = 2 * n;
        }
        if !factors.affiliated {
            n = 2 * n;
        }
        if !factors.government {
            n = 2 * n;
        }
        if !factors.low_quality_text {
            n = 2 * n;
        }
        n
    }

    /// The policy weight of a candidate, as the numerator over `WEIGHT_DENOMINATOR`.
    pub fn policy_weight(
        candidate: &PostCandidate,
        author_counts: Option<MentionCounts>,
        hard_news_topic_ids: &Vec<i64>,
    ) -> (n: u64)
        ensures
            n == weight_numerator(factors_of(*candidate, counts_view(author_counts), hard_news_topic_ids@)),
    {
        Self::policy_weight_numerator(&Self::policy_factors(candidate, author_counts, hard_news_topic_ids))
    }
}

/// Each derank halves the weight, whatever the other factors; a post of known network weighs
/// more than nothing.
pub proof fn lemma_each_derank_halves_weight(f: PolicyFactors)
    ensures
        2 * weight_numerator((PolicyFactors { overexposed_topic: true, ..f })) == weight_numerator(
            (PolicyFactors { overexposed_topic: false, ..f }),
        ),
        2 * weight_numerator((PolicyFactors { affiliated: true, ..f })) == weight_numerator(
            (PolicyFactors { affiliated: false, ..f }),
        ),
        2 * weight_numerator((PolicyFactors { government: true, ..f })) == weight_numerator(
            (PolicyFactors { government: false, ..f }),
        ),
        2 * weight_numerator((PolicyFactors { low_quality_text: true, ..f })) == weight_numerator(
            (PolicyFactors { low_quality_text: false, ..f }),
        ),
        f.network != NetworkMembership::Unknown ==> weight_numerator(f) > 0,
{
}

/// A post that draws every derank another post draws, and one more, weighs strictly less when
/// the two agree on network and hard news and the network is known.
pub proof fn lemma_more_deranks_weigh_less(f1: PolicyFactors, f2: PolicyFactors)
    requires
        f1.network == f2.network,
        f1.network != NetworkMembership::Unknown,
        f1.hard_news == f2.hard_news,
        f2.overexposed_topic ==> f1.overexposed_topic,
        f2.affiliated ==> f1.affiliated,
        f2.government ==> f1.government,
        f2.low_quality_text ==> f1.low_quality_text,
        (f1.overexposed_topic && !f2.overexposed_topic) || (f1.affiliated && !f2.affiliated) || (
        f1.government && !f2.government) || (f1.low_quality_text && !f2.low_quality_text),
    ensures
        weight_numerator(f1) < weight_numerator(f2),
{
}

/// The feed policy deranks accounts badged by a listed organization: a post that carries such a
/// badge weighs less than the same post without any badge.
pub proof fn lemma_listed_badge_deranks(
    badged: PostCandidate,
    plain: PostCandidate,
    counts: Option<(nat, nat)>,
    hard_news_ids: Seq<i64>,
)
    requires
        badged == (PostCandidate { author_affiliate_handle: badged.author_affiliate_handle, ..plain }),
        plain.author_affiliate_handle is None,
        plain.retweeted_affiliate_handle is None,
        affiliation(badged) is Some,
        plain.in_network is Some,
    ensures
        weight_numerator(factors_of(badged, counts, hard_news_ids)) < weight_numerator(
            factors_of(plain, counts, hard_news_ids),
        ),
{
    assert forall|roster: Seq<Seq<char>>| on_roster(plain, roster) implies on_roster(badged, roster) by {
        let k = choose|k: int|
            0 <= k < handles_of(plain).len() && roster.contains(normalize_handle(#[trigger] handles_of(plain)[k]));
        assert(handles_of(badged)[k] == handles_of(plain)[k]);
    }
    lemma_more_deranks_weigh_less(factors_of(badged, counts, hard_news_ids), factors_of(plain, counts, hard_news_ids));
}

/// The feed policy deranks the accounts on the government rosters: a post whose author is on a
/// roster weighs less than the same post with its author's screen name unhydrated, when that post
/// is on no roster.
pub proof fn lemma_government_author_deranks(
    listed: PostCandidate,
    plain: PostCandidate,
    counts: Option<(nat, nat)>,
    hard_news_ids: Seq<i64>,
)
    requires
        listed == (PostCandidate { author_screen_name: listed.author_screen_name, ..plain }),
        on_government_roster(listed),
        !on_government_roster(plain),
        plain.in_network is Some,
    ensures
        weight_numerator(factors_of(listed, counts, hard_news_ids)) < weight_numerator(
            factors_of(plain, counts, hard_news_ids),
        ),
{
    lemma_more_deranks_weigh_less(factors_of(listed, counts, hard_news_ids), factors_of(plain, counts, hard_news_ids));
}

/// The feed policy demotes engagement bait and clickbait: a post with such text weighs less than
/// the same post with other text that is neither.
pub proof fn lemma_low_quality_text_deranks(
    bait: PostCandidate,
    plain: PostCandidate,
    counts: Option<(nat, nat)>,
    hard_news_ids: Seq<i64>,
)
    requires
        bait == (PostCandidate { tweet_text: bait.tweet_text, ..plain }),
        is_low_quality_text(bait.tweet_text@),
        !is_low_quality_text(plain.tweet_text@),
        plain.in_network is Some,
    ensures
        weight_numerator(factors_of(bait, counts, hard_news_ids)) < weight_numerator(
            factors_of(plain, counts, hard_news_ids),
        ),
{
    assert(handles_of(bait) == handles_of(plain));
    lemma_more_deranks_weigh_less(factors_of(bait, counts, hard_news_ids), factors_of(plain, counts, hard_news_ids));
}

/// The factors, read off the candidate: its network is in network exactly when hydrated as
/// following, out of network when hydrated as not following, unknown otherwise; it is hard news
/// exactly when one of its filtered or unfiltered topic ids is a hard-news id; its author is
/// overexposed exactly when the batch holds at least 4 of the author's posts and more than a
/// quarter of them mention the topic.
pub proof fn lemma_factors_by_fields(c: PostCandidate, counts: Option<(nat, nat)>, hard_news_ids: Seq<i64>)
    ensures
        (factors_of(c, counts, hard_news_ids).network == NetworkMembership::InNetwork) <==> c.in_network
            == Some(true),
        (factors_of(c, counts, hard_news_ids).network == NetworkMembership::OutOfNetwork) <==> c.in_network
            == Some(false),
        factors_of(c, counts, hard_news_ids).hard_news <==> ((c.filtered_topic_ids matches Some(v)
            && exists|k: int| 0 <= k < v.len() && hard_news_ids.contains(#[trigger] v@[k])) || (
        c.unfiltered_topic_ids matches Some(v) && exists|k: int|
            0 <= k < v.len() && hard_news_ids.contains(#[trigger] v@[k]))),
        factors_of(c, counts, hard_news_ids).overexposed_topic <==> (counts matches Some((p, m)) && p >= 4
            && 4 * m > p),
{
}

/// The weight's values: a post in network with no boost and no derank weighs 2, out of network
/// 1/10, of unknown network 0; hard news multiplies the weight by 3/2.
pub proof fn lemma_weight_values(f: PolicyFactors)
    ensures
        (!f.hard_news && !f.overexposed_topic && !f.affiliated && !f.government && !f.low_quality_text)
            ==> 10 * weight_numerator(f) == 320 * match f.network {
            NetworkMembership::InNetwork => 20int,
            NetworkMembership::OutOfNetwork => 1int,
            NetworkMembership::Unknown => 0int,
        },
        2 * weight_numerator((PolicyFactors { hard_news: true, ..f })) == 3 * weight_numerator(
            (PolicyFactors { hard_news: false, ..f }),
        ),
        WEIGHT_DENOMINATOR == 320,
{
}

} // verus!
