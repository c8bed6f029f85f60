//! The hard-removal rules of the For You feed.

use vstd::prelude::*;
use vstd::hash_set::StringHashSet;
use crate::candidate::{
    opt_chars, partition_by_flags, select, FilterResult, PostCandidate, ScoredPostsQuery,
};
use crate::template::{opt_string_chars, template_of, template_of_text};
use crate::text::{
    chars_of, contains_run, contains_run_chars, normalize_handle, normalize_handle_chars,
    roster_contains, roster_view,
};
use crate::unicode::{lowercase_of, to_lowercase};

verus! {

/// A video of at most this many milliseconds is short-form.
pub const MAX_SHORT_FORM_VIDEO_DURATION_MS: i32 = 60_000;

/// Screen names whose posts and reposts this filter removes: the suppression list of
/// `SuppressedAuthorsFilter` and one name more. The list names eight accounts, and all eight
/// are kept: none is dropped to fit a fixed length of seven.
pub open spec fn restricted_roster() -> Seq<Seq<char>> {
    seq![
        "dogedesigner"@,
        "farzyness"@,
        "kettlebelldan"@,
        "xfreeze"@,
        "wholemars"@,
        "sawyermerritt"@,
        "teslaownerssv"@,
        "nikitabier"@,
    ]
}

pub open spec fn engagement_bait_phrases() -> Seq<Seq<char>> {
    seq![
        "like and repost"@,
        "like & repost"@,
        "repost if you"@,
        "retweet if you"@,
        "share if you"@,
        "follow for more"@,
        "comment below"@,
        "tag someone who"@,
        "who agrees with me"@,
    ]
}

pub open spec fn clickbait_phrases() -> Seq<Seq<char>> {
    seq![
        "you won't believe"@,
        "what happened next"@,
        "they don't want you to know"@,
        "this one weird trick"@,
        "the truth will shock you"@,
        "wait until you see"@,
    ]
}

pub fn restricted_screen_names() -> (names: Vec<&'static str>)
    ensures
        roster_view(names@) == restricted_roster(),
{
    let names = vec![
        "dogedesigner",
        "farzyness",
        "kettlebelldan",
        "xfreeze",
        "wholemars",
        "sawyermerritt",
        "teslaownerssv",
        "nikitabier",
    ];
    assert(roster_view(names@) == restricted_roster());
    names
}

pub fn engagement_bait_phrase_list() -> (phrases: Vec<&'static str>)
    ensures
        roster_view(phrases@) == engagement_bait_phrases(),
{
    let phrases = vec![
        "like and repost",
        "like & repost",
        "repost if you",
        "retweet if you",
        "share if you",
        "follow for more",
        "comment below",
        "tag someone who",
        "who agrees with me",
    ];
    assert(roster_view(phrases@) == engagement_bait_phrases());
    phrases
}

pub fn clickbait_phrase_list() -> (phrases: Vec<&'static str>)
    ensures
        roster_view(phrases@) == clickbait_phrases(),
{
    let phrases = vec![
        "you won't believe",
        "what happened next",
        "they don't want you to know",
        "this one weird trick",
        "the truth will shock you",
        "wait until you see",
    ];
    assert(roster_view(phrases@) == clickbait_phrases());
    phrases
}

/// One of the durations is known and at most the short-form limit.
pub open spec fn is_short_form(c: PostCandidate) -> bool {
    ||| (c.min_video_duration_ms matches Some(d) && d <= MAX_SHORT_FORM_VIDEO_DURATION_MS)
    ||| (c.quoted_video_duration_ms matches Some(d) && d <= MAX_SHORT_FORM_VIDEO_DURATION_MS)
}

/// The lowercased text holds one of the phrases.
pub open spec fn has_phrase(text: Seq<char>, phrases: Seq<Seq<char>>) -> bool {
    holds_phrase(lowercase_of(text), phrases)
}

/// The text holds one of the phrases as it stands.
pub open spec fn holds_phrase(text: Seq<char>, phrases: Seq<Seq<char>>) -> bool {
    exists|k: int| 0 <= k < phrases.len() && contains_run(text, #[trigger] phrases[k])
}

pub open spec fn is_restricted_name(screen_name: Option<Seq<char>>) -> bool {
    match screen_name {
        Some(name) => restricted_roster().contains(normalize_handle(name)),
        None => false,
    }
}

/// The rules that remove a candidate on its own, whatever else is in the batch.
pub open spec fn rejects_alone(c: PostCandidate) -> bool {
    ||| c.in_network is None
    ||| is_short_form(c)
    ||| is_restricted_name(opt_chars(c.author_screen_name))
    ||| is_restricted_name(opt_chars(c.retweeted_screen_name))
    ||| has_phrase(c.tweet_text@, engagement_bait_phrases())
    ||| has_phrase(c.tweet_text@, clickbait_phrases())
}

/// The template this filter compares.
pub open spec fn quality_template(c: PostCandidate) -> Option<Seq<char>> {
    template_of(c.tweet_text@)
}

/// Candidate `i` is removed: by a rule of its own, or because an earlier candidate that no rule
/// removed has the same template.
pub open spec fn quality_removes(cands: Seq<PostCandidate>, i: int) -> bool {
    ||| rejects_alone(cands[i])
    ||| {
        &&& quality_template(cands[i]) is Some
        &&& exists|j: int|
            0 <= j < i && !rejects_alone(cands[j]) && #[trigger] quality_template(cands[j])
                == quality_template(cands[i])
    }
}

pub open spec fn quality_flags(cands: Seq<PostCandidate>) -> Seq<bool> {
    Seq::new(cands.len(), |i: int| quality_removes(cands, i))
}

/// Removes candidates of unknown network, short-form video, restricted authors and their
/// reposts, engagement bait, clickbait, and repeats of an earlier kept post's template.
pub struct FeedQualityFilter;

impl FeedQualityFilter {
    pub fn is_short_form_video(candidate: &PostCandidate) -> (r: bool)
        ensures
            r == is_short_form(*candidate),
    {
        let short_min = match candidate.min_video_duration_ms {
            Some(d) => d <= MAX_SHORT_FORM_VIDEO_DURATION_MS,
            None => false,
        };
        let short_quoted = match candidate.quoted_video_duration_ms {
            Some(d) => d <= MAX_SHORT_FORM_VIDEO_DURATION_MS,
            None => false,
        };
        short_min || short_quoted
    }

    pub fn contains_phrase(text: &str, phrases: &Vec<&str>) -> (r: bool)
        ensures
            r == has_phrase(text@, roster_view(phrases@)),
    {
        Self::holds_any_phrase(&to_lowercase(&chars_of(text)), phrases)
    }

    /// Whether the already lowercased text holds one of the phrases.
    pub fn holds_any_phrase(lowercase: &Vec<char>, phrases: &Vec<&str>) -> (r: bool)
        ensures
            r == holds_phrase(lowercase@, roster_view(phrases@)),
    {
        let mut k: usize = 0;
        while k < phrases.len()
            invariant
                k <= phrases.len(),
                forall|m: int| 0 <= m < k ==> !contains_run(lowercase@, #[trigger] roster_view(phrases@)[m]),
            decreases phrases.len() - k,
        {
            let phrase = chars_of(phrases[k]);
            assert(roster_view(phrases@)[k as int] == phrase@);
            if contains_run_chars(lowercase, &phrase) {
                return true;
            }
            k += 1;
        }
        false
    }

    pub fn is_engagement_bait(text: &str) -> (r: bool)
        ensures
            r == has_phrase(text@, engagement_bait_phrases()),
    {
        Self::contains_phrase(text, &engagement_bait_phrase_list())
    }

    pub fn is_clickbait(text: &str) -> (r: bool)
        ensures
            r == has_phrase(text@, clickbait_phrases()),
    {
        Self::contains_phrase(text, &clickbait_phrase_list())
    }

    pub fn is_restricted_screen_name(screen_name: Option<&str>) -> (r: bool)
        ensures
            r == is_restricted_name(
                match screen_name {
                    Some(s) => Some(s@),
                    None => None,
                },
            ),
    {
        match screen_name {
            Some(name) => {
                let normalized = normalize_handle_chars(&chars_of(name));
                roster_contains(&restricted_screen_names(), &normalized)
            },
            None => false,
        }
    }

    pub fn is_restricted_author(candidate: &PostCandidate) -> (r: bool)
        ensures
            r == (is_restricted_name(opt_chars(candidate.author_screen_name)) || is_restricted_name(
                opt_chars(candidate.retweeted_screen_name),
            )),
    {
        let author = match &candidate.author_screen_name {
            Some(s) => Some(s.as_str()),
            None => None,
        };
        let reposted = match &candidate.retweeted_screen_name {
            Some(s) => Some(s.as_str()),
            None => None,
        };
        Self::is_restricted_screen_name(author) || Self::is_restricted_screen_name(reposted)
    }

    /// The structural template of a post's text.
    pub fn normalize_template(text: &str) -> (r: Option<String>)
        ensures
            opt_string_chars(r) == template_of(text@),
    {
        template_of_text(text)
    }

    pub fn should_remove(candidate: &PostCandidate) -> (r: bool)
        ensures
            r == rejects_alone(*candidate),
    {
        candidate.in_network.is_none() || Self::is_short_form_video(candidate)
            || Self::is_restricted_author(candidate) || Self::is_engagement_bait(
            candidate.tweet_text.as_str(),
        ) || Self::is_clickbait(candidate.tweet_text.as_str())
    }

    pub fn filter(&self, _query: &ScoredPostsQuery, candidates: Vec<PostCandidate>) -> (result:
        FilterResult<PostCandidate>)
        ensures
            result.kept@ == select(candidates@, quality_flags(candidates@), false),
            result.removed@ == select(candidates@, quality_flags(candidates@), true),
    {
        let ghost cands = candidates@;
        let mut seen_templates = StringHashSet::new();
        let mut flags: Vec<bool> = Vec::new();
        let mut i: usize = 0;
        while i < candidates.len()
            invariant
                cands == candidates@,
                i <= candidates.len(),
                flags@ == quality_flags(cands).take(i as int),
                forall|t: Seq<char>|
                    seen_templates@.contains(t) <==> exists|j: int|
                        0 <= j < i && !rejects_alone(cands[j]) && #[trigger] quality_template(cands[j]) == Some(t),
            decreases candidates.len() - i,
        {
            let ghost prev = seen_templates@;
            let ghost cur = quality_template(cands[i as int]);
            let remove = if Self::should_remove(&candidates[i]) {
                true
            } else {
                match Self::normalize_template(candidates[i].tweet_text.as_str()) {
                    Some(template) => !seen_templates.insert(template),
                    None => false,
                }
            };
            assert(remove == quality_removes(cands, i as int));
            assert forall|t: Seq<char>|
                seen_templates@.contains(t) <==> exists|j: int|
                    0 <= j < i + 1 && !rejects_alone(cands[j]) && #[trigger] quality_template(cands[j]) == Some(t) by {
                assert(seen_templates@.contains(t) == (prev.contains(t) || (!rejects_alone(cands[i as int]) && cur == Some(t))));
                if exists|j: int| 0 <= j < i + 1 && !rejects_alone(cands[j]) && #[trigger] quality_template(cands[j]) == Some(t) {
                    let j = choose|j: int| 0 <= j < i + 1 && !rejects_alone(cands[j]) && #[trigger] quality_template(cands[j]) == Some(t);
                    if j < i {
                        assert(prev.contains(t));
                    }
                }
            }
            flags.push(remove);
            assert(flags@ == quality_flags(cands).take(i + 1));
            i += 1;
        }
        assert(flags@ == quality_flags(cands));
        partition_by_flags(candidates, &flags)
    }
}

/// The rules that remove a post on its own, read off its fields: its network is unknown; one of
/// its video durations is known and at most `MAX_SHORT_FORM_VIDEO_DURATION_MS`; its author's or
/// the reposted account's screen name, normalized, is on the restricted roster (each on its own,
/// whatever the other holds); or its lowercased text holds an engagement-bait or clickbait phrase.
/// A post that meets any of them is removed from the batch.
pub proof fn lemma_quality_rules_by_fields(cands: Seq<PostCandidate>, i: int)
    requires
        0 <= i < cands.len(),
    ensures
        rejects_alone(cands[i]) <==> {
            ||| cands[i].in_network is None
            ||| (cands[i].min_video_duration_ms matches Some(d) && d <= MAX_SHORT_FORM_VIDEO_DURATION_MS)
            ||| (cands[i].quoted_video_duration_ms matches Some(d) && d
                <= MAX_SHORT_FORM_VIDEO_DURATION_MS)
            ||| (cands[i].author_screen_name matches Some(n) && restricted_roster().contains(
                normalize_handle(n@),
            ))
            ||| (cands[i].retweeted_screen_name matches Some(n) && restricted_roster().contains(
                normalize_handle(n@),
            ))
            ||| (exists|k: int|
                0 <= k < engagement_bait_phrases().len() && contains_run(
                    lowercase_of(cands[i].tweet_text@),
                    #[trigger] engagement_bait_phrases()[k],
                ))
            ||| (exists|k: int|
                0 <= k < clickbait_phrases().len() && contains_run(
                    lowercase_of(cands[i].tweet_text@),
                    #[trigger] clickbait_phrases()[k],
                ))
        },
        rejects_alone(cands[i]) ==> quality_flags(cands)[i],
{
}

/// A post removed for its template goes back to a first occurrence that is kept.
proof fn lemma_duplicate_has_kept_original(cands: Seq<PostCandidate>, i: int)
    requires
        0 <= i < cands.len(),
        !rejects_alone(cands[i]),
        quality_removes(cands, i),
    ensures
        exists|j: int|
            0 <= j < i && !quality_removes(cands, j) && #[trigger] quality_template(cands[j])
                == quality_template(cands[i]),
    decreases i,
{
    let j = choose|j: int|
        0 <= j < i && !rejects_alone(cands[j]) && #[trigger] quality_template(cands[j])
            == quality_template(cands[i]);
    if quality_removes(cands, j) {
        lemma_duplicate_has_kept_original(cands, j);
        let k = choose|k: int|
            0 <= k < j && !quality_removes(cands, k) && #[trigger] quality_template(cands[k])
                == quality_template(cands[j]);
        assert(quality_template(cands[k]) == quality_template(cands[i]));
    }
}

/// Among the posts that no rule of their own removes, one post per template is kept: the kept
/// posts' templates are pairwise different, and a post removed only for its template repeats the
/// template of an earlier kept post.
pub proof fn lemma_quality_dedup(cands: Seq<PostCandidate>)
    ensures
        forall|i: int, j: int|
            0 <= i < j < cands.len() && !#[trigger] quality_flags(cands)[i] && !#[trigger] quality_flags(cands)[j]
                && quality_template(cands[j]) is Some ==> quality_template(cands[i]) != quality_template(cands[j]),
        forall|i: int|
            0 <= i < cands.len() && #[trigger] quality_flags(cands)[i] && !rejects_alone(cands[i]) ==> exists|j: int|
                0 <= j < i && !quality_flags(cands)[j] && #[trigger] quality_template(cands[j])
                    == quality_template(cands[i]),
{
    assert forall|i: int|
        0 <= i < cands.len() && #[trigger] quality_flags(cands)[i] && !rejects_alone(cands[i]) implies exists|j: int|
        0 <= j < i && !quality_flags(cands)[j] && #[trigger] quality_template(cands[j])
            == quality_template(cands[i]) by {
        lemma_duplicate_has_kept_original(cands, i);
        let j = choose|j: int|
            0 <= j < i && !quality_removes(cands, j) && #[trigger] quality_template(cands[j])
                == quality_template(cands[i]);
        assert(!quality_flags(cands)[j]);
    }
    assert forall|i: int, j: int|
        0 <= i < j < cands.len() && !#[trigger] quality_flags(cands)[i] && !#[trigger] quality_flags(cands)[j]
            && quality_template(cands[j]) is Some implies quality_template(cands[i]) != quality_template(cands[j]) by {
        if quality_template(cands[i]) == quality_template(cands[j]) {
            assert(!rejects_alone(cands[i]));
            assert(quality_removes(cands, j));
        }
    }
}

/// The restricted roster holds exactly these 8 screen names.
pub proof fn lemma_restricted_roster_entries()
    ensures
        restricted_roster().len() == 8,
        restricted_roster().contains("dogedesigner"@),
        restricted_roster().contains("farzyness"@),
        restricted_roster().contains("kettlebelldan"@),
        restricted_roster().contains("xfreeze"@),
        restricted_roster().contains("wholemars"@),
        restricted_roster().contains("sawyermerritt"@),
        restricted_roster().contains("teslaownerssv"@),
        restricted_roster().contains("nikitabier"@),
{
    let r = restricted_roster();
    assert(r[0] == "dogedesigner"@);
    assert(r[1] == "farzyness"@);
    assert(r[2] == "kettlebelldan"@);
    assert(r[3] == "xfreeze"@);
    assert(r[4] == "wholemars"@);
    assert(r[5] == "sawyermerritt"@);
    assert(r[6] == "teslaownerssv"@);
    assert(r[7] == "nikitabier"@);
}

/// The engagement-bait phrases are exactly these 9.
pub proof fn lemma_engagement_bait_phrases_entries()
    ensures
        engagement_bait_phrases().len() == 9,
        engagement_bait_phrases().contains("like and repost"@),
        engagement_bait_phrases().contains("like & repost"@),
        engagement_bait_phrases().contains("repost if you"@),
        engagement_bait_phrases().contains("retweet if you"@),
        engagement_bait_phrases().contains("share if you"@),
        engagement_bait_phrases().contains("follow for more"@),
        engagement_bait_phrases().contains("comment below"@),
        engagement_bait_phrases().contains("tag someone who"@),
        engagement_bait_phrases().contains("who agrees with me"@),
{
    let r = engagement_bait_phrases();
    assert(r[0] == "like and repost"@);
    assert(r[1] == "like & repost"@);
    assert(r[2] == "repost if you"@);
    assert(r[3] == "retweet if you"@);
    assert(r[4] == "share if you"@);
    assert(r[5] == "follow for more"@);
    assert(r[6] == "comment below"@);
    assert(r[7] == "tag someone who"@);
    assert(r[8] == "who agrees with me"@);
}

/// The clickbait phrases are exactly these 6.
pub proof fn lemma_clickbait_phrases_entries()
    ensures
        clickbait_phrases().len() == 6,
        clickbait_phrases().contains("you won't believe"@),
        clickbait_phrases().contains("what happened next"@),
        clickbait_phrases().contains("they don't want you to know"@),
        clickbait_phrases().contains("this one weird trick"@),
        clickbait_phrases().contains("the truth will shock you"@),
        clickbait_phrases().contains("wait until you see"@),
{
    let r = clickbait_phrases();
    assert(r[0] == "you won't believe"@);
    assert(r[1] == "what happened next"@);
    assert(r[2] == "they don't want you to know"@);
    assert(r[3] == "this one weird trick"@);
    assert(r[4] == "the truth will shock you"@);
    assert(r[5] == "wait until you see"@);
}

} // verus!
