//! Removal of literal template duplicates within one candidate batch.

use vstd::prelude::*;
use vstd::hash_set::StringHashSet;
use crate::candidate::{partition_by_flags, select, FilterResult, PostCandidate, ScoredPostsQuery};
use crate::template::{opt_string_chars, template_of, template_of_text};

verus! {

/// The template this filter compares.
pub open spec fn spam_template(c: PostCandidate) -> Option<Seq<char>> {
    template_of(c.tweet_text@)
}

/// Candidate `i` repeats the template of an earlier candidate of the batch.
pub open spec fn repeats_earlier_template(cands: Seq<PostCandidate>, i: int) -> bool {
    &&& spam_template(cands[i]) is Some
    &&& exists|j: int| 0 <= j < i && #[trigger] spam_template(cands[j]) == spam_template(cands[i])
}

/// The removal flag of each candidate of the batch.
pub open spec fn spam_flags(cands: Seq<PostCandidate>) -> Seq<bool> {
    Seq::new(cands.len(), |i: int| repeats_earlier_template(cands, i))
}

/// Removes posts that are literal template duplicates of an earlier candidate in the same batch:
/// identical wording once mentions, links and numbers are masked out. The first post with a
/// template is kept; a post too short to have a template is never removed.
pub struct TemplateSpamFilter;

impl TemplateSpamFilter {
    /// The structural template of a post's text, or `None` when it is too short to be a
    /// meaningful fingerprint.
    pub fn normalize_template(text: &str) -> (r: Option<String>)
        ensures
            opt_string_chars(r) == template_of(text@),
    {
        template_of_text(text)
    }

    pub fn filter(&self, _query: &ScoredPostsQuery, candidates: Vec<PostCandidate>) -> (result:
        FilterResult<PostCandidate>)
        ensures
            result.kept@ == select(candidates@, spam_flags(candidates@), false),
            result.removed@ == select(candidates@, spam_flags(candidates@), true),
    {
        let ghost cands = candidates@;
        let mut seen_templates = StringHashSet::new();
        let mut flags: Vec<bool> = Vec::new();
        let mut i: usize = 0;
        while i < candidates.len()
            invariant
                cands == candidates@,
                i <= candidates.len(),
                flags@ == spam_flags(cands).take(i as int),
                forall|t: Seq<char>|
                    seen_templates@.contains(t) <==> exists|j: int|
                        0 <= j < i && #[trigger] spam_template(cands[j]) == Some(t),
            decreases candidates.len() - i,
        {
            let ghost prev = seen_templates@;
            let ghost cur = spam_template(cands[i as int]);
            let is_duplicate = match Self::normalize_template(candidates[i].tweet_text.as_str()) {
                Some(template) => !seen_templates.insert(template),
                None => false,
            };
            assert(is_duplicate == repeats_earlier_template(cands, i as int));
            assert forall|t: Seq<char>|
                seen_templates@.contains(t) <==> exists|j: int|
                    0 <= j < i + 1 && #[trigger] spam_template(cands[j]) == Some(t) by {
                assert(seen_templates@.contains(t) == (prev.contains(t) || cur == Some(t)));
                if exists|j: int| 0 <= j < i + 1 && #[trigger] spam_template(cands[j]) == Some(t) {
                    let j = choose|j: int| 0 <= j < i + 1 && #[trigger] spam_template(cands[j]) == Some(t);
                    if j < i {
                        assert(prev.contains(t));
                    }
                }
            }
            flags.push(is_duplicate);
            assert(flags@ == spam_flags(cands).take(i + 1));
            i += 1;
        }
        assert(flags@ == spam_flags(cands));
        partition_by_flags(candidates, &flags)
    }
}

/// A repeated template goes back to a first occurrence that is kept.
proof fn lemma_repeat_has_kept_original(cands: Seq<PostCandidate>, i: int)
    requires
        0 <= i < cands.len(),
        repeats_earlier_template(cands, i),
    ensures
        exists|j: int|
            0 <= j < i && !repeats_earlier_template(cands, j) && #[trigger] spam_template(cands[j])
                == spam_template(cands[i]),
    decreases i,
{
    let j = choose|j: int| 0 <= j < i && #[trigger] spam_template(cands[j]) == spam_template(cands[i]);
    if repeats_earlier_template(cands, j) {
        lemma_repeat_has_kept_original(cands, j);
        let k = choose|k: int|
            0 <= k < j && !repeats_earlier_template(cands, k) && #[trigger] spam_template(cands[k])
                == spam_template(cands[j]);
        assert(spam_template(cands[k]) == spam_template(cands[i]));
    }
}

/// Deduplication keeps exactly one post per template: the kept posts' templates are pairwise
/// different, every removed post repeats the template of an earlier kept post, and a post too
/// short to have a template is never removed.
pub proof fn lemma_template_dedup(cands: Seq<PostCandidate>)
    ensures
        forall|i: int, j: int|
            0 <= i < j < cands.len() && !#[trigger] spam_flags(cands)[i] && !#[trigger] spam_flags(cands)[j]
                && spam_template(cands[j]) is Some ==> spam_template(cands[i]) != spam_template(cands[j]),
        forall|i: int|
            0 <= i < cands.len() && #[trigger] spam_flags(cands)[i] ==> exists|j: int|
                0 <= j < i && !spam_flags(cands)[j] && #[trigger] spam_template(cands[j])
                    == spam_template(cands[i]),
        forall|i: int|
            0 <= i < cands.len() && #[trigger] spam_template(cands[i]) is None ==> !spam_flags(cands)[i],
{
    assert forall|i: int| 0 <= i < cands.len() && #[trigger] spam_flags(cands)[i] implies exists|j: int|
        0 <= j < i && !spam_flags(cands)[j] && #[trigger] spam_template(cands[j])
            == spam_template(cands[i]) by {
        lemma_repeat_has_kept_original(cands, i);
        let j = choose|j: int|
            0 <= j < i && !repeats_earlier_template(cands, j) && #[trigger] spam_template(cands[j])
                == spam_template(cands[i]);
        assert(!spam_flags(cands)[j]);
    }
    assert forall|i: int, j: int|
        0 <= i < j < cands.len() && !#[trigger] spam_flags(cands)[i] && !#[trigger] spam_flags(cands)[j]
            && spam_template(cands[j]) is Some implies spam_template(cands[i]) != spam_template(cands[j]) by {
        if spam_template(cands[i]) == spam_template(cands[j]) {
            assert(repeats_earlier_template(cands, j));
        }
    }
}

} // verus!
