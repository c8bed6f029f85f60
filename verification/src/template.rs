//! The structural template of a post's text, which the duplicate-template rules compare.

use vstd::prelude::*;
use crate::text::{
    chars_of, join_with_spaces, join_with_spaces_chars, pieces_view, starts_with, starts_with_chars,
    words, words_of,
};
use crate::unicode::{
    char_is_alphanumeric, char_is_numeric, is_alphanumeric, is_numeric, lowercase_of, string_from_chars,
    to_lowercase,
};

verus! {

/// Posts whose template is shorter than this are never deduplicated: short posts ("good
/// morning", "this is huge") collide constantly between unrelated authors without being spam.
pub const MIN_TEMPLATE_CHARACTER_COUNT: usize = 40;

/// Posts whose template has fewer words than this are never deduplicated either.
pub const MIN_TEMPLATE_WORD_COUNT: usize = 6;

/// The alphanumeric characters of `s`, in order.
pub open spec fn alphanumeric_only(s: Seq<char>) -> Seq<char> {
    s.filter(|c: char| char_is_alphanumeric(c))
}

/// Every character of `s` is numeric.
pub open spec fn all_numeric(s: Seq<char>) -> bool {
    forall|k: int| 0 <= k < s.len() ==> char_is_numeric(#[trigger] s[k])
}

/// What one whitespace-separated token of a post contributes to its template: links become
/// `<url>`, mentions `<user>`, numbers `<number>`, any other token its lowercase alphanumeric
/// characters; a token with none of those contributes nothing.
pub open spec fn token_template(token: Seq<char>) -> Option<Seq<char>> {
    lowercase_token_template(lowercase_of(token))
}

/// The template contribution of a token, given the token already lowercased.
pub open spec fn lowercase_token_template(lower: Seq<char>) -> Option<Seq<char>> {
    if starts_with(lower, "http://"@) || starts_with(lower, "https://"@) {
        Some("<url>"@)
    } else if lower.len() > 0 && lower[0] == '@' {
        Some("<user>"@)
    } else {
        let cleaned = alphanumeric_only(lower);
        if cleaned.len() == 0 {
            None
        } else if all_numeric(cleaned) {
            Some("<number>"@)
        } else {
            Some(cleaned)
        }
    }
}

/// What a lowercase token that is neither a link nor a mention contributes, read off its
/// characters: nothing when none of them is alphanumeric; `<number>` when some are and every
/// alphanumeric one is numeric; otherwise, when some alphanumeric character is not numeric (as in
/// `5pm`), its alphanumeric characters themselves.
pub proof fn lemma_token_template_by_characters(lower: Seq<char>)
    requires
        !starts_with(lower, "http://"@),
        !starts_with(lower, "https://"@),
        lower.len() == 0 || lower[0] != '@',
    ensures
        (forall|k: int| 0 <= k < lower.len() ==> !char_is_alphanumeric(#[trigger] lower[k]))
            ==> lowercase_token_template(lower) is None,
        ((exists|k: int| 0 <= k < lower.len() && char_is_alphanumeric(#[trigger] lower[k])) && (forall|
            k: int|
            0 <= k < lower.len() && char_is_alphanumeric(#[trigger] lower[k]) ==> char_is_numeric(
                lower[k],
            ))) ==> lowercase_token_template(lower) == Some("<number>"@),
        (exists|k: int|
            0 <= k < lower.len() && char_is_alphanumeric(#[trigger] lower[k]) && !char_is_numeric(
                lower[k],
            )) ==> lowercase_token_template(lower) == Some(alphanumeric_only(lower)),
{
    broadcast use vstd::seq_lib::group_filter_ensures;

    let cleaned = alphanumeric_only(lower);
    if exists|k: int| 0 <= k < lower.len() && char_is_alphanumeric(#[trigger] lower[k]) {
        let k = choose|k: int| 0 <= k < lower.len() && char_is_alphanumeric(#[trigger] lower[k]);
        assert(cleaned.contains(lower[k]));
    }
    if cleaned.len() > 0 {
        assert(char_is_alphanumeric(cleaned[0]));
        assert(cleaned.contains(cleaned[0]));
        lower.lemma_filter_contains_rev(|c: char| char_is_alphanumeric(c), cleaned[0]);
    }
    if forall|k: int|
        0 <= k < lower.len() && char_is_alphanumeric(#[trigger] lower[k]) ==> char_is_numeric(lower[k]) {
        assert forall|m: int| 0 <= m < cleaned.len() implies char_is_numeric(#[trigger] cleaned[m]) by {
            assert(cleaned.contains(cleaned[m]));
            lower.lemma_filter_contains_rev(|c: char| char_is_alphanumeric(c), cleaned[m]);
        }
    }
    if exists|k: int|
        0 <= k < lower.len() && char_is_alphanumeric(#[trigger] lower[k]) && !char_is_numeric(lower[k]) {
        let k = choose|k: int|
            0 <= k < lower.len() && char_is_alphanumeric(#[trigger] lower[k]) && !char_is_numeric(lower[k]);
        assert(cleaned.contains(lower[k]));
        let m = choose|m: int| 0 <= m < cleaned.len() && cleaned[m] == lower[k];
        assert(!all_numeric(cleaned));
    }
}

/// The template text of a post: the token templates joined by single spaces.
pub open spec fn template_text(text: Seq<char>) -> Seq<char> {
    join_with_spaces(words(text).filter_map(|w: Seq<char>| token_template(w)))
}

/// The template of a post, or `None` when it is too short to be a meaningful fingerprint: under
/// `MIN_TEMPLATE_CHARACTER_COUNT` characters, or under `MIN_TEMPLATE_WORD_COUNT` words. The length
/// is counted in characters, so that a post of the same length counts alike in every script.
pub open spec fn template_of(text: Seq<char>) -> Option<Seq<char>> {
    let normalized = template_text(text);
    if normalized.len() >= MIN_TEMPLATE_CHARACTER_COUNT && words(normalized).len()
        >= MIN_TEMPLATE_WORD_COUNT {
        Some(normalized)
    } else {
        None
    }
}

/// An optional character vector, as characters.
pub open spec fn opt_vec_chars(o: Option<Vec<char>>) -> Option<Seq<char>> {
    match o {
        Some(v) => Some(v@),
        None => None,
    }
}

fn alphanumeric_only_chars(s: &Vec<char>) -> (out: Vec<char>)
    ensures
        out@ == alphanumeric_only(s@),
{
    let mut out: Vec<char> = Vec::new();
    let mut i: usize = 0;
    while i < s.len()
        invariant
            i <= s.len(),
            out@ == alphanumeric_only(s@.take(i as int)),
        decreases s.len() - i,
    {
        proof {
            reveal(Seq::filter);
            assert(s@.take(i + 1).drop_last() == s@.take(i as int));
            assert(s@.take(i + 1).last() == s@[i as int]);
        }
        if is_alphanumeric(s[i]) {
            out.push(s[i]);
        }
        i += 1;
    }
    assert(s@.take(s.len() as int) == s@);
    out
}

fn all_numeric_chars(s: &Vec<char>) -> (r: bool)
    ensures
        r == all_numeric(s@),
{
    let mut i: usize = 0;
    while i < s.len()
        invariant
            i <= s.len(),
            forall|k: int| 0 <= k < i ==> char_is_numeric(#[trigger] s@[k]),
        decreases s.len() - i,
    {
        if !is_numeric(s[i]) {
            return false;
        }
        i += 1;
    }
    true
}

/// The template one token contributes.
pub fn token_template_of(token: &Vec<char>) -> (r: Option<Vec<char>>)
    ensures
        opt_vec_chars(r) == token_template(token@),
{
    template_of_lowercase_token(&to_lowercase(token))
}

/// The template contribution of a token that is already lowercase: `<url>` for a link, `<user>`
/// for a mention, `<number>` for a number, else its alphanumeric characters.
pub fn template_of_lowercase_token(lower: &Vec<char>) -> (r: Option<Vec<char>>)
    ensures
        opt_vec_chars(r) == lowercase_token_template(lower@),
{
    if starts_with_chars(lower, &chars_of("http://")) || starts_with_chars(lower, &chars_of("https://")) {
        return Some(chars_of("<url>"));
    }
    if lower.len() > 0 && lower[0] == '@' {
        return Some(chars_of("<user>"));
    }
    let cleaned = alphanumeric_only_chars(lower);
    if cleaned.len() == 0 {
        None
    } else if all_numeric_chars(&cleaned) {
        Some(chars_of("<number>"))
    } else {
        Some(cleaned)
    }
}

/// The template text of a post.
pub fn template_text_of(text: &Vec<char>) -> (out: Vec<char>)
    ensures
        out@ == template_text(text@),
{
    let tokens = words_of(text);
    let ghost ws = pieces_view(tokens@);
    let mut pieces: Vec<Vec<char>> = Vec::new();
    let mut i: usize = 0;
    while i < tokens.len()
        invariant
            i <= tokens.len(),
            ws == pieces_view(tokens@),
            pieces_view(pieces@) == ws.take(i as int).filter_map(|w: Seq<char>| token_template(w)),
        decreases tokens.len() - i,
    {
        assert(ws.take(i + 1).drop_last() == ws.take(i as int));
        assert(ws.take(i + 1).last() == tokens@[i as int]@);
        match token_template_of(&tokens[i]) {
            Some(piece) => {
                pieces.push(piece);
            },
            None => {},
        }
        i += 1;
    }
    assert(ws.take(tokens.len() as int) == ws);
    join_with_spaces_chars(&pieces)
}

/// An optional string, as characters.
pub open spec fn opt_string_chars(o: Option<String>) -> Option<Seq<char>> {
    match o {
        Some(s) => Some(s@),
        None => None,
    }
}

/// The template of a post, or `None` when it is too short to count.
pub fn template_of_text(text: &str) -> (r: Option<String>)
    ensures
        opt_string_chars(r) == template_of(text@),
{
    let normalized = template_text_of(&chars_of(text));
    if normalized.len() >= MIN_TEMPLATE_CHARACTER_COUNT && words_of(&normalized).len() >= MIN_TEMPLATE_WORD_COUNT {
        Some(string_from_chars(&normalized))
    } else {
        None
    }
}

/// A post has a template exactly when its template text is at least 40 characters long and has
/// at least 6 words, and the template is then that text: the length counts characters, whatever
/// their encoding.
pub proof fn lemma_template_thresholds(text: Seq<char>)
    ensures
        template_of(text) is Some <==> (template_text(text).len() >= 40 && words(template_text(text)).len()
            >= 6),
        template_of(text) is Some ==> template_of(text) == Some(template_text(text)),
{
}

} // verus!
