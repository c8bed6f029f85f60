//! Character-level text operations, each stated over `Seq<char>`.

use vstd::prelude::*;

verus! {

/// The Unicode `White_Space` property, which is what `char::is_whitespace`, `str::trim` and
/// `str::split_whitespace` go by: U+0009..U+000D, U+0020, U+0085, U+00A0, U+1680,
/// U+2000..U+200A, U+2028, U+2029, U+202F, U+205F and U+3000.
pub open spec fn is_white_space(c: char) -> bool {
    ||| ('\u{9}' <= c && c <= '\u{d}')
    ||| c == ' '
    ||| c == '\u{85}'
    ||| c == '\u{a0}'
    ||| c == '\u{1680}'
    ||| ('\u{2000}' <= c && c <= '\u{200a}')
    ||| c == '\u{2028}'
    ||| c == '\u{2029}'
    ||| c == '\u{202f}'
    ||| c == '\u{205f}'
    ||| c == '\u{3000}'
}

pub fn is_whitespace_char(c: char) -> (r: bool)
    ensures
        r == is_white_space(c),
{
    ('\u{9}' <= c && c <= '\u{d}') || c == ' ' || c == '\u{85}' || c == '\u{a0}' || c == '\u{1680}'
        || ('\u{2000}' <= c && c <= '\u{200a}') || c == '\u{2028}' || c == '\u{2029}' || c
        == '\u{202f}' || c == '\u{205f}' || c == '\u{3000}'
}

/// `s` without its leading whitespace.
pub open spec fn trim_start(s: Seq<char>) -> Seq<char>
    decreases s.len(),
{
    if s.len() > 0 && is_white_space(s[0]) {
        trim_start(s.drop_first())
    } else {
        s
    }
}

/// `s` without its trailing whitespace.
pub open spec fn trim_end(s: Seq<char>) -> Seq<char>
    decreases s.len(),
{
    if s.len() > 0 && is_white_space(s.last()) {
        trim_end(s.drop_last())
    } else {
        s
    }
}

/// What `str::trim` returns: leading and trailing whitespace removed.
pub open spec fn trim(s: Seq<char>) -> Seq<char> {
    trim_end(trim_start(s))
}

/// What `str::trim_start_matches(c)` returns for a single character: every leading `c` removed.
pub open spec fn strip_leading(s: Seq<char>, c: char) -> Seq<char>
    decreases s.len(),
{
    if s.len() > 0 && s[0] == c {
        strip_leading(s.drop_first(), c)
    } else {
        s
    }
}

/// `char::to_ascii_lowercase`: `A`..`Z` become `a`..`z`, every other character is kept.
pub open spec fn ascii_lower_char(c: char) -> char {
    if 'A' <= c && c <= 'Z' {
        ((c as u32) + 32) as char
    } else {
        c
    }
}

/// `str::to_ascii_lowercase`.
pub open spec fn ascii_lowercase(s: Seq<char>) -> Seq<char> {
    s.map_values(|c: char| ascii_lower_char(c))
}

/// `str::eq_ignore_ascii_case`.
pub open spec fn eq_ignore_ascii_case(a: Seq<char>, b: Seq<char>) -> bool {
    ascii_lowercase(a) == ascii_lowercase(b)
}

/// A handle as the rosters and the badge rules compare it: trimmed, without leading `@`,
/// ASCII-lowercased.
pub open spec fn normalize_handle(s: Seq<char>) -> Seq<char> {
    ascii_lowercase(strip_leading(trim(s), '@'))
}

/// `s` begins with `prefix`.
pub open spec fn starts_with(s: Seq<char>, prefix: Seq<char>) -> bool {
    prefix.len() <= s.len() && s.subrange(0, prefix.len() as int) == prefix
}

/// `needle` occurs somewhere in `s` as a contiguous run.
pub open spec fn contains_run(s: Seq<char>, needle: Seq<char>) -> bool {
    exists|i: int| 0 <= i && i + needle.len() <= s.len() && #[trigger] s.subrange(i, i + needle.len()) == needle
}

proof fn lemma_trim_start_lower(s: Seq<char>)
    ensures
        trim_start(ascii_lowercase(s)) == ascii_lowercase(trim_start(s)),
    decreases s.len(),
{
    if s.len() > 0 {
        assert(ascii_lowercase(s)[0] == ascii_lower_char(s[0]));
        assert(ascii_lowercase(s).drop_first() == ascii_lowercase(s.drop_first()));
        lemma_trim_start_lower(s.drop_first());
    }
}

proof fn lemma_trim_end_lower(s: Seq<char>)
    ensures
        trim_end(ascii_lowercase(s)) == ascii_lowercase(trim_end(s)),
    decreases s.len(),
{
    if s.len() > 0 {
        assert(ascii_lowercase(s).last() == ascii_lower_char(s.last()));
        assert(ascii_lowercase(s).drop_last() == ascii_lowercase(s.drop_last()));
        lemma_trim_end_lower(s.drop_last());
    }
}

proof fn lemma_strip_leading_lower(s: Seq<char>)
    ensures
        strip_leading(ascii_lowercase(s), '@') == ascii_lowercase(strip_leading(s, '@')),
    decreases s.len(),
{
    if s.len() > 0 {
        assert(ascii_lowercase(s)[0] == ascii_lower_char(s[0]));
        assert(ascii_lowercase(s).drop_first() == ascii_lowercase(s.drop_first()));
        lemma_strip_leading_lower(s.drop_first());
    }
}

proof fn lemma_lower_idempotent(s: Seq<char>)
    ensures
        ascii_lowercase(ascii_lowercase(s)) == ascii_lowercase(s),
{
    assert forall|k: int| 0 <= k < s.len() implies #[trigger] ascii_lowercase(ascii_lowercase(s))[k]
        == ascii_lowercase(s)[k] by {
        let c = s[k];
        if 'A' <= c && c <= 'Z' {
            assert(((c as u32) + 32) as char > 'Z');
        }
    }
    assert(ascii_lowercase(ascii_lowercase(s)) =~= ascii_lowercase(s));
}

/// Handle matching ignores ASCII case: a handle and its lowercase form normalize alike.
pub proof fn lemma_normalize_ignores_ascii_case(s: Seq<char>)
    ensures
        normalize_handle(ascii_lowercase(s)) == normalize_handle(s),
{
    lemma_trim_start_lower(s);
    lemma_trim_end_lower(trim_start(s));
    lemma_strip_leading_lower(trim(s));
    lemma_lower_idempotent(strip_leading(trim(s), '@'));
}

pub open spec fn all_white_space(s: Seq<char>) -> bool {
    forall|k: int| 0 <= k < s.len() ==> is_white_space(#[trigger] s[k])
}

proof fn lemma_trim_start_ws_prefix(pre: Seq<char>, y: Seq<char>)
    requires
        all_white_space(pre),
    ensures
        trim_start(pre + y) == trim_start(y),
    decreases pre.len(),
{
    if pre.len() > 0 {
        assert((pre + y)[0] == pre[0]);
        assert((pre + y).drop_first() == pre.drop_first() + y);
        lemma_trim_start_ws_prefix(pre.drop_first(), y);
    } else {
        assert(pre + y == y);
    }
}

proof fn lemma_trim_end_ws_suffix(z: Seq<char>, post: Seq<char>)
    requires
        all_white_space(post),
    ensures
        trim_end(z + post) == trim_end(z),
    decreases post.len(),
{
    if post.len() > 0 {
        assert((z + post).last() == post.last());
        assert((z + post).drop_last() == z + post.drop_last());
        lemma_trim_end_ws_suffix(z, post.drop_last());
    } else {
        assert(z + post == z);
    }
}

proof fn lemma_trim_start_concat(x: Seq<char>, y: Seq<char>)
    ensures
        trim_start(x + y) == if trim_start(x).len() > 0 {
            trim_start(x) + y
        } else {
            trim_start(y)
        },
    decreases x.len(),
{
    if x.len() > 0 {
        assert((x + y)[0] == x[0]);
        if is_white_space(x[0]) {
            assert((x + y).drop_first() == x.drop_first() + y);
            lemma_trim_start_concat(x.drop_first(), y);
        }
    } else {
        assert(x + y == y);
    }
}

proof fn lemma_trim_start_all_ws(s: Seq<char>)
    requires
        all_white_space(s),
    ensures
        trim_start(s).len() == 0,
    decreases s.len(),
{
    if s.len() > 0 {
        lemma_trim_start_all_ws(s.drop_first());
    }
}

/// Handle matching ignores surrounding whitespace: padding a handle with whitespace on either
/// side does not change its normalized form.
pub proof fn lemma_normalize_ignores_padding(pre: Seq<char>, x: Seq<char>, post: Seq<char>)
    requires
        all_white_space(pre),
        all_white_space(post),
    ensures
        normalize_handle(pre + x + post) == normalize_handle(x),
{
    assert(pre + x + post == pre + (x + post));
    lemma_trim_start_ws_prefix(pre, x + post);
    lemma_trim_start_concat(x, post);
    if trim_start(x).len() > 0 {
        lemma_trim_end_ws_suffix(trim_start(x), post);
    } else {
        lemma_trim_start_all_ws(post);
    }
}

proof fn lemma_trim_end_after_non_ws(c: char, x: Seq<char>)
    requires
        !is_white_space(c),
    ensures
        trim_end(seq![c] + x) == seq![c] + trim_end(x),
    decreases x.len(),
{
    if x.len() > 0 {
        assert((seq![c] + x).last() == x.last());
        assert((seq![c] + x).drop_last() == seq![c] + x.drop_last());
        if is_white_space(x.last()) {
            lemma_trim_end_after_non_ws(c, x.drop_last());
        }
    } else {
        assert(seq![c] + x == seq![c]);
    }
}

proof fn lemma_strip_leading_after(c: char, x: Seq<char>)
    ensures
        strip_leading(seq![c] + x, c) == strip_leading(x, c),
{
    assert((seq![c] + x).drop_first() == x);
}

/// Handle matching ignores a leading `@`: a handle that does not begin with whitespace
/// normalizes alike with and without an `@` in front.
pub proof fn lemma_normalize_ignores_at_sign(x: Seq<char>)
    requires
        x.len() == 0 || !is_white_space(x[0]),
    ensures
        normalize_handle(seq!['@'] + x) == normalize_handle(x),
{
    let at = seq!['@'] + x;
    assert(at[0] == '@');
    assert(trim_start(at) == at);
    assert(trim_start(x) == x);
    lemma_trim_end_after_non_ws('@', x);
    lemma_strip_leading_after('@', trim_end(x));
}

/// A character a stored handle may hold: an ASCII lowercase letter, a digit or `_`.
pub open spec fn is_handle_char(c: char) -> bool {
    ('a' <= c && c <= 'z') || ('0' <= c && c <= '9') || c == '_'
}

/// Every character of `s` is one a stored handle may hold.
pub open spec fn is_plain_handle(s: Seq<char>) -> bool {
    forall|i: int| 0 <= i < s.len() ==> is_handle_char(#[trigger] s[i])
}

/// A handle of lowercase letters, digits and `_` is its own normalized form.
pub proof fn lemma_plain_handle_is_normalized(s: Seq<char>)
    requires
        is_plain_handle(s),
    ensures
        normalize_handle(s) == s,
{
    if s.len() > 0 {
        assert(is_handle_char(s[0]));
        assert(is_handle_char(s.last()));
    }
    assert(trim_start(s) == s);
    assert(trim_end(s) == s);
    assert(strip_leading(s, '@') == s);
    assert forall|i: int| 0 <= i < s.len() implies #[trigger] ascii_lowercase(s)[i] == s[i] by {
        assert(is_handle_char(s[i]));
    }
    assert(ascii_lowercase(s) =~= s);
}

/// The characters of a string slice, in order.
pub fn chars_of(s: &str) -> (out: Vec<char>)
    ensures
        out@ == s@,
{
    let mut out: Vec<char> = Vec::new();
    for c in it: s.chars()
        invariant
            it.seq() == s@,
            out@ == it.seq().take(it.index() as int),
    {
        out.push(c);
    }
    out
}

/// A copy of `s[start..end]`.
pub fn slice_chars(s: &Vec<char>, start: usize, end: usize) -> (out: Vec<char>)
    requires
        start <= end <= s.len(),
    ensures
        out@ == s@.subrange(start as int, end as int),
{
    let mut out: Vec<char> = Vec::new();
    let mut i: usize = start;
    while i < end
        invariant
            start <= i <= end <= s.len(),
            out@ == s@.subrange(start as int, i as int),
        decreases end - i,
    {
        out.push(s[i]);
        i += 1;
    }
    out
}

pub fn chars_eq(a: &Vec<char>, b: &Vec<char>) -> (r: bool)
    ensures
        r == (a@ == b@),
{
    if a.len() != b.len() {
        return false;
    }
    let mut i: usize = 0;
    while i < a.len()
        invariant
            a.len() == b.len(),
            i <= a.len(),
            a@.take(i as int) == b@.take(i as int),
        decreases a.len() - i,
    {
        if a[i] != b[i] {
            assert(a@[i as int] != b@[i as int]);
            return false;
        }
        assert(a@.take(i + 1) == a@.take(i as int).push(a@[i as int]));
        assert(b@.take(i + 1) == b@.take(i as int).push(b@[i as int]));
        i += 1;
    }
    assert(a@ == a@.take(a.len() as int));
    assert(b@ == b@.take(b.len() as int));
    true
}

proof fn lemma_trim_start_skip(s: Seq<char>, i: int)
    requires
        0 <= i <= s.len(),
        forall|k: int| 0 <= k < i ==> is_white_space(#[trigger] s[k]),
    ensures
        trim_start(s) == trim_start(s.skip(i)),
    decreases i,
{
    if i > 0 {
        assert(s.drop_first().skip(i - 1) == s.skip(i));
        lemma_trim_start_skip(s.drop_first(), i - 1);
    } else {
        assert(s.skip(0) == s);
    }
}

proof fn lemma_trim_end_take(s: Seq<char>, j: int)
    requires
        0 <= j <= s.len(),
        forall|k: int| j <= k < s.len() ==> is_white_space(#[trigger] s[k]),
    ensures
        trim_end(s) == trim_end(s.take(j)),
    decreases s.len() - j,
{
    if j < s.len() {
        assert(s.drop_last().take(j) == s.take(j));
        lemma_trim_end_take(s.drop_last(), j);
    } else {
        assert(s.take(j) == s);
    }
}

proof fn lemma_strip_leading_skip(s: Seq<char>, c: char, i: int)
    requires
        0 <= i <= s.len(),
        forall|k: int| 0 <= k < i ==> #[trigger] s[k] == c,
    ensures
        strip_leading(s, c) == strip_leading(s.skip(i), c),
    decreases i,
{
    if i > 0 {
        assert(s.drop_first().skip(i - 1) == s.skip(i));
        lemma_strip_leading_skip(s.drop_first(), c, i - 1);
    } else {
        assert(s.skip(0) == s);
    }
}

/// `str::trim`.
pub fn trim_chars(s: &Vec<char>) -> (out: Vec<char>)
    ensures
        out@ == trim(s@),
{
    let mut start: usize = 0;
    while start < s.len() && is_whitespace_char(s[start])
        invariant
            start <= s.len(),
            forall|k: int| 0 <= k < start ==> is_white_space(#[trigger] s@[k]),
        decreases s.len() - start,
    {
        start += 1;
    }
    proof {
        lemma_trim_start_skip(s@, start as int);
    }
    let ghost rest = s@.skip(start as int);
    let mut end: usize = s.len();
    while end > start && is_whitespace_char(s[end - 1])
        invariant
            start <= end <= s.len(),
            rest == s@.skip(start as int),
            forall|k: int| end <= k < s.len() ==> is_white_space(#[trigger] s@[k]),
        decreases end - start,
    {
        end -= 1;
    }
    proof {
        lemma_trim_end_take(rest, end - start);
        assert(rest.take(end - start) == s@.subrange(start as int, end as int));
        if rest.take(end - start).len() > 0 {
            assert(rest.take(end - start)[0] == s@[start as int]);
            assert(rest.take(end - start).last() == s@[end - 1]);
        }
        if start < s.len() {
            assert(rest[0] == s@[start as int]);
        }
    }
    slice_chars(s, start, end)
}

/// `str::trim_start_matches(c)`.
pub fn strip_leading_chars(s: &Vec<char>, c: char) -> (out: Vec<char>)
    ensures
        out@ == strip_leading(s@, c),
{
    let mut start: usize = 0;
    while start < s.len() && s[start] == c
        invariant
            start <= s.len(),
            forall|k: int| 0 <= k < start ==> #[trigger] s@[k] == c,
        decreases s.len() - start,
    {
        start += 1;
    }
    proof {
        lemma_strip_leading_skip(s@, c, start as int);
        if start < s.len() {
            assert(s@.skip(start as int)[0] == s@[start as int]);
        }
        assert(s@.skip(start as int) == s@.subrange(start as int, s.len() as int));
    }
    slice_chars(s, start, s.len())
}

pub fn ascii_lower(c: char) -> (r: char)
    ensures
        r == ascii_lower_char(c),
{
    if 'A' <= c && c <= 'Z' {
        let b: u8 = c as u8;
        let r = (b + 32) as char;
        assert(r == ((c as u32) + 32) as char);
        r
    } else {
        c
    }
}

/// `str::to_ascii_lowercase`.
pub fn ascii_lowercase_chars(s: &Vec<char>) -> (out: Vec<char>)
    ensures
        out@ == ascii_lowercase(s@),
{
    let mut out: Vec<char> = Vec::new();
    let mut i: usize = 0;
    while i < s.len()
        invariant
            i <= s.len(),
            out@ == ascii_lowercase(s@.take(i as int)),
        decreases s.len() - i,
    {
        out.push(ascii_lower(s[i]));
        assert(ascii_lowercase(s@.take(i + 1)) == ascii_lowercase(s@.take(i as int)).push(
            ascii_lower_char(s@[i as int]),
        ));
        i += 1;
    }
    assert(s@.take(s.len() as int) == s@);
    out
}

/// `str::eq_ignore_ascii_case`.
pub fn eq_ignore_ascii_case_chars(a: &Vec<char>, b: &Vec<char>) -> (r: bool)
    ensures
        r == eq_ignore_ascii_case(a@, b@),
{
    chars_eq(&ascii_lowercase_chars(a), &ascii_lowercase_chars(b))
}

/// The handle normalization of the rosters and of the badge rules.
pub fn normalize_handle_chars(s: &Vec<char>) -> (out: Vec<char>)
    ensures
        out@ == normalize_handle(s@),
{
    let trimmed = trim_chars(s);
    let stripped = strip_leading_chars(&trimmed, '@');
    ascii_lowercase_chars(&stripped)
}


/// What separates the pieces of a text when it is split.
pub enum Separator {
    /// Unicode whitespace, as `str::split_whitespace` splits.
    Whitespace,
    /// Any character that is not alphanumeric, as `split(|c| !c.is_alphanumeric())` splits.
    NonAlphanumeric,
}

pub open spec fn is_separator(sep: Separator, c: char) -> bool {
    match sep {
        Separator::Whitespace => is_white_space(c),
        Separator::NonAlphanumeric => !crate::unicode::char_is_alphanumeric(c),
    }
}

/// What `str::split` yields for a character predicate: the runs between separators, empty runs
/// included, so a text with `k` separators has `k + 1` segments.
pub open spec fn split_segments(s: Seq<char>, sep: Separator) -> Seq<Seq<char>>
    decreases s.len(),
{
    if s.len() == 0 {
        seq![Seq::<char>::empty()]
    } else {
        let prev = split_segments(s.drop_last(), sep);
        if is_separator(sep, s.last()) {
            prev.push(Seq::<char>::empty())
        } else {
            prev.update(prev.len() - 1, prev.last().push(s.last()))
        }
    }
}

/// The number of characters over all the pieces.
pub open spec fn total_len(ws: Seq<Seq<char>>) -> nat
    decreases ws.len(),
{
    if ws.len() == 0 {
        0
    } else {
        total_len(ws.drop_last()) + ws.last().len()
    }
}

/// Splitting cuts at every separator and nowhere else: no segment holds a separator, there is
/// one segment more than the text has separators, and the segments' characters are the text's
/// other characters, as many as there are.
pub proof fn lemma_split_segments_cut_at_separators(s: Seq<char>, sep: Separator)
    ensures
        forall|k: int, i: int|
            0 <= k < split_segments(s, sep).len() && 0 <= i < split_segments(s, sep)[k].len()
                ==> !is_separator(sep, #[trigger] split_segments(s, sep)[k][i]),
        split_segments(s, sep).len() == 1 + s.filter(|c: char| is_separator(sep, c)).len(),
        total_len(split_segments(s, sep)) + s.filter(|c: char| is_separator(sep, c)).len() == s.len(),
    decreases s.len(),
{
    reveal(Seq::filter);
    if s.len() == 0 {
        let one = split_segments(s, sep);
        assert(one == seq![Seq::<char>::empty()]);
        assert(one.drop_last() =~= Seq::<Seq<char>>::empty());
        assert(total_len(one.drop_last()) == 0);
        assert(one.last().len() == 0);
        assert(s.filter(|c: char| is_separator(sep, c)).len() == 0);
    } else {
        let rest = s.drop_last();
        lemma_split_segments_cut_at_separators(rest, sep);
        let prev = split_segments(rest, sep);
        let cur = split_segments(s, sep);
        assert(rest =~= s.drop_last());
        if !is_separator(sep, s.last()) {
            assert(s.filter(|c: char| is_separator(sep, c)) == rest.filter(|c: char| is_separator(sep, c)));
            assert(cur.drop_last() =~= prev.drop_last());
            assert(total_len(prev) == total_len(prev.drop_last()) + prev.last().len());
            assert(cur.last() == prev.last().push(s.last()));
            assert(total_len(cur) == total_len(cur.drop_last()) + cur.last().len());
            assert forall|k: int, i: int|
                0 <= k < cur.len() && 0 <= i < cur[k].len() implies !is_separator(sep, #[trigger] cur[k][i]) by {
                if k < prev.len() - 1 {
                    assert(cur[k] == prev[k]);
                } else if i < prev.last().len() {
                    assert(cur[k][i] == prev.last()[i]);
                }
            }
        } else {
            assert(cur.drop_last() =~= prev);
            assert(total_len(cur) == total_len(prev));
            assert(s.filter(|c: char| is_separator(sep, c)).len() == rest.filter(|c: char| is_separator(sep, c)).len()
                + 1);
            assert forall|k: int, i: int|
                0 <= k < cur.len() && 0 <= i < cur[k].len() implies !is_separator(sep, #[trigger] cur[k][i]) by {
                assert(cur[k] == prev[k]);
            }
        }
    }
}

/// Keeps the non-empty pieces.
pub open spec fn nonempty_piece(w: Seq<char>) -> Option<Seq<char>> {
    if w.len() > 0 {
        Some(w)
    } else {
        None
    }
}

/// What `str::split_whitespace` yields: the maximal runs of non-whitespace characters.
pub open spec fn words(s: Seq<char>) -> Seq<Seq<char>> {
    split_segments(s, Separator::Whitespace).filter_map(|w: Seq<char>| nonempty_piece(w))
}

/// The words joined with a single space between each two, as `[..].join(" ")` does.
pub open spec fn join_with_spaces(ws: Seq<Seq<char>>) -> Seq<char>
    decreases ws.len(),
{
    if ws.len() == 0 {
        Seq::<char>::empty()
    } else if ws.len() == 1 {
        ws[0]
    } else {
        join_with_spaces(ws.drop_last()) + seq![' '] + ws.last()
    }
}

/// Joining puts exactly one space between each two pieces and nothing else: the result holds the
/// pieces' characters and one space fewer than there are pieces, and it begins with the first
/// piece and ends with the last.
pub proof fn lemma_join_with_spaces_shape(ws: Seq<Seq<char>>)
    requires
        ws.len() > 0,
    ensures
        join_with_spaces(ws).len() == total_len(ws) + ws.len() - 1,
        ws[0].len() <= total_len(ws),
        join_with_spaces(ws).subrange(0, ws[0].len() as int) == ws[0],
        join_with_spaces(ws).subrange(join_with_spaces(ws).len() - ws.last().len(), join_with_spaces(ws).len() as int)
            == ws.last(),
    decreases ws.len(),
{
    if ws.len() == 1 {
        assert(ws.drop_last() =~= Seq::<Seq<char>>::empty());
        assert(total_len(ws.drop_last()) == 0);
        assert(join_with_spaces(ws).subrange(0, ws[0].len() as int) =~= ws[0]);
    } else {
        let rest = ws.drop_last();
        lemma_join_with_spaces_shape(rest);
        let j = join_with_spaces(rest);
        let all = join_with_spaces(ws);
        assert(all == j + seq![' '] + ws.last());
        assert(rest[0] == ws[0]);
        assert(all.subrange(0, ws[0].len() as int) =~= j.subrange(0, ws[0].len() as int));
        assert(all.subrange(all.len() - ws.last().len(), all.len() as int) =~= ws.last());
    }
}

/// The deep view of a vector of character vectors.
pub open spec fn pieces_view(v: Seq<Vec<char>>) -> Seq<Seq<char>> {
    v.map_values(|w: Vec<char>| w@)
}

pub fn is_separator_char(sep: &Separator, c: char) -> (r: bool)
    ensures
        r == is_separator(*sep, c),
{
    match sep {
        Separator::Whitespace => is_whitespace_char(c),
        Separator::NonAlphanumeric => !crate::unicode::is_alphanumeric(c),
    }
}

/// `str::split` with a character predicate.
pub fn split_chars(s: &Vec<char>, sep: Separator) -> (out: Vec<Vec<char>>)
    ensures
        pieces_view(out@) == split_segments(s@, sep),
{
    let mut out: Vec<Vec<char>> = Vec::new();
    let mut cur: Vec<char> = Vec::new();
    let mut i: usize = 0;
    assert(s@.take(0) == Seq::<char>::empty());
    while i < s.len()
        invariant
            i <= s.len(),
            pieces_view(out@).push(cur@) == split_segments(s@.take(i as int), sep),
        decreases s.len() - i,
    {
        let c = s[i];
        let ghost before = pieces_view(out@).push(cur@);
        assert(s@.take(i + 1).drop_last() == s@.take(i as int));
        assert(s@.take(i + 1).last() == c);
        if is_separator_char(&sep, c) {
            let done = cur;
            cur = Vec::new();
            out.push(done);
            assert(pieces_view(out@) == before);
        } else {
            cur.push(c);
            assert(pieces_view(out@).push(cur@) == before.update(before.len() - 1, before.last().push(c)));
        }
        i += 1;
    }
    assert(s@.take(s.len() as int) == s@);
    out.push(cur);
    assert(pieces_view(out@) == split_segments(s@, sep));
    out
}

/// `str::split_whitespace`, collected.
pub fn words_of(s: &Vec<char>) -> (out: Vec<Vec<char>>)
    ensures
        pieces_view(out@) == words(s@),
{
    let segments = split_chars(s, Separator::Whitespace);
    let ghost segs = pieces_view(segments@);
    let mut out: Vec<Vec<char>> = Vec::new();
    for segment in it: segments.into_iter()
        invariant
            it.seq() == segments@,
            segs == pieces_view(segments@),
            pieces_view(out@) == segs.take(it.index() as int).filter_map(|w: Seq<char>| nonempty_piece(w)),
    {
        let ghost k = it.index();
        assert(segs.take(k + 1).drop_last() == segs.take(k));
        assert(segs.take(k + 1).last() == segment@);
        if segment.len() > 0 {
            out.push(segment);
        }
        assert(pieces_view(out@) == segs.take(k + 1).filter_map(|w: Seq<char>| nonempty_piece(w)));
    }
    assert(segs.take(segs.len() as int) == segs);
    out
}

/// The words joined with single spaces.
pub fn join_with_spaces_chars(ws: &Vec<Vec<char>>) -> (out: Vec<char>)
    ensures
        out@ == join_with_spaces(pieces_view(ws@)),
{
    let mut out: Vec<char> = Vec::new();
    let mut i: usize = 0;
    while i < ws.len()
        invariant
            i <= ws.len(),
            out@ == join_with_spaces(pieces_view(ws@).take(i as int)),
        decreases ws.len() - i,
    {
        let ghost prefix = pieces_view(ws@).take(i + 1);
        assert(prefix.drop_last() == pieces_view(ws@).take(i as int));
        assert(prefix.last() == ws@[i as int]@);
        if i > 0 {
            out.push(' ');
        }
        let w = &ws[i];
        let mut j: usize = 0;
        let ghost start = out@;
        while j < w.len()
            invariant
                j <= w.len(),
                out@ == start + w@.take(j as int),
            decreases w.len() - j,
        {
            out.push(w[j]);
            assert(w@.take(j + 1) == w@.take(j as int).push(w@[j as int]));
            j += 1;
        }
        assert(w@.take(w.len() as int) == w@);
        i += 1;
    }
    assert(pieces_view(ws@).take(ws.len() as int) == pieces_view(ws@));
    out
}

/// `s` begins with `prefix`.
pub fn starts_with_chars(s: &Vec<char>, prefix: &Vec<char>) -> (r: bool)
    ensures
        r == starts_with(s@, prefix@),
{
    if prefix.len() > s.len() {
        return false;
    }
    let head = slice_chars(s, 0, prefix.len());
    chars_eq(&head, prefix)
}

/// `needle` occurs in `s`, as `str::contains` with a string pattern answers.
pub fn contains_run_chars(s: &Vec<char>, needle: &Vec<char>) -> (r: bool)
    ensures
        r == contains_run(s@, needle@),
{
    if needle.len() > s.len() {
        return false;
    }
    let last: usize = s.len() - needle.len();
    let mut i: usize = 0;
    loop
        invariant
            last == s.len() - needle.len(),
            i <= last,
            forall|k: int| 0 <= k < i ==> #[trigger] s@.subrange(k, k + needle@.len()) != needle@,
        decreases last - i,
    {
        let piece = slice_chars(s, i, i + needle.len());
        if chars_eq(&piece, needle) {
            return true;
        }
        if i == last {
            return false;
        }
        i += 1;
    }
}


/// The character sequences that a list of string slices spells.
pub open spec fn roster_view(r: Seq<&str>) -> Seq<Seq<char>> {
    r.map_values(|e: &str| e@)
}

/// Whether the list holds an entry that spells exactly `name`.
pub fn roster_contains(roster: &Vec<&str>, name: &Vec<char>) -> (r: bool)
    ensures
        r == roster_view(roster@).contains(name@),
{
    let mut i: usize = 0;
    while i < roster.len()
        invariant
            i <= roster.len(),
            forall|k: int| 0 <= k < i ==> #[trigger] roster@[k]@ != name@,
        decreases roster.len() - i,
    {
        let entry = chars_of(roster[i]);
        if chars_eq(&entry, name) {
            assert(roster_view(roster@)[i as int] == name@);
            return true;
        }
        i += 1;
    }
    assert forall|k: int| 0 <= k < roster_view(roster@).len() implies roster_view(roster@)[k] != name@ by {
        assert(roster_view(roster@)[k] == roster@[k]@);
    }
    false
}


} // verus!
