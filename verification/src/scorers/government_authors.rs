//! Government accounts subject to feed-policy downranking.
//!
//! "Domestic" means the United States. The current Trump administration is an explicit exception
//! to that domestic-government exemption. Foreign-government coverage is an auditable exact-match
//! roster of national executive, head-of-government and foreign-affairs accounts; it is seeded
//! across the non-U.S. G20 and additional high-volume governments. State-controlled media is
//! deliberately excluded.
//!
//! Both the visible account handle and the parent handle from an affiliate badge are checked.
//! Reposts are checked too because they carry the same content. Missing hydration and accounts not
//! on a roster fail open.

use vstd::prelude::*;
use crate::candidate::PostCandidate;
use crate::text::{
    chars_of, is_plain_handle, lemma_plain_handle_is_normalized, normalize_handle, normalize_handle_chars,
    roster_contains, roster_view,
};
use crate::unicode::string_from_chars;

verus! {

pub open spec fn trump_administration_roster() -> Seq<Seq<char>> {
    seq![
        "whitehouse"@,
        "potus"@,
        "realdonaldtrump"@,
        "rapidresponse47"@,
        "vp"@,
        "jdvance"@,
        "presssec"@,
        "flotus"@,
        "melaniatrump"@,
        "firstladyoffice"@,
        "slotus"@,
    ]
}

pub open spec fn foreign_government_roster() -> Seq<Seq<char>> {
    seq![
        "oprargentina"@,
        "jmilei"@,
        "ausgov"@,
        "albomp"@,
        "govbrazil"@,
        "lulaoficial"@,
        "canadianpm"@,
        "markjcarney"@,
        "mfa_china"@,
        "elysee"@,
        "emmanuelmacron"@,
        "bundeskanzler"@,
        "germanydiplo"@,
        "pmoindia"@,
        "narendramodi"@,
        "setkabgoid"@,
        "prabowo"@,
        "palazzo_chigi"@,
        "giorgiameloni"@,
        "jpn_pmo"@,
        "mofajapan_en"@,
        "gobiernomx"@,
        "claudiashein"@,
        "kremlinrussia_e"@,
        "mfa_russia"@,
        "ksamofaen"@,
        "presidencyza"@,
        "governmentza"@,
        "president_kr"@,
        "tcbestepe"@,
        "rterdogan"@,
        "mfaturkiye"@,
        "10downingstreet"@,
        "keir_starmer"@,
        "fcdogovuk"@,
        "eu_commission"@,
        "eucouncil"@,
        "vonderleyen"@,
        "zelenskyyua"@,
        "ukraine"@,
        "mfa_ukraine"@,
        "israel"@,
        "israelmfa"@,
        "netanyahu"@,
        "khamenei_ir"@,
        "irimfa_en"@,
        "taiwanpresident"@,
        "mofa_taiwan"@,
    ]
}

pub fn trump_administration_handles() -> (handles: Vec<&'static str>)
    ensures
        roster_view(handles@) == trump_administration_roster(),
{
    let handles = vec![
        "whitehouse",
        "potus",
        "realdonaldtrump",
        "rapidresponse47",
        "vp",
        "jdvance",
        "presssec",
        "flotus",
        "melaniatrump",
        "firstladyoffice",
        "slotus",
    ];
    assert(roster_view(handles@) == trump_administration_roster());
    handles
}

pub fn foreign_government_handles() -> (handles: Vec<&'static str>)
    ensures
        roster_view(handles@) == foreign_government_roster(),
{
    let handles = vec![
        "oprargentina",
        "jmilei",
        "ausgov",
        "albomp",
        "govbrazil",
        "lulaoficial",
        "canadianpm",
        "markjcarney",
        "mfa_china",
        "elysee",
        "emmanuelmacron",
        "bundeskanzler",
        "germanydiplo",
        "pmoindia",
        "narendramodi",
        "setkabgoid",
        "prabowo",
        "palazzo_chigi",
        "giorgiameloni",
        "jpn_pmo",
        "mofajapan_en",
        "gobiernomx",
        "claudiashein",
        "kremlinrussia_e",
        "mfa_russia",
        "ksamofaen",
        "presidencyza",
        "governmentza",
        "president_kr",
        "tcbestepe",
        "rterdogan",
        "mfaturkiye",
        "10downingstreet",
        "keir_starmer",
        "fcdogovuk",
        "eu_commission",
        "eucouncil",
        "vonderleyen",
        "zelenskyyua",
        "ukraine",
        "mfa_ukraine",
        "israel",
        "israelmfa",
        "netanyahu",
        "khamenei_ir",
        "irimfa_en",
        "taiwanpresident",
        "mofa_taiwan",
    ];
    assert(roster_view(handles@) == foreign_government_roster());
    handles
}

/// A handle trimmed, without leading `@`, ASCII-lowercased.
pub fn normalize(handle: &str) -> (out: String)
    ensures
        out@ == normalize_handle(handle@),
{
    string_from_chars(&normalize_handle_chars(&chars_of(handle)))
}

/// The handle, normalized, is an entry of the roster: an exact match, never a substring.
pub fn is_listed(handle: &str, roster: &Vec<&str>) -> (r: bool)
    ensures
        r == roster_view(roster@).contains(normalize_handle(handle@)),
{
    let normalized = normalize_handle_chars(&chars_of(handle));
    roster_contains(roster, &normalized)
}

pub open spec fn present(o: Option<String>) -> Seq<Seq<char>> {
    match o {
        Some(s) => seq![s@],
        None => Seq::<Seq<char>>::empty(),
    }
}

/// The screen names a post shows: its author's and that of the account it reposts, where
/// hydrated.
pub open spec fn screen_names_of(c: PostCandidate) -> Seq<Seq<char>> {
    present(c.author_screen_name) + present(c.retweeted_screen_name)
}

/// The parent handles of the affiliate badges of the author and of the reposted account, where
/// hydrated.
pub open spec fn affiliate_handles_of(c: PostCandidate) -> Seq<Seq<char>> {
    present(c.author_affiliate_handle) + present(c.retweeted_affiliate_handle)
}

/// Some screen name or badge handle of the post is, normalized, on the roster.
pub open spec fn on_roster(c: PostCandidate, roster: Seq<Seq<char>>) -> bool {
    exists|k: int|
        0 <= k < handles_of(c).len() && roster.contains(normalize_handle(#[trigger] handles_of(c)[k]))
}

/// Every handle of the post that the rosters are checked against.
pub open spec fn handles_of(c: PostCandidate) -> Seq<Seq<char>> {
    screen_names_of(c) + affiliate_handles_of(c)
}

pub open spec fn str_views(v: Seq<&str>) -> Seq<Seq<char>> {
    v.map_values(|s: &str| s@)
}

fn push_present<'a>(out: &mut Vec<&'a str>, o: &'a Option<String>)
    ensures
        str_views(final(out)@) == str_views(old(out)@) + present(*o),
{
    match o {
        Some(s) => {
            out.push(s.as_str());
        },
        None => {},
    }
    assert(str_views(final(out)@) == str_views(old(out)@) + present(*o));
}

pub fn screen_names<'a>(candidate: &'a PostCandidate) -> (names: Vec<&'a str>)
    ensures
        str_views(names@) == screen_names_of(*candidate),
{
    let mut names: Vec<&'a str> = Vec::new();
    push_present(&mut names, &candidate.author_screen_name);
    push_present(&mut names, &candidate.retweeted_screen_name);
    assert(str_views(Seq::<&str>::empty()) == Seq::<Seq<char>>::empty());
    names
}

pub fn affiliate_handles<'a>(candidate: &'a PostCandidate) -> (handles: Vec<&'a str>)
    ensures
        str_views(handles@) == affiliate_handles_of(*candidate),
{
    let mut handles: Vec<&'a str> = Vec::new();
    push_present(&mut handles, &candidate.author_affiliate_handle);
    push_present(&mut handles, &candidate.retweeted_affiliate_handle);
    assert(str_views(Seq::<&str>::empty()) == Seq::<Seq<char>>::empty());
    handles
}

pub fn matches_roster(candidate: &PostCandidate, roster: &Vec<&str>) -> (r: bool)
    ensures
        r == on_roster(*candidate, roster_view(roster@)),
{
    let mut handles = screen_names(candidate);
    let mut badges = affiliate_handles(candidate);
    handles.append(&mut badges);
    let ghost all = handles_of(*candidate);
    assert(str_views(handles@) == all);
    let mut k: usize = 0;
    while k < handles.len()
        invariant
            k <= handles.len(),
            str_views(handles@) == all,
            all == handles_of(*candidate),
            forall|m: int| 0 <= m < k ==> !roster_view(roster@).contains(normalize_handle(#[trigger] all[m])),
        decreases handles.len() - k,
    {
        assert(all[k as int] == handles@[k as int]@);
        if is_listed(handles[k], roster) {
            assert(roster_view(roster@).contains(normalize_handle(all[k as int])));
            return true;
        }
        k += 1;
    }
    false
}

pub fn is_trump_administration(candidate: &PostCandidate) -> (r: bool)
    ensures
        r == on_roster(*candidate, trump_administration_roster()),
{
    matches_roster(candidate, &trump_administration_handles())
}

pub fn is_foreign_government(candidate: &PostCandidate) -> (r: bool)
    ensures
        r == on_roster(*candidate, foreign_government_roster()),
{
    matches_roster(candidate, &foreign_government_handles())
}

/// Fails open: a post with none of its four handles hydrated is on no roster.
pub proof fn lemma_unhydrated_is_on_no_roster(c: PostCandidate, roster: Seq<Seq<char>>)
    requires
        c.author_screen_name is None,
        c.retweeted_screen_name is None,
        c.author_affiliate_handle is None,
        c.retweeted_affiliate_handle is None,
    ensures
        !on_roster(c, roster),
{
    assert(handles_of(c) == Seq::<Seq<char>>::empty());
}

/// A repost carries the classification of the account it reposts: when the reposted account's
/// screen name and badge are those of a post on the roster, the repost is on the roster too,
/// whoever reposted it.
pub proof fn lemma_repost_carries_classification(
    original: PostCandidate,
    repost: PostCandidate,
    roster: Seq<Seq<char>>,
)
    requires
        original.retweeted_screen_name is None,
        original.retweeted_affiliate_handle is None,
        repost.retweeted_screen_name == original.author_screen_name,
        repost.retweeted_affiliate_handle == original.author_affiliate_handle,
        on_roster(original, roster),
    ensures
        on_roster(repost, roster),
{
    let from = handles_of(original);
    let to = handles_of(repost);
    let k = choose|k: int| 0 <= k < from.len() && roster.contains(normalize_handle(#[trigger] handles_of(original)[k]));
    let a = present(repost.author_screen_name);
    let b = present(repost.author_affiliate_handle);
    let h = from[k];
    let o = present(original.author_screen_name);
    if k < o.len() {
        assert(to[a.len() as int] == h);
    } else {
        assert(to[(a.len() + o.len() + b.len()) as int] == h);
    }
}

/// The length, first and last character of a roster entry; no two entries share them.
spec fn entry_signature(s: Seq<char>) -> (nat, char, char) {
    (s.len(), s[0], s.last())
}

/// The rosters are stored as `is_listed` compares: every entry of either roster is its own
/// normalized form, so the handle matches it as it stands; no entry occurs twice, within a roster
/// or across the two, so a listed handle is on exactly one roster.
pub proof fn lemma_rosters_normalized_and_distinct()
    ensures
        forall|k: int|
            0 <= k < trump_administration_roster().len() ==> normalize_handle(
                #[trigger] trump_administration_roster()[k],
            ) == trump_administration_roster()[k],
        forall|k: int|
            0 <= k < foreign_government_roster().len() ==> normalize_handle(
                #[trigger] foreign_government_roster()[k],
            ) == foreign_government_roster()[k],
        (trump_administration_roster() + foreign_government_roster()).no_duplicates(),
        forall|k: int|
            0 <= k < trump_administration_roster().len() ==> !foreign_government_roster().contains(
                #[trigger] trump_administration_roster()[k],
            ),
{
    reveal_strlit("whitehouse");
    reveal_strlit("potus");
    reveal_strlit("realdonaldtrump");
    reveal_strlit("rapidresponse47");
    reveal_strlit("vp");
    reveal_strlit("jdvance");
    reveal_strlit("presssec");
    reveal_strlit("flotus");
    reveal_strlit("melaniatrump");
    reveal_strlit("firstladyoffice");
    reveal_strlit("slotus");
    reveal_strlit("oprargentina");
    reveal_strlit("jmilei");
    reveal_strlit("ausgov");
    reveal_strlit("albomp");
    reveal_strlit("govbrazil");
    reveal_strlit("lulaoficial");
    reveal_strlit("canadianpm");
    reveal_strlit("markjcarney");
    reveal_strlit("mfa_china");
    reveal_strlit("elysee");
    reveal_strlit("emmanuelmacron");
    reveal_strlit("bundeskanzler");
    reveal_strlit("germanydiplo");
    reveal_strlit("pmoindia");
    reveal_strlit("narendramodi");
    reveal_strlit("setkabgoid");
    reveal_strlit("prabowo");
    reveal_strlit("palazzo_chigi");
    reveal_strlit("giorgiameloni");
    reveal_strlit("jpn_pmo");
    reveal_strlit("mofajapan_en");
    reveal_strlit("gobiernomx");
    reveal_strlit("claudiashein");
    reveal_strlit("kremlinrussia_e");
    reveal_strlit("mfa_russia");
    reveal_strlit("ksamofaen");
    reveal_strlit("presidencyza");
    reveal_strlit("governmentza");
    reveal_strlit("president_kr");
    reveal_strlit("tcbestepe");
    reveal_strlit("rterdogan");
    reveal_strlit("mfaturkiye");
    reveal_strlit("10downingstreet");
    reveal_strlit("keir_starmer");
    reveal_strlit("fcdogovuk");
    reveal_strlit("eu_commission");
    reveal_strlit("eucouncil");
    reveal_strlit("vonderleyen");
    reveal_strlit("zelenskyyua");
    reveal_strlit("ukraine");
    reveal_strlit("mfa_ukraine");
    reveal_strlit("israel");
    reveal_strlit("israelmfa");
    reveal_strlit("netanyahu");
    reveal_strlit("khamenei_ir");
    reveal_strlit("irimfa_en");
    reveal_strlit("taiwanpresident");
    reveal_strlit("mofa_taiwan");
    let t = trump_administration_roster();
    let f = foreign_government_roster();
    let all = t + f;
    assert forall|k: int| 0 <= k < t.len() implies normalize_handle(#[trigger] t[k]) == t[k] by {
        assert(is_plain_handle(t[k]));
        lemma_plain_handle_is_normalized(t[k]);
    }
    assert forall|k: int| 0 <= k < f.len() implies normalize_handle(#[trigger] f[k]) == f[k] by {
        assert(is_plain_handle(f[k]));
        lemma_plain_handle_is_normalized(f[k]);
    }
    assert forall|i: int, j: int|
        0 <= i < all.len() && 0 <= j < all.len() && i != j implies all[i] != all[j] by {
        assert(entry_signature(all[i]) != entry_signature(all[j]));
    }
    assert forall|k: int| 0 <= k < t.len() implies !f.contains(#[trigger] t[k]) by {
        if f.contains(t[k]) {
            let m = choose|m: int| 0 <= m < f.len() && f[m] == t[k];
            assert(all[k] == all[t.len() + m]);
        }
    }
}

/// The current administration's roster holds exactly these 11 handles.
pub proof fn lemma_trump_administration_roster_entries()
    ensures
        trump_administration_roster().len() == 11,
        trump_administration_roster().contains("whitehouse"@),
        trump_administration_roster().contains("potus"@),
        trump_administration_roster().contains("realdonaldtrump"@),
        trump_administration_roster().contains("rapidresponse47"@),
        trump_administration_roster().contains("vp"@),
        trump_administration_roster().contains("jdvance"@),
        trump_administration_roster().contains("presssec"@),
        trump_administration_roster().contains("flotus"@),
        trump_administration_roster().contains("melaniatrump"@),
        trump_administration_roster().contains("firstladyoffice"@),
        trump_administration_roster().contains("slotus"@),
{
    let r = trump_administration_roster();
    assert(r[0] == "whitehouse"@);
    assert(r[1] == "potus"@);
    assert(r[2] == "realdonaldtrump"@);
    assert(r[3] == "rapidresponse47"@);
    assert(r[4] == "vp"@);
    assert(r[5] == "jdvance"@);
    assert(r[6] == "presssec"@);
    assert(r[7] == "flotus"@);
    assert(r[8] == "melaniatrump"@);
    assert(r[9] == "firstladyoffice"@);
    assert(r[10] == "slotus"@);
}

/// The foreign-government roster holds exactly these 48 handles.
pub proof fn lemma_foreign_government_roster_entries()
    ensures
        foreign_government_roster().len() == 48,
        foreign_government_roster().contains("oprargentina"@),
        foreign_government_roster().contains("jmilei"@),
        foreign_government_roster().contains("ausgov"@),
        foreign_government_roster().contains("albomp"@),
        foreign_government_roster().contains("govbrazil"@),
        foreign_government_roster().contains("lulaoficial"@),
        foreign_government_roster().contains("canadianpm"@),
        foreign_government_roster().contains("markjcarney"@),
        foreign_government_roster().contains("mfa_china"@),
        foreign_government_roster().contains("elysee"@),
        foreign_government_roster().contains("emmanuelmacron"@),
        foreign_government_roster().contains("bundeskanzler"@),
        foreign_government_roster().contains("germanydiplo"@),
        foreign_government_roster().contains("pmoindia"@),
        foreign_government_roster().contains("narendramodi"@),
        foreign_government_roster().contains("setkabgoid"@),
        foreign_government_roster().contains("prabowo"@),
        foreign_government_roster().contains("palazzo_chigi"@),
        foreign_government_roster().contains("giorgiameloni"@),
        foreign_government_roster().contains("jpn_pmo"@),
        foreign_government_roster().contains("mofajapan_en"@),
        foreign_government_roster().contains("gobiernomx"@),
        foreign_government_roster().contains("claudiashein"@),
        foreign_government_roster().contains("kremlinrussia_e"@),
        foreign_government_roster().contains("mfa_russia"@),
        foreign_government_roster().contains("ksamofaen"@),
        foreign_government_roster().contains("presidencyza"@),
        foreign_government_roster().contains("governmentza"@),
        foreign_government_roster().contains("president_kr"@),
        foreign_government_roster().contains("tcbestepe"@),
        foreign_government_roster().contains("rterdogan"@),
        foreign_government_roster().contains("mfaturkiye"@),
        foreign_government_roster().contains("10downingstreet"@),
        foreign_government_roster().contains("keir_starmer"@),
        foreign_government_roster().contains("fcdogovuk"@),
        foreign_government_roster().contains("eu_commission"@),
        foreign_government_roster().contains("eucouncil"@),
        foreign_government_roster().contains("vonderleyen"@),
        foreign_government_roster().contains("zelenskyyua"@),
        foreign_government_roster().contains("ukraine"@),
        foreign_government_roster().contains("mfa_ukraine"@),
        foreign_government_roster().contains("israel"@),
        foreign_government_roster().contains("israelmfa"@),
        foreign_government_roster().contains("netanyahu"@),
        foreign_government_roster().contains("khamenei_ir"@),
        foreign_government_roster().contains("irimfa_en"@),
        foreign_government_roster().contains("taiwanpresident"@),
        foreign_government_roster().contains("mofa_taiwan"@),
{
    let r = foreign_government_roster();
    assert(r[0] == "oprargentina"@);
    assert(r[1] == "jmilei"@);
    assert(r[2] == "ausgov"@);
    assert(r[3] == "albomp"@);
    assert(r[4] == "govbrazil"@);
    assert(r[5] == "lulaoficial"@);
    assert(r[6] == "canadianpm"@);
    assert(r[7] == "markjcarney"@);
    assert(r[8] == "mfa_china"@);
    assert(r[9] == "elysee"@);
    assert(r[10] == "emmanuelmacron"@);
    assert(r[11] == "bundeskanzler"@);
    assert(r[12] == "germanydiplo"@);
    assert(r[13] == "pmoindia"@);
    assert(r[14] == "narendramodi"@);
    assert(r[15] == "setkabgoid"@);
    assert(r[16] == "prabowo"@);
    assert(r[17] == "palazzo_chigi"@);
    assert(r[18] == "giorgiameloni"@);
    assert(r[19] == "jpn_pmo"@);
    assert(r[20] == "mofajapan_en"@);
    assert(r[21] == "gobiernomx"@);
    assert(r[22] == "claudiashein"@);
    assert(r[23] == "kremlinrussia_e"@);
    assert(r[24] == "mfa_russia"@);
    assert(r[25] == "ksamofaen"@);
    assert(r[26] == "presidencyza"@);
    assert(r[27] == "governmentza"@);
    assert(r[28] == "president_kr"@);
    assert(r[29] == "tcbestepe"@);
    assert(r[30] == "rterdogan"@);
    assert(r[31] == "mfaturkiye"@);
    assert(r[32] == "10downingstreet"@);
    assert(r[33] == "keir_starmer"@);
    assert(r[34] == "fcdogovuk"@);
    assert(r[35] == "eu_commission"@);
    assert(r[36] == "eucouncil"@);
    assert(r[37] == "vonderleyen"@);
    assert(r[38] == "zelenskyyua"@);
    assert(r[39] == "ukraine"@);
    assert(r[40] == "mfa_ukraine"@);
    assert(r[41] == "israel"@);
    assert(r[42] == "israelmfa"@);
    assert(r[43] == "netanyahu"@);
    assert(r[44] == "khamenei_ir"@);
    assert(r[45] == "irimfa_en"@);
    assert(r[46] == "taiwanpresident"@);
    assert(r[47] == "mofa_taiwan"@);
}

/// A post is on a roster exactly when one of its four handles (its author's screen name, the
/// reposted account's screen name, and the parent handles of their badges), normalized, is an
/// entry of the roster.
pub proof fn lemma_on_roster_by_fields(c: PostCandidate, roster: Seq<Seq<char>>)
    ensures
        on_roster(c, roster) <==> {
            ||| (c.author_screen_name matches Some(h) && roster.contains(normalize_handle(h@)))
            ||| (c.retweeted_screen_name matches Some(h) && roster.contains(normalize_handle(h@)))
            ||| (c.author_affiliate_handle matches Some(h) && roster.contains(normalize_handle(h@)))
            ||| (c.retweeted_affiliate_handle matches Some(h) && roster.contains(normalize_handle(h@)))
        },
{
    let a = present(c.author_screen_name);
    let b = present(c.retweeted_screen_name);
    let d = present(c.author_affiliate_handle);
    let e = present(c.retweeted_affiliate_handle);
    let hs = handles_of(c);
    assert(hs == a + b + (d + e));
    if let Some(h) = c.author_screen_name {
        assert(hs[0] == h@);
    }
    if let Some(h) = c.retweeted_screen_name {
        assert(hs[a.len() as int] == h@);
    }
    if let Some(h) = c.author_affiliate_handle {
        assert(hs[(a.len() + b.len()) as int] == h@);
    }
    if let Some(h) = c.retweeted_affiliate_handle {
        assert(hs[(a.len() + b.len() + d.len()) as int] == h@);
    }
    if on_roster(c, roster) {
        let k = choose|k: int| 0 <= k < hs.len() && roster.contains(normalize_handle(#[trigger] handles_of(c)[k]));
        if k < a.len() {
        } else if k < a.len() + b.len() {
            assert(hs[k] == b[k - a.len()]);
        } else if k < a.len() + b.len() + d.len() {
            assert(hs[k] == d[k - a.len() - b.len()]);
        } else {
            assert(hs[k] == e[k - a.len() - b.len() - d.len()]);
        }
    }
}

} // verus!
