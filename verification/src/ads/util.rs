//! Placement of ads among the ranked posts: where an ad may go, how far apart ads are spaced,
//! which ad must not stand next to which post, and the final interleaving.

use vstd::prelude::*;

verus! {

/// Floor on how many posts sit between two ads, whatever the ad server asks for: ads may be
/// spaced further apart than this, never closer.
pub const MIN_ORGANIC_RUN: usize = 6;

/// A response too short to hold one ad at the floor spacing carries none.
pub const MIN_POSTS_FOR_ADS: usize = MIN_ORGANIC_RUN + 1;

/// Requested positions closer together than this are not a spacing the ad server meant.
pub const MIN_REQUESTED_GAP: usize = 3;

/// A post's brand-safety verdict, as far as ad placement tells verdicts apart.
#[derive(Debug, Clone, Copy, PartialEq, Eq, Structural, Default)]
pub enum BrandSafetyVerdict {
    #[default]
    Unspecified,
    LowRisk,
    MediumRisk,
    /// Any other verdict.
    Other,
}

/// An ad's brand-safety risk level, as far as ad placement tells levels apart.
#[derive(Debug, Clone, Copy, PartialEq, Eq, Structural, Default)]
pub enum BrandSafetyRiskLevel {
    #[default]
    BsrUnknown,
    BsrLow,
    BsrIas,
    /// Any other level.
    Other,
}

/// What ad placement reads of a ranked post.
#[derive(Debug, Clone, PartialEq, Default)]
pub struct ScoredPost {
    pub author_id: u64,
    pub tweet_text: String,
    pub brand_safety_verdict: BrandSafetyVerdict,
}

/// An advertiser's constraints on what may stand next to its ad.
#[derive(Debug, Clone, PartialEq, Default)]
pub struct AdAdjacencyControl {
    pub brand_safety_risk: BrandSafetyRiskLevel,
    /// Authors whose posts may not stand next to the ad.
    pub handles: Vec<i64>,
    /// Keywords whose posts may not stand next to the ad.
    pub keywords: Vec<String>,
}

/// What ad placement reads of an ad.
#[derive(Debug, Clone, PartialEq, Default)]
pub struct AdIndexInfo {
    /// The position the ad server asks for.
    pub insert_position: i32,
    pub ad_adjacency_control: Option<AdAdjacencyControl>,
}

/// How far apart ads are placed: the spacing asked for, and the least spacing accepted.
#[derive(Debug, Clone, Copy, PartialEq, Eq, Structural)]
pub struct AdSpacing {
    pub requested: usize,
    pub min: usize,
}

/// `n.div_ceil(2)`.
pub open spec fn ceil_half(n: int) -> int {
    (n + 1) / 2
}

pub open spec fn default_spacing_spec() -> AdSpacing {
    AdSpacing { requested: MIN_ORGANIC_RUN, min: ceil_half(MIN_ORGANIC_RUN as int) as usize }
}

/// The spacing used when the ad server's request says nothing usable: the floor.
pub fn default_spacing() -> (s: AdSpacing)
    ensures
        s == default_spacing_spec(),
        s.requested == MIN_ORGANIC_RUN,
{
    AdSpacing { requested: MIN_ORGANIC_RUN, min: MIN_ORGANIC_RUN / 2 + MIN_ORGANIC_RUN % 2 }
}

pub open spec fn is_avoid(post: ScoredPost) -> bool {
    post.brand_safety_verdict == BrandSafetyVerdict::MediumRisk
}

/// The gap before post `g` (between posts `g - 1` and `g`) has no medium-risk post on either side.
pub open spec fn gap_is_safe(posts: Seq<ScoredPost>, g: int) -> bool {
    !is_avoid(posts[g - 1]) && !is_avoid(posts[g])
}

/// The safe gaps before post `m`, in increasing order.
pub open spec fn safe_gaps_below(posts: Seq<ScoredPost>, m: int) -> Seq<usize>
    decreases m,
{
    if m <= 1 {
        Seq::<usize>::empty()
    } else {
        let prev = safe_gaps_below(posts, m - 1);
        if gap_is_safe(posts, m - 1) {
            prev.push((m - 1) as usize)
        } else {
            prev
        }
    }
}

pub fn has_avoid(post: &ScoredPost) -> (r: bool)
    ensures
        r == is_avoid(*post),
{
    post.brand_safety_verdict == BrandSafetyVerdict::MediumRisk
}

/// The gaps between two posts where an ad may go: neither neighbour is medium risk.
pub fn find_safe_gaps(scored_posts: &Vec<ScoredPost>) -> (safe: Vec<usize>)
    ensures
        safe@ == safe_gaps_below(scored_posts@, scored_posts@.len() as int),
{
    let n: usize = scored_posts.len();
    let mut safe: Vec<usize> = Vec::new();
    let mut g: usize = 1;
    while g < n
        invariant
            n == scored_posts.len(),
            1 <= g,
            g <= n || g == 1,
            safe@ == safe_gaps_below(scored_posts@, g as int),
        decreases n - g,
    {
        if !has_avoid(&scored_posts[g - 1]) && !has_avoid(&scored_posts[g]) {
            safe.push(g);
        }
        g += 1;
    }
    proof {
        if n > 0 {
            assert(g == n);
        } else {
            assert(safe_gaps_below(scored_posts@, 0) == Seq::<usize>::empty());
            assert(safe_gaps_below(scored_posts@, 1) == Seq::<usize>::empty());
        }
    }
    safe
}

/// The positions the first (at most four) ads ask for.
pub open spec fn leading_positions(ads: Seq<AdIndexInfo>) -> Seq<int> {
    let n: int = if ads.len() < 4 {
        ads.len() as int
    } else {
        4
    };
    Seq::new(n as nat, |i: int| ads[i].insert_position as int)
}

/// `d` is a positive difference between two of the positions.
pub open spec fn is_gap(ps: Seq<int>, d: int) -> bool {
    d > 0 && exists|i: int, j: int| 0 <= i < ps.len() && 0 <= j < ps.len() && #[trigger] diff(ps, i, j) == d
}

/// How far position `j` lies after position `i`.
pub open spec fn diff(ps: Seq<int>, i: int, j: int) -> int {
    ps[j] - ps[i]
}

/// `d` is the least positive difference between two of the positions: the spacing they ask for.
pub open spec fn is_least_gap(ps: Seq<int>, d: int) -> bool {
    is_gap(ps, d) && forall|e: int| #[trigger] is_gap(ps, e) ==> d <= e
}

/// Two positions with none strictly between them differ by no more than `i32::MAX`: their
/// difference in `i32` does not overflow.
pub open spec fn neighbour_differences_fit(ps: Seq<int>) -> bool {
    forall|i: int, j: int|
        0 <= i < ps.len() && 0 <= j < ps.len() && #[trigger] diff(ps, i, j) > i32::MAX ==> exists|k: int|
            0 <= k < ps.len() && ps[i] < #[trigger] ps[k] < ps[j]
}

/// The spacing the ads ask for, raised to the floor; the default when fewer than two ads ask,
/// or when what they ask for is closer than `MIN_REQUESTED_GAP`.
pub open spec fn spacing_of(ads: Seq<AdIndexInfo>) -> AdSpacing {
    let ps = leading_positions(ads);
    if ads.len() >= 2 && exists|d: int| is_least_gap(ps, d) && d >= MIN_REQUESTED_GAP {
        let d = choose|d: int| is_least_gap(ps, d);
        let requested = if d >= MIN_ORGANIC_RUN {
            d
        } else {
            MIN_ORGANIC_RUN as int
        };
        AdSpacing { requested: requested as usize, min: ceil_half(requested) as usize }
    } else {
        default_spacing_spec()
    }
}

proof fn lemma_least_gap_unique(ps: Seq<int>, d: int, e: int)
    requires
        is_least_gap(ps, d),
        is_least_gap(ps, e),
    ensures
        d == e,
{
}

/// The spacing between ads that the ad server's requested positions call for.
pub fn compute_spacing(ads: &Vec<AdIndexInfo>) -> (spacing: AdSpacing)
    requires
        neighbour_differences_fit(leading_positions(ads@)),
    ensures
        spacing == spacing_of(ads@),
{
    if ads.len() < 2 {
        return default_spacing();
    }
    let n: usize = if ads.len() < 4 {
        ads.len()
    } else {
        4
    };
    let ghost ps = leading_positions(ads@);
    let mut best: i64 = 0;
    let mut found = false;
    let ghost mut wa: int = 0;
    let ghost mut wb: int = 0;
    let mut i: usize = 0;
    while i < n
        invariant
            n == ps.len(),
            n <= ads.len(),
            ps == leading_positions(ads@),
            i <= n,
            found ==> best > 0 && 0 <= wa < n && 0 <= wb < n && diff(ps, wa, wb) == best,
            forall|a: int, b: int|
                0 <= a < i && 0 <= b < n && #[trigger] diff(ps, a, b) > 0 ==> found && best <= diff(ps, a, b),
        decreases n - i,
    {
        let mut j: usize = 0;
        while j < n
            invariant
                n == ps.len(),
                n <= ads.len(),
                ps == leading_positions(ads@),
                i < n,
                j <= n,
                found ==> best > 0 && 0 <= wa < n && 0 <= wb < n && diff(ps, wa, wb) == best,
                forall|a: int, b: int|
                    ((0 <= a < i && 0 <= b < n) || (a == i && 0 <= b < j)) && #[trigger] diff(ps, a, b) > 0
                        ==> found && best <= diff(ps, a, b),
            decreases n - j,
        {
            let d: i64 = ads[j].insert_position as i64 - ads[i].insert_position as i64;
            assert(d == diff(ps, i as int, j as int));
            if d > 0 && (!found || d < best) {
                best = d;
                found = true;
                proof {
                    wa = i as int;
                    wb = j as int;
                }
            }
            j += 1;
        }
        i += 1;
    }
    proof {
        if found {
            assert(is_gap(ps, best as int));
            assert forall|e: int| #[trigger] is_gap(ps, e) implies best <= e by {
                let (a, b) = choose|a: int, b: int| 0 <= a < ps.len() && 0 <= b < ps.len() && #[trigger] diff(ps, a, b) == e;
            }
            assert(is_least_gap(ps, best as int));
        } else {
            assert forall|e: int| !#[trigger] is_gap(ps, e) by {
                if is_gap(ps, e) {
                    let (a, b) = choose|a: int, b: int| 0 <= a < ps.len() && 0 <= b < ps.len() && #[trigger] diff(ps, a, b) == e;
                }
            }
        }
    }
    if found && best >= MIN_REQUESTED_GAP as i64 {
        proof {
            let d = choose|d: int| is_least_gap(ps, d);
            lemma_least_gap_unique(ps, d, best as int);
        }
        let requested: usize = if best >= MIN_ORGANIC_RUN as i64 {
            best as usize
        } else {
            MIN_ORGANIC_RUN
        };
        AdSpacing { requested, min: requested / 2 + requested % 2 }
    } else {
        proof {
            if found {
                assert forall|d: int| is_least_gap(ps, d) implies d < MIN_REQUESTED_GAP by {
                    lemma_least_gap_unique(ps, d, best as int);
                }
            }
        }
        default_spacing()
    }
}

/// The risk level an ad declares; an ad without adjacency control is of unknown risk.
pub open spec fn risk_of(ad: AdIndexInfo) -> BrandSafetyRiskLevel {
    match ad.ad_adjacency_control {
        Some(control) => control.brand_safety_risk,
        None => BrandSafetyRiskLevel::BsrUnknown,
    }
}

/// The ad asks to stand only next to the safest content.
pub open spec fn is_bsr_low(ad: AdIndexInfo) -> bool {
    risk_of(ad) == BrandSafetyRiskLevel::BsrLow || risk_of(ad) == BrandSafetyRiskLevel::BsrIas
}

pub open spec fn deref_post(p: Option<&ScoredPost>) -> Option<ScoredPost> {
    match p {
        Some(post) => Some(*post),
        None => None,
    }
}

pub open spec fn is_low_risk_neighbour(p: Option<ScoredPost>) -> bool {
    p matches Some(post) && post.brand_safety_verdict == BrandSafetyVerdict::LowRisk
}

/// A post's author is one of the handles the ad must not stand next to.
pub open spec fn is_blocked_author(handles: Seq<i64>, p: Option<ScoredPost>) -> bool {
    p matches Some(post) && handles.contains(post.author_id as i64)
}

/// An ad that asks for the safest content is dropped next to a post judged only low risk.
pub open spec fn drops_for_risk(ad: AdIndexInfo, above: Option<ScoredPost>, below: Option<ScoredPost>) -> bool {
    is_bsr_low(ad) && (is_low_risk_neighbour(above) || is_low_risk_neighbour(below))
}

/// An ad is dropped next to a post by an author it blocks.
pub open spec fn drops_for_handle(ad: AdIndexInfo, above: Option<ScoredPost>, below: Option<ScoredPost>) -> bool {
    match ad.ad_adjacency_control {
        Some(control) => is_blocked_author(control.handles@, above) || is_blocked_author(
            control.handles@,
            below,
        ),
        None => false,
    }
}

fn risk_level(ad: &AdIndexInfo) -> (r: BrandSafetyRiskLevel)
    ensures
        r == risk_of(*ad),
{
    match &ad.ad_adjacency_control {
        Some(control) => control.brand_safety_risk,
        None => BrandSafetyRiskLevel::BsrUnknown,
    }
}

pub fn is_bsr_low_ad(ad: &AdIndexInfo) -> (r: bool)
    ensures
        r == is_bsr_low(*ad),
{
    let risk = risk_level(ad);
    risk == BrandSafetyRiskLevel::BsrLow || risk == BrandSafetyRiskLevel::BsrIas
}

fn is_low_risk_post(p: Option<&ScoredPost>) -> (r: bool)
    ensures
        r == is_low_risk_neighbour(deref_post(p)),
{
    match p {
        Some(post) => post.brand_safety_verdict == BrandSafetyVerdict::LowRisk,
        None => false,
    }
}

pub fn should_drop_bsr_low(ad: &AdIndexInfo, above: Option<&ScoredPost>, below: Option<&ScoredPost>) -> (r:
    bool)
    ensures
        r == drops_for_risk(*ad, deref_post(above), deref_post(below)),
{
    if !is_bsr_low_ad(ad) {
        return false;
    }
    is_low_risk_post(above) || is_low_risk_post(below)
}

fn handles_contain(handles: &Vec<i64>, id: i64) -> (r: bool)
    ensures
        r == handles@.contains(id),
{
    let mut k: usize = 0;
    while k < handles.len()
        invariant
            k <= handles.len(),
            forall|m: int| 0 <= m < k ==> #[trigger] handles@[m] != id,
        decreases handles.len() - k,
    {
        if handles[k] == id {
            return true;
        }
        k += 1;
    }
    false
}

fn is_blocked_post(handles: &Vec<i64>, p: Option<&ScoredPost>) -> (r: bool)
    ensures
        r == is_blocked_author(handles@, deref_post(p)),
{
    match p {
        Some(post) => handles_contain(handles, post.author_id as i64),
        None => false,
    }
}

pub fn should_drop_handle(ad: &AdIndexInfo, above: Option<&ScoredPost>, below: Option<&ScoredPost>) -> (r:
    bool)
    ensures
        r == drops_for_handle(*ad, deref_post(above), deref_post(below)),
{
    let handles = match &ad.ad_adjacency_control {
        Some(control) => {
            if control.handles.len() == 0 {
                return false;
            }
            &control.handles
        },
        None => {
            return false;
        },
    };
    is_blocked_post(handles, above) || is_blocked_post(handles, below)
}

/// One entry of the response: a post or an ad.
#[derive(Debug, Clone, PartialEq)]
pub enum FeedEntry<P, A> {
    Post(P),
    Ad(A),
}

/// An entry of the response with its position.
#[derive(Debug, Clone, PartialEq)]
pub struct FeedItem<P, A> {
    pub position: i32,
    pub item: FeedEntry<P, A>,
}

/// The posts as a response, each at its index.
pub fn posts_to_feed_items<P, A>(scored_posts: Vec<P>) -> (items: Vec<FeedItem<P, A>>)
    ensures
        items@.len() == scored_posts@.len(),
        forall|k: int|
            0 <= k < items@.len() ==> #[trigger] items@[k] == (FeedItem::<P, A> {
                position: k as i32,
                item: FeedEntry::Post(scored_posts@[k]),
            }),
{
    let ghost posts = scored_posts@;
    let n: usize = scored_posts.len();
    let mut items: Vec<FeedItem<P, A>> = Vec::new();
    let mut i: usize = 0;
    for post in it: scored_posts.into_iter()
        invariant
            it.seq() == posts,
            i == it.index(),
            i <= posts.len(),
            posts.len() == n,
            items@.len() == i,
            forall|k: int|
                0 <= k < i ==> #[trigger] items@[k] == (FeedItem::<P, A> {
                    position: k as i32,
                    item: FeedEntry::Post(posts[k]),
                }),
    {
        assert(post == posts[i as int]);
        items.push(FeedItem { position: i as i32, item: FeedEntry::Post(post) });
        i += 1;
    }
    items
}

/// How many placements the first `n` posts consume: a placement is taken when the post at its
/// index comes up, in order.
pub open spec fn placements_used(n: nat, placements: Seq<usize>) -> nat
    decreases n,
{
    if n == 0 {
        0
    } else {
        let used = placements_used((n - 1) as nat, placements);
        if used < placements.len() && placements[used as int] == n - 1 {
            used + 1
        } else {
            used
        }
    }
}

/// The posts with the ads inserted before the posts their placements name, in order.
pub open spec fn interleaved<P, A>(posts: Seq<P>, ads: Seq<A>, placements: Seq<usize>) -> Seq<FeedEntry<P, A>>
    decreases posts.len(),
{
    if posts.len() == 0 {
        Seq::<FeedEntry<P, A>>::empty()
    } else {
        let prev = interleaved(posts.drop_last(), ads, placements);
        let i = posts.len() - 1;
        let used = placements_used(i as nat, placements);
        if used < placements.len() && placements[used as int] == i {
            prev.push(FeedEntry::Ad(ads[used as int])).push(FeedEntry::Post(posts.last()))
        } else {
            prev.push(FeedEntry::Post(posts.last()))
        }
    }
}

/// At most `result_size` entries, and never an ad last.
pub open spec fn finalized<P, A>(entries: Seq<FeedEntry<P, A>>, result_size: nat) -> Seq<FeedEntry<P, A>> {
    let kept = if entries.len() > result_size {
        entries.take(result_size as int)
    } else {
        entries
    };
    if kept.len() > 0 && kept.last() is Ad {
        kept.drop_last()
    } else {
        kept
    }
}

/// Interleaves the ads with the posts at their placements, cuts the response to `result_size`
/// entries, drops an ad left last, and numbers the entries from 0.
pub fn interleave_and_finalize<P, A>(
    scored_posts: Vec<P>,
    ads: Vec<A>,
    placements: &Vec<usize>,
    result_size: usize,
) -> (items: Vec<FeedItem<P, A>>)
    requires
        placements_used(scored_posts@.len(), placements@) <= ads@.len(),
    ensures
        items@.len() == finalized(interleaved(scored_posts@, ads@, placements@), result_size as nat).len(),
        forall|k: int|
            0 <= k < items@.len() ==> #[trigger] items@[k] == (FeedItem::<P, A> {
                position: k as i32,
                item: finalized(interleaved(scored_posts@, ads@, placements@), result_size as nat)[k],
            }),
{
    let ghost posts = scored_posts@;
    let n: usize = scored_posts.len();
    let ghost all_ads = ads@;
    let mut ads = ads;
    let mut pending: Vec<A> = Vec::new();
    while ads.len() > 0
        invariant
            all_ads == ads@ + pending@.reverse(),
        decreases ads.len(),
    {
        let ghost before = ads@;
        let ad = ads.pop().unwrap();
        pending.push(ad);
        assert(before == ads@.push(ad));
        assert(pending@.reverse() == seq![ad] + pending@.drop_last().reverse()) by {
            assert(pending@.reverse() =~= seq![ad] + pending@.drop_last().reverse());
        }
    }
    assert(pending@.reverse() == all_ads);
    let mut entries: Vec<FeedEntry<P, A>> = Vec::new();
    let mut pi: usize = 0;
    let mut i: usize = 0;
    for post in it: scored_posts.into_iter()
        invariant
            it.seq() == posts,
            i == it.index(),
            i <= posts.len(),
            posts.len() == n,
            pi == placements_used(i as nat, placements@),
            placements_used(posts.len(), placements@) <= all_ads.len(),
            pending@.reverse() == all_ads.skip(pi as int),
            entries@ == interleaved(posts.take(i as int), all_ads, placements@),
    {
        proof {
            assert(posts.take(i + 1).drop_last() == posts.take(i as int));
            assert(posts.take(i + 1).last() == post);
            lemma_placements_used_prefix(i as nat, posts.len(), placements@);
        }
        if pi < placements.len() && placements[pi] == i {
            assert(pi < all_ads.len()) by {
                lemma_placements_used_prefix((i + 1) as nat, posts.len(), placements@);
            }
            let ghost rest = pending@;
            assert(pending@.len() > 0) by {
                assert(rest.reverse().len() == rest.len());
            }
            let ad = pending.pop().unwrap();
            assert(ad == all_ads[pi as int]) by {
                assert(rest.reverse()[0] == rest[rest.len() - 1]);
            }
            assert(pending@.reverse() == all_ads.skip(pi + 1)) by {
                assert(pending@.reverse() =~= rest.reverse().drop_first());
                assert(all_ads.skip(pi + 1) =~= all_ads.skip(pi as int).drop_first());
            }
            entries.push(FeedEntry::Ad(ad));
            pi += 1;
        }
        entries.push(FeedEntry::Post(post));
        i += 1;
    }
    assert(posts.take(posts.len() as int) == posts);
    let ghost joined = entries@;
    if entries.len() > result_size {
        entries.truncate(result_size);
    }
    let drop_last = match entries.last() {
        Some(FeedEntry::Ad(_)) => true,
        _ => false,
    };
    if drop_last {
        entries.pop();
    }
    let ghost fin = entries@;
    assert(fin == finalized(joined, result_size as nat));
    let mut items: Vec<FeedItem<P, A>> = Vec::new();
    let mut k: usize = 0;
    for entry in it: entries.into_iter()
        invariant
            it.seq() == fin,
            k == it.index(),
            k <= fin.len(),
            fin.len() <= usize::MAX,
            items@.len() == k,
            forall|m: int|
                0 <= m < k ==> #[trigger] items@[m] == (FeedItem::<P, A> { position: m as i32, item: fin[m] }),
    {
        assert(entry == fin[k as int]);
        items.push(FeedItem { position: k as i32, item: entry });
        k += 1;
    }
    items
}

/// Ads are spaced at least `MIN_ORGANIC_RUN` apart whatever the ad server asks for, and the
/// least spacing accepted is half the spacing asked for, rounded up.
pub proof fn lemma_spacing_respects_floor(ads: Seq<AdIndexInfo>)
    ensures
        spacing_of(ads).requested >= MIN_ORGANIC_RUN,
        spacing_of(ads).min == ceil_half(spacing_of(ads).requested as int),
{
    let ps = leading_positions(ads);
    if ads.len() >= 2 && exists|d: int| is_least_gap(ps, d) && d >= MIN_REQUESTED_GAP {
        let w = choose|d: int| is_least_gap(ps, d) && d >= MIN_REQUESTED_GAP;
        let d = choose|d: int| is_least_gap(ps, d);
        lemma_least_gap_unique(ps, d, w);
        assert(d <= i32::MAX - i32::MIN) by {
            let (a, b) = choose|a: int, b: int| 0 <= a < ps.len() && 0 <= b < ps.len() && #[trigger] diff(ps, a, b) == d;
        }
    }
}

/// The spacing read off the positions the first (at most four) ads ask for: with fewer than two
/// ads, or no two of those positions apart, the floor `6` with least spacing `3`; otherwise, with
/// `d` the least positive difference between two of them, `d` raised to `6` when `d >= 3`, and the
/// floor when `d < 3`; the least spacing is always half the spacing, rounded up.
pub proof fn lemma_spacing_from_positions(ads: Seq<AdIndexInfo>, d: int)
    requires
        d > 0,
        exists|i: int, j: int|
            0 <= i < ads.len() && i < 4 && 0 <= j < ads.len() && j < 4 && #[trigger] ads[j].insert_position
                - #[trigger] ads[i].insert_position == d,
        forall|i: int, j: int|
            0 <= i < ads.len() && i < 4 && 0 <= j < ads.len() && j < 4 && #[trigger] ads[j].insert_position
                - #[trigger] ads[i].insert_position > 0 ==> ads[j].insert_position - ads[i].insert_position >= d,
    ensures
        ads.len() < 2 || d < 3 ==> spacing_of(ads).requested == 6 && spacing_of(ads).min == 3,
        ads.len() >= 2 && 3 <= d < 6 ==> spacing_of(ads).requested == 6 && spacing_of(ads).min == 3,
        ads.len() >= 2 && d >= 6 ==> spacing_of(ads).requested == d && spacing_of(ads).min == (d + 1) / 2,
{
    let ps = leading_positions(ads);
    let (i0, j0) = choose|i: int, j: int|
        0 <= i < ads.len() && i < 4 && 0 <= j < ads.len() && j < 4 && #[trigger] ads[j].insert_position
            - #[trigger] ads[i].insert_position == d;
    assert(diff(ps, i0, j0) == d);
    assert forall|e: int| #[trigger] is_gap(ps, e) implies d <= e by {
        let (a, b) = choose|a: int, b: int| 0 <= a < ps.len() && 0 <= b < ps.len() && #[trigger] diff(ps, a, b) == e;
        assert(ads[b].insert_position - ads[a].insert_position == e);
    }
    assert(is_least_gap(ps, d));
    if ads.len() >= 2 && exists|e: int| is_least_gap(ps, e) && e >= MIN_REQUESTED_GAP {
        let e = choose|e: int| is_least_gap(ps, e);
        lemma_least_gap_unique(ps, d, e);
    }
    lemma_spacing_respects_floor(ads);
}

/// Fewer than two ads, or ads that all ask for the same position, leave the floor spacing.
pub proof fn lemma_spacing_without_gap(ads: Seq<AdIndexInfo>)
    requires
        ads.len() < 2 || forall|i: int, j: int|
            0 <= i < ads.len() && i < 4 && 0 <= j < ads.len() && j < 4 ==> #[trigger] ads[j].insert_position
                == #[trigger] ads[i].insert_position,
    ensures
        spacing_of(ads).requested == 6 && spacing_of(ads).min == 3,
{
    let ps = leading_positions(ads);
    if ads.len() >= 2 {
        assert forall|e: int| !#[trigger] is_gap(ps, e) by {
            if is_gap(ps, e) {
                let (a, b) = choose|a: int, b: int| 0 <= a < ps.len() && 0 <= b < ps.len() && #[trigger] diff(ps, a, b) == e;
                assert(ads[b].insert_position == ads[a].insert_position);
            }
        }
    }
}

/// Every gap offered for an ad lies between two posts, neither of them medium risk, and the
/// gaps come in increasing order.
pub proof fn lemma_safe_gaps_are_safe(posts: Seq<ScoredPost>, m: int)
    requires
        m <= posts.len() <= usize::MAX,
    ensures
        forall|k: int|
            0 <= k < safe_gaps_below(posts, m).len() ==> 1 <= #[trigger] safe_gaps_below(posts, m)[k] < m
                && gap_is_safe(posts, safe_gaps_below(posts, m)[k] as int),
        forall|k: int, l: int|
            0 <= k < l < safe_gaps_below(posts, m).len() ==> #[trigger] safe_gaps_below(posts, m)[k]
                < #[trigger] safe_gaps_below(posts, m)[l],
    decreases m,
{
    if m > 1 {
        lemma_safe_gaps_are_safe(posts, m - 1);
        let prev = safe_gaps_below(posts, m - 1);
        let cur = safe_gaps_below(posts, m);
        if gap_is_safe(posts, m - 1) {
            assert(cur == prev.push((m - 1) as usize));
            assert forall|k: int| 0 <= k < cur.len() implies 1 <= #[trigger] cur[k] < m && gap_is_safe(
                posts,
                cur[k] as int,
            ) by {
                if k < prev.len() {
                    assert(cur[k] == prev[k]);
                }
            }
            assert forall|k: int, l: int| 0 <= k < l < cur.len() implies #[trigger] cur[k] < #[trigger] cur[l] by {
                assert(cur[k] == prev[k]);
                if l < prev.len() {
                    assert(cur[l] == prev[l]);
                }
            }
        }
    }
}

/// Exactly the gaps between two posts, neither of them medium risk, are offered for an ad: a gap
/// `g` (before post `g`) is in the list if and only if `1 <= g < m` and neither post `g - 1` nor
/// post `g` is judged medium risk.
pub proof fn lemma_safe_gaps_are_exactly_the_safe_ones(posts: Seq<ScoredPost>, m: int)
    requires
        m <= posts.len() <= usize::MAX,
    ensures
        forall|g: int|
            0 <= g <= usize::MAX ==> (#[trigger] safe_gaps_below(posts, m).contains(g as usize) <==> (1 <= g
                < m && posts[g - 1].brand_safety_verdict != BrandSafetyVerdict::MediumRisk
                && posts[g].brand_safety_verdict != BrandSafetyVerdict::MediumRisk)),
    decreases m,
{
    lemma_safe_gaps_are_safe(posts, m);
    let cur = safe_gaps_below(posts, m);
    if m > 1 {
        lemma_safe_gaps_are_exactly_the_safe_ones(posts, m - 1);
        let prev = safe_gaps_below(posts, m - 1);
        assert forall|g: int|
            0 <= g <= usize::MAX implies (#[trigger] cur.contains(g as usize) <==> (1 <= g < m
                && posts[g - 1].brand_safety_verdict != BrandSafetyVerdict::MediumRisk
                && posts[g].brand_safety_verdict != BrandSafetyVerdict::MediumRisk)) by {
            if cur.contains(g as usize) {
                let k = choose|k: int| 0 <= k < cur.len() && cur[k] == g as usize;
                assert(gap_is_safe(posts, cur[k] as int));
            }
            if 1 <= g < m && posts[g - 1].brand_safety_verdict != BrandSafetyVerdict::MediumRisk
                && posts[g].brand_safety_verdict != BrandSafetyVerdict::MediumRisk {
                if g < m - 1 {
                    assert(prev.contains(g as usize));
                    let k = choose|k: int| 0 <= k < prev.len() && prev[k] == g as usize;
                    assert(cur[k] == prev[k]);
                } else {
                    assert(cur[cur.len() - 1] == g as usize);
                }
            }
        }
    } else {
        assert(cur.len() == 0);
    }
}

/// An ad that asks for the safest content is one whose adjacency control declares risk `BsrLow`
/// or `BsrIas`; such an ad is dropped exactly when the post above or the post below it is judged
/// low risk, and an ad of any other risk, or without adjacency control, is never dropped for risk.
pub proof fn lemma_drop_for_risk(ad: AdIndexInfo, above: Option<ScoredPost>, below: Option<ScoredPost>)
    ensures
        is_bsr_low(ad) <==> (ad.ad_adjacency_control matches Some(c) && (c.brand_safety_risk
            == BrandSafetyRiskLevel::BsrLow || c.brand_safety_risk == BrandSafetyRiskLevel::BsrIas)),
        drops_for_risk(ad, above, below) <==> ((ad.ad_adjacency_control matches Some(c) && (
        c.brand_safety_risk == BrandSafetyRiskLevel::BsrLow || c.brand_safety_risk
            == BrandSafetyRiskLevel::BsrIas)) && ((above matches Some(p) && p.brand_safety_verdict
            == BrandSafetyVerdict::LowRisk) || (below matches Some(p) && p.brand_safety_verdict
            == BrandSafetyVerdict::LowRisk))),
{
}

/// An ad is dropped for its blocked handles exactly when it has adjacency control and the author
/// of the post above or of the post below it is one of those handles.
pub proof fn lemma_drop_for_handle(ad: AdIndexInfo, above: Option<ScoredPost>, below: Option<ScoredPost>)
    ensures
        drops_for_handle(ad, above, below) <==> (ad.ad_adjacency_control matches Some(c) && ((
        above matches Some(p) && exists|k: int|
            0 <= k < c.handles.len() && #[trigger] c.handles@[k] == p.author_id as i64) || (
        below matches Some(p) && exists|k: int|
            0 <= k < c.handles.len() && #[trigger] c.handles@[k] == p.author_id as i64))),
{
}

/// In the interleaving every ad is directly followed by a post, and directly preceded by a post
/// unless it stands first.
pub proof fn lemma_ads_sit_between_posts<P, A>(posts: Seq<P>, ads: Seq<A>, placements: Seq<usize>)
    ensures
        forall|k: int|
            0 <= k < interleaved(posts, ads, placements).len() && #[trigger] interleaved(
                posts,
                ads,
                placements,
            )[k] is Ad ==> k + 1 < interleaved(posts, ads, placements).len() && interleaved(
                posts,
                ads,
                placements,
            )[k + 1] is Post && (k > 0 ==> interleaved(posts, ads, placements)[k - 1] is Post),
        interleaved(posts, ads, placements).len() > 0 ==> interleaved(posts, ads, placements).last() is Post,
    decreases posts.len(),
{
    if posts.len() > 0 {
        lemma_ads_sit_between_posts(posts.drop_last(), ads, placements);
    }
}

/// The posts among the entries, in order.
pub open spec fn posts_in<P, A>(entries: Seq<FeedEntry<P, A>>) -> Seq<P>
    decreases entries.len(),
{
    if entries.len() == 0 {
        Seq::<P>::empty()
    } else {
        match entries.last() {
            FeedEntry::Post(p) => posts_in(entries.drop_last()).push(p),
            FeedEntry::Ad(_) => posts_in(entries.drop_last()),
        }
    }
}

/// The ads among the entries, in order.
pub open spec fn ads_in<P, A>(entries: Seq<FeedEntry<P, A>>) -> Seq<A>
    decreases entries.len(),
{
    if entries.len() == 0 {
        Seq::<A>::empty()
    } else {
        match entries.last() {
            FeedEntry::Ad(a) => ads_in(entries.drop_last()).push(a),
            FeedEntry::Post(_) => ads_in(entries.drop_last()),
        }
    }
}

/// The interleaving keeps every post, in order and none twice, and inserts the first ads, in
/// order, one for each placement that the posts reach: nothing is lost, reordered or invented.
pub proof fn lemma_interleaving_keeps_posts_and_ads<P, A>(posts: Seq<P>, ads: Seq<A>, placements: Seq<usize>)
    requires
        placements_used(posts.len(), placements) <= ads.len(),
    ensures
        posts_in(interleaved(posts, ads, placements)) == posts,
        ads_in(interleaved(posts, ads, placements)) == ads.take(placements_used(posts.len(), placements) as int),
        interleaved(posts, ads, placements).len() == posts.len() + placements_used(posts.len(), placements),
    decreases posts.len(),
{
    if posts.len() == 0 {
        assert(ads.take(0) =~= Seq::<A>::empty());
        assert(posts =~= Seq::<P>::empty());
    } else {
        let rest = posts.drop_last();
        let i = rest.len();
        lemma_placements_used_prefix(i, posts.len(), placements);
        lemma_interleaving_keeps_posts_and_ads(rest, ads, placements);
        let prev = interleaved(rest, ads, placements);
        let used = placements_used(i, placements);
        let cur = interleaved(posts, ads, placements);
        assert(rest.push(posts.last()) =~= posts);
        if used < placements.len() && placements[used as int] == i {
            let with_ad = prev.push(FeedEntry::Ad(ads[used as int]));
            assert(cur == with_ad.push(FeedEntry::Post(posts.last())));
            assert(cur.drop_last() =~= with_ad);
            assert(with_ad.drop_last() =~= prev);
            assert(ads.take(used as int).push(ads[used as int]) =~= ads.take(used + 1 as int));
            assert(posts_in(cur) == posts_in(with_ad).push(posts.last()));
            assert(posts_in(with_ad) == posts_in(prev));
            assert(ads_in(cur) == ads_in(with_ad));
            assert(ads_in(with_ad) == ads_in(prev).push(ads[used as int]));
        } else {
            assert(cur == prev.push(FeedEntry::Post(posts.last())));
            assert(cur.drop_last() =~= prev);
            assert(posts_in(cur) == posts_in(prev).push(posts.last()));
            assert(ads_in(cur) == ads_in(prev));
        }
    }
}

/// With strictly increasing placements, the first `n` posts consume exactly the placements that
/// name one of them.
proof fn lemma_placements_used_counts(n: nat, placements: Seq<usize>)
    requires
        forall|a: int, b: int| 0 <= a < b < placements.len() ==> #[trigger] placements[a] < #[trigger] placements[b],
    ensures
        placements_used(n, placements) <= placements.len(),
        forall|k: int| 0 <= k < placements_used(n, placements) ==> #[trigger] placements[k] < n,
        placements_used(n, placements) < placements.len() ==> placements[placements_used(n, placements) as int] >= n,
    decreases n,
{
    if n > 0 {
        lemma_placements_used_counts((n - 1) as nat, placements);
        let u = placements_used((n - 1) as nat, placements);
        if u < placements.len() && placements[u as int] == n - 1 && u + 1 < placements.len() {
            assert(placements[u as int] < placements[u + 1 as int]);
        }
    }
}

/// The interleaving of fewer posts is a prefix of the interleaving of more.
proof fn lemma_interleaved_prefix<P, A>(posts: Seq<P>, ads: Seq<A>, placements: Seq<usize>, m: int)
    requires
        0 <= m <= posts.len(),
    ensures
        interleaved(posts.take(m), ads, placements).len() <= interleaved(posts, ads, placements).len(),
        forall|x: int|
            0 <= x < interleaved(posts.take(m), ads, placements).len() ==> #[trigger] interleaved(
                posts,
                ads,
                placements,
            )[x] == interleaved(posts.take(m), ads, placements)[x],
    decreases posts.len(),
{
    if m == posts.len() {
        assert(posts.take(m) =~= posts);
    } else {
        let rest = posts.drop_last();
        lemma_interleaved_prefix(rest, ads, placements, m);
        assert(rest.take(m) =~= posts.take(m));
    }
}

/// Each ad stands right before the post its placement names: when the placements increase
/// strictly, each names a post and there are ads enough, ad `k` is entry `placements[k] + k` of
/// the interleaving and post `placements[k]` follows it directly.
pub proof fn lemma_ads_stand_at_their_placements<P, A>(posts: Seq<P>, ads: Seq<A>, placements: Seq<usize>)
    requires
        placements.len() <= ads.len(),
        forall|a: int, b: int| 0 <= a < b < placements.len() ==> #[trigger] placements[a] < #[trigger] placements[b],
        forall|k: int| 0 <= k < placements.len() ==> #[trigger] placements[k] < posts.len(),
    ensures
        forall|k: int|
            0 <= k < placements.len() ==> interleaved(posts, ads, placements)[placements[k] + k]
                == FeedEntry::<P, A>::Ad(ads[k]) && interleaved(posts, ads, placements)[placements[k] + k + 1]
                == FeedEntry::<P, A>::Post(posts[#[trigger] placements[k] as int]),
{
    assert forall|k: int| 0 <= k < placements.len() implies interleaved(posts, ads, placements)[placements[k]
        + k] == FeedEntry::<P, A>::Ad(ads[k]) && interleaved(posts, ads, placements)[placements[k] + k + 1]
        == FeedEntry::<P, A>::Post(posts[#[trigger] placements[k] as int]) by {
        let g = placements[k] as int;
        let before = posts.take(g);
        let upto = posts.take(g + 1);
        lemma_placements_used_counts(g as nat, placements);
        let u = placements_used(g as nat, placements);
        if u > k {
            assert(placements[k] < g);
        }
        if u < k {
            assert(placements[u as int] < placements[k]);
        }
        assert(u == k);
        lemma_interleaving_keeps_posts_and_ads(before, ads, placements);
        assert(before.len() == g);
        assert(upto.drop_last() =~= before);
        assert(upto.last() == posts[g]);
        let prev = interleaved(before, ads, placements);
        assert(interleaved(upto, ads, placements) == prev.push(FeedEntry::Ad(ads[k])).push(
            FeedEntry::Post(posts[g]),
        ));
        lemma_interleaved_prefix(posts, ads, placements, g + 1);
        assert(interleaved(upto, ads, placements)[g + k] == FeedEntry::<P, A>::Ad(ads[k]));
        assert(interleaved(upto, ads, placements)[g + k + 1] == FeedEntry::<P, A>::Post(posts[g]));
    }
}

/// The response is the interleaving cut to its first `result_size` entries, less a last entry
/// that is an ad: a prefix of the interleaving, one entry shorter than the cut exactly when the
/// cut ends with an ad.
pub proof fn lemma_finalized_is_cut_prefix<P, A>(entries: Seq<FeedEntry<P, A>>, result_size: nat)
    ensures
        forall|x: int|
            0 <= x < finalized(entries, result_size).len() ==> #[trigger] finalized(entries, result_size)[x]
                == entries[x],
        ({
            let m = if entries.len() < result_size {
                entries.len() as int
            } else {
                result_size as int
            };
            finalized(entries, result_size).len() == if m > 0 && entries[m - 1] is Ad {
                m - 1
            } else {
                m
            }
        }),
{
}

/// The response holds at most `result_size` entries and never ends with an ad.
pub proof fn lemma_finalized_never_ends_with_ad<P, A>(
    posts: Seq<P>,
    ads: Seq<A>,
    placements: Seq<usize>,
    result_size: nat,
)
    ensures
        finalized(interleaved(posts, ads, placements), result_size).len() <= result_size,
        finalized(interleaved(posts, ads, placements), result_size).len() > 0 ==> finalized(
            interleaved(posts, ads, placements),
            result_size,
        ).last() is Post,
{
    let entries = interleaved(posts, ads, placements);
    lemma_ads_sit_between_posts(posts, ads, placements);
    let kept = if entries.len() > result_size {
        entries.take(result_size as int)
    } else {
        entries
    };
    if kept.len() > 0 && kept.last() is Ad {
        let k = kept.len() - 1;
        assert(entries[k] is Ad);
        if k > 0 {
            assert(kept.drop_last().last() == entries[k - 1]);
        }
    } else if kept.len() > 0 {
    }
}

/// Consuming placements only ever grows with the posts seen.
pub proof fn lemma_placements_used_prefix(m: nat, n: nat, placements: Seq<usize>)
    requires
        m <= n,
    ensures
        placements_used(m, placements) <= placements_used(n, placements),
    decreases n - m,
{
    if m < n {
        lemma_placements_used_prefix(m, (n - 1) as nat, placements);
    }
}

} // verus!
