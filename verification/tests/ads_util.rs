use home_mixer::ads::util::{
    compute_spacing, default_spacing, find_safe_gaps, has_avoid, interleave_and_finalize,
    is_bsr_low_ad, posts_to_feed_items, should_drop_bsr_low, should_drop_handle, AdAdjacencyControl,
    AdIndexInfo, AdSpacing, BrandSafetyRiskLevel, BrandSafetyVerdict, FeedEntry, FeedItem,
    ScoredPost, MIN_ORGANIC_RUN, MIN_POSTS_FOR_ADS, MIN_REQUESTED_GAP,
};

fn requesting(positions: &[i32]) -> Vec<AdIndexInfo> {
    positions
        .iter()
        .map(|&insert_position| AdIndexInfo {
            insert_position,
            ..Default::default()
        })
        .collect()
}

fn post(author_id: u64, verdict: BrandSafetyVerdict) -> ScoredPost {
    ScoredPost { author_id, tweet_text: String::new(), brand_safety_verdict: verdict }
}

fn ad_with(risk: BrandSafetyRiskLevel, handles: Vec<i64>) -> AdIndexInfo {
    AdIndexInfo {
        insert_position: 0,
        ad_adjacency_control: Some(AdAdjacencyControl { brand_safety_risk: risk, handles, keywords: vec![] }),
    }
}

#[test]
fn a_single_ad_carries_the_default_spacing() {
    assert_eq!(compute_spacing(&requesting(&[2])), default_spacing());
}

#[test]
fn a_tighter_request_than_the_floor_is_raised_to_it() {
    let spacing = compute_spacing(&requesting(&[3, 6, 9, 12]));

    assert_eq!(spacing.requested, MIN_ORGANIC_RUN);
}

#[test]
fn a_request_wider_than_the_floor_is_left_alone() {
    let spacing = compute_spacing(&requesting(&[4, 14, 24]));

    assert_eq!(
        spacing,
        AdSpacing {
            requested: 10,
            min: 5
        }
    );
}

#[test]
fn an_incoherent_request_falls_back_to_the_default() {
    let spacing = compute_spacing(&requesting(&[4, 5]));

    assert!(1 < MIN_REQUESTED_GAP);
    assert_eq!(spacing, default_spacing());
}

#[test]
fn the_default_spacing_sits_at_the_floor() {
    assert!(default_spacing().requested == MIN_ORGANIC_RUN);
}

#[test]
fn a_response_that_cannot_hold_an_ad_at_the_floor_carries_none() {
    const { assert!(MIN_POSTS_FOR_ADS > MIN_ORGANIC_RUN) };
}

#[test]
fn only_the_first_four_ads_and_positive_gaps_count() {
    assert_eq!(compute_spacing(&requesting(&[30, 10, 10, 20, 11])).requested, 10);
    assert_eq!(compute_spacing(&requesting(&[7, 7, 7])), default_spacing());
    assert_eq!(compute_spacing(&requesting(&[0, 9])), AdSpacing { requested: 9, min: 5 });
    assert_eq!(default_spacing(), AdSpacing { requested: 6, min: 3 });
}

#[test]
fn safe_gaps_avoid_medium_risk_neighbours() {
    let posts = vec![
        post(1, BrandSafetyVerdict::LowRisk),
        post(2, BrandSafetyVerdict::MediumRisk),
        post(3, BrandSafetyVerdict::Other),
        post(4, BrandSafetyVerdict::Unspecified),
        post(5, BrandSafetyVerdict::LowRisk),
    ];
    assert!(has_avoid(&posts[1]));
    assert_eq!(find_safe_gaps(&posts), vec![3, 4]);
    assert!(find_safe_gaps(&Vec::new()).is_empty());
    assert!(find_safe_gaps(&vec![post(1, BrandSafetyVerdict::LowRisk)]).is_empty());
}

#[test]
fn a_safest_content_ad_is_dropped_next_to_a_low_risk_post() {
    let ad = ad_with(BrandSafetyRiskLevel::BsrIas, vec![]);
    let low = post(1, BrandSafetyVerdict::LowRisk);
    let other = post(2, BrandSafetyVerdict::Other);
    assert!(is_bsr_low_ad(&ad));
    assert!(should_drop_bsr_low(&ad, Some(&other), Some(&low)));
    assert!(!should_drop_bsr_low(&ad, Some(&other), None));
    let unknown = AdIndexInfo::default();
    assert!(!is_bsr_low_ad(&unknown));
    assert!(!should_drop_bsr_low(&unknown, Some(&low), Some(&low)));
}

#[test]
fn an_ad_is_dropped_next_to_a_blocked_author() {
    let ad = ad_with(BrandSafetyRiskLevel::BsrUnknown, vec![42]);
    assert!(should_drop_handle(&ad, Some(&post(42, BrandSafetyVerdict::LowRisk)), None));
    assert!(!should_drop_handle(&ad, Some(&post(41, BrandSafetyVerdict::LowRisk)), None));
    assert!(!should_drop_handle(&AdIndexInfo::default(), Some(&post(42, BrandSafetyVerdict::LowRisk)), None));
    let huge = ad_with(BrandSafetyRiskLevel::BsrUnknown, vec![-1]);
    assert!(should_drop_handle(&huge, None, Some(&post(u64::MAX, BrandSafetyVerdict::LowRisk))));
}

#[test]
fn posts_become_numbered_items() {
    let items: Vec<FeedItem<&str, u8>> = posts_to_feed_items(vec!["a", "b"]);
    assert_eq!(
        items,
        vec![
            FeedItem { position: 0, item: FeedEntry::Post("a") },
            FeedItem { position: 1, item: FeedEntry::Post("b") },
        ]
    );
}

#[test]
fn ads_go_before_the_posts_their_placements_name() {
    let items = interleave_and_finalize(vec!["p0", "p1", "p2", "p3"], vec![10u8, 11], &vec![1, 3], 100);
    let entries: Vec<FeedEntry<&str, u8>> = items.iter().map(|i| i.item.clone()).collect();
    assert_eq!(
        entries,
        vec![
            FeedEntry::Post("p0"),
            FeedEntry::Ad(10),
            FeedEntry::Post("p1"),
            FeedEntry::Post("p2"),
            FeedEntry::Ad(11),
            FeedEntry::Post("p3"),
        ]
    );
    assert!(items.iter().enumerate().all(|(k, item)| item.position == k as i32));
}

#[test]
fn a_cut_response_never_ends_with_an_ad() {
    let items = interleave_and_finalize(vec!["p0", "p1", "p2"], vec![10u8], &vec![1], 2);
    assert_eq!(items, vec![FeedItem { position: 0, item: FeedEntry::Post("p0") }]);
    let items = interleave_and_finalize(vec!["p0", "p1", "p2"], vec![10u8], &vec![1], 3);
    assert_eq!(items.len(), 3);
    assert_eq!(items[2], FeedItem { position: 2, item: FeedEntry::Post("p1") });
}

#[test]
fn placements_past_the_posts_consume_no_ads() {
    let items = interleave_and_finalize(vec!["p0"], Vec::<u8>::new(), &vec![5, 6], 10);
    assert_eq!(items, vec![FeedItem { position: 0, item: FeedEntry::Post("p0") }]);
}
