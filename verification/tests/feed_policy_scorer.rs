use home_mixer::candidate::PostCandidate;
use home_mixer::scorers::feed_policy_scorer::{
    FeedPolicyScorer, MentionCounts, NetworkMembership, PolicyFactors, WEIGHT_DENOMINATOR,
};

fn candidate(author_id: u64, text: &str) -> PostCandidate {
    PostCandidate {
        author_id,
        in_network: Some(true),
        tweet_text: text.to_string(),
        ..Default::default()
    }
}

#[test]
fn network_membership_follows_hydration() {
    assert_eq!(FeedPolicyScorer::network_membership(Some(true)), NetworkMembership::InNetwork);
    assert_eq!(FeedPolicyScorer::network_membership(Some(false)), NetworkMembership::OutOfNetwork);
    assert_eq!(FeedPolicyScorer::network_membership(None), NetworkMembership::Unknown);
}

#[test]
fn hard_news_is_any_listed_topic_in_either_list() {
    let hard_news_ids = vec![100, 200];
    let filtered = PostCandidate { filtered_topic_ids: Some(vec![7, 200]), ..Default::default() };
    let unfiltered = PostCandidate { unfiltered_topic_ids: Some(vec![100]), ..Default::default() };
    let neither = PostCandidate { filtered_topic_ids: Some(vec![7]), ..Default::default() };
    assert!(FeedPolicyScorer::is_hard_news(&filtered, &hard_news_ids));
    assert!(FeedPolicyScorer::is_hard_news(&unfiltered, &hard_news_ids));
    assert!(!FeedPolicyScorer::is_hard_news(&neither, &hard_news_ids));
    assert!(!FeedPolicyScorer::is_hard_news(&PostCandidate::default(), &hard_news_ids));
}

#[test]
fn elon_mentions_are_whole_alphanumeric_tokens_in_any_ascii_case() {
    assert!(FeedPolicyScorer::mentions_elon_musk("Elon announced another product"));
    assert!(FeedPolicyScorer::mentions_elon_musk("thanks @ElonMusk!"));
    assert!(FeedPolicyScorer::mentions_elon_musk("ELON."));
    assert!(!FeedPolicyScorer::mentions_elon_musk("Elongated shadows"));
    assert!(!FeedPolicyScorer::mentions_elon_musk("An unrelated post"));
}

#[test]
fn an_author_above_a_quarter_of_mentions_is_overexposed() {
    let candidates = vec![
        candidate(7, "Elon announced another product"),
        candidate(7, "A second Elon post"),
        candidate(7, "An unrelated post"),
        candidate(7, "Another unrelated post"),
    ];
    let counts = FeedPolicyScorer::author_elon_mention_counts(&candidates);
    let seven = counts.get(&7).copied();
    assert_eq!(seven, Some(MentionCounts { post_count: 4, mention_count: 2 }));
    assert!(FeedPolicyScorer::is_overexposed(seven));
    assert_eq!(
        FeedPolicyScorer::policy_factors(&candidates[0], seven, &vec![]),
        PolicyFactors {
            network: NetworkMembership::InNetwork,
            hard_news: false,
            overexposed_topic: true,
            affiliated: false,
            government: false,
            low_quality_text: false,
        }
    );
}

#[test]
fn exactly_a_quarter_is_not_overexposed() {
    let candidates = vec![
        candidate(7, "Elon announced another product"),
        candidate(7, "An unrelated post"),
        candidate(7, "Another unrelated post"),
        candidate(7, "One more unrelated post"),
    ];
    let counts = FeedPolicyScorer::author_elon_mention_counts(&candidates);
    let seven = counts.get(&7).copied();
    assert_eq!(seven, Some(MentionCounts { post_count: 4, mention_count: 1 }));
    assert!(!FeedPolicyScorer::is_overexposed(seven));
}

#[test]
fn a_single_post_is_never_overexposed() {
    let candidates = vec![candidate(7, "Elon announced another product")];
    let counts = FeedPolicyScorer::author_elon_mention_counts(&candidates);
    assert_eq!(counts.get(&7).copied(), Some(MentionCounts { post_count: 1, mention_count: 1 }));
    assert!(!FeedPolicyScorer::is_overexposed(counts.get(&7).copied()));
    assert!(!FeedPolicyScorer::is_overexposed(None));
}

#[test]
fn reposts_count_toward_the_original_author() {
    let candidates = vec![
        PostCandidate { author_id: 1, retweeted_user_id: Some(9), tweet_text: "elon".into(), ..Default::default() },
        candidate(9, "hello"),
        candidate(1, "elonmusk"),
    ];
    let counts = FeedPolicyScorer::author_elon_mention_counts(&candidates);
    assert_eq!(counts.len(), 2);
    assert_eq!(counts.get(&9).copied(), Some(MentionCounts { post_count: 2, mention_count: 1 }));
    assert_eq!(counts.get(&1).copied(), Some(MentionCounts { post_count: 1, mention_count: 1 }));
}

#[test]
fn tokens_name_elon_in_any_ascii_case() {
    let tokens = |words: &[&str]| -> Vec<Vec<char>> { words.iter().map(|w| w.chars().collect()).collect() };
    assert!(FeedPolicyScorer::any_token_names_elon(&tokens(&["", "EloNMusK"])));
    assert!(!FeedPolicyScorer::any_token_names_elon(&tokens(&["elons", "musk"])));
    assert!(!FeedPolicyScorer::any_token_names_elon(&tokens(&[])));
}

fn plain_in_network() -> PostCandidate {
    PostCandidate { in_network: Some(true), tweet_text: "A regular post".into(), ..Default::default() }
}

fn weight(c: &PostCandidate) -> u64 {
    FeedPolicyScorer::policy_weight(c, None, &vec![100])
}

#[test]
fn plain_weights_are_exact_fractions() {
    assert_eq!(WEIGHT_DENOMINATOR, 320);
    // In network: 2.
    assert_eq!(weight(&plain_in_network()), 640);
    // Out of network, hard news: 1/10 * 3/2.
    let news = PostCandidate {
        in_network: Some(false),
        filtered_topic_ids: Some(vec![100]),
        ..Default::default()
    };
    assert_eq!(weight(&news), 48);
    // Unknown network: nothing.
    assert_eq!(weight(&PostCandidate::default()), 0);
}

#[test]
fn overexposed_author_is_halved() {
    let c = plain_in_network();
    let counts = Some(MentionCounts { post_count: 4, mention_count: 2 });
    assert_eq!(FeedPolicyScorer::policy_weight(&c, counts, &vec![]), 320);
}

#[test]
fn listed_badge_halves_the_weight() {
    let badged = PostCandidate { author_affiliate_handle: Some("tesla".into()), ..plain_in_network() };
    assert!(FeedPolicyScorer::policy_factors(&badged, None, &vec![]).affiliated);
    assert_eq!(weight(&badged), 320);
    assert!(weight(&badged) < weight(&plain_in_network()));
}

#[test]
fn government_rosters_halve_the_weight() {
    for name in ["POTUS", "10DowningStreet"] {
        let listed = PostCandidate { author_screen_name: Some(name.into()), ..plain_in_network() };
        assert!(FeedPolicyScorer::policy_factors(&listed, None, &vec![]).government);
        assert_eq!(weight(&listed), 320);
    }
}

#[test]
fn engagement_bait_and_clickbait_halve_the_weight() {
    for text in ["Like and repost if this made your day", "You won't believe what happened next in this story"] {
        let bait = PostCandidate { tweet_text: text.into(), ..plain_in_network() };
        assert!(FeedPolicyScorer::policy_factors(&bait, None, &vec![]).low_quality_text);
        assert_eq!(weight(&bait), 320);
    }
}

#[test]
fn deranks_compound() {
    let all = PolicyFactors {
        network: NetworkMembership::InNetwork,
        hard_news: true,
        overexposed_topic: true,
        affiliated: true,
        government: true,
        low_quality_text: true,
    };
    // 2 * 3/2 / 16 = 3/16 = 60/320.
    assert_eq!(FeedPolicyScorer::policy_weight_numerator(&all), 60);
}

#[test]
fn enough_posts_starts_at_four() {
    assert!(!FeedPolicyScorer::has_enough_posts(&MentionCounts { post_count: 3, mention_count: 3 }));
    assert!(FeedPolicyScorer::has_enough_posts(&MentionCounts { post_count: 4, mention_count: 0 }));
}
