use home_mixer::candidate::{get_related_post_ids, PostCandidate, ScoredPostsQuery};
use home_mixer::filters::previously_seen_posts_backup_filter::PreviouslySeenPostsBackupFilter;
use home_mixer::filters::previously_served_posts_filter::PreviouslyServedPostsFilter;

#[test]
fn removes_served_posts_on_every_request_type() {
    let query = ScoredPostsQuery {
        served_ids: vec![42],
        is_bottom_request: false,
        is_top_request: true,
        ..Default::default()
    };
    let candidates = vec![
        PostCandidate {
            tweet_id: 42,
            ..Default::default()
        },
        PostCandidate {
            tweet_id: 43,
            ..Default::default()
        },
    ];

    let result = PreviouslyServedPostsFilter.filter(&query, candidates);

    assert_eq!(result.kept.len(), 1);
    assert_eq!(result.kept[0].tweet_id, 43);
    assert_eq!(result.removed.len(), 1);
    assert_eq!(result.removed[0].tweet_id, 42);
}

#[test]
fn removes_retweets_of_a_served_source_post() {
    let query = ScoredPostsQuery {
        served_ids: vec![42],
        ..Default::default()
    };
    let candidate = PostCandidate {
        tweet_id: 99,
        retweeted_tweet_id: Some(42),
        ..Default::default()
    };

    let result = PreviouslyServedPostsFilter.filter(&query, vec![candidate]);

    assert!(result.kept.is_empty());
    assert_eq!(result.removed.len(), 1);
}

#[test]
fn removes_impressed_posts_after_history_hydration() {
    let query = ScoredPostsQuery {
        impressed_post_ids: vec![42],
        ..Default::default()
    };
    let candidates = vec![
        PostCandidate {
            tweet_id: 42,
            ..Default::default()
        },
        PostCandidate {
            tweet_id: 43,
            ..Default::default()
        },
    ];

    let result = PreviouslySeenPostsBackupFilter.filter(&query, candidates);

    assert_eq!(result.kept.len(), 1);
    assert_eq!(result.kept[0].tweet_id, 43);
    assert_eq!(result.removed.len(), 1);
    assert_eq!(result.removed[0].tweet_id, 42);
}

#[test]
fn removes_retweets_of_impressed_source_posts() {
    let query = ScoredPostsQuery {
        impressed_post_ids: vec![42],
        ..Default::default()
    };
    let candidate = PostCandidate {
        tweet_id: 99,
        retweeted_tweet_id: Some(42),
        ..Default::default()
    };

    let result = PreviouslySeenPostsBackupFilter.filter(&query, vec![candidate]);

    assert!(result.kept.is_empty());
    assert_eq!(result.removed.len(), 1);
}

#[test]
fn without_impression_history_everything_is_kept() {
    let candidates = vec![
        PostCandidate { tweet_id: 1, ..Default::default() },
        PostCandidate { tweet_id: 2, retweeted_tweet_id: Some(7), ..Default::default() },
    ];
    let result = PreviouslySeenPostsBackupFilter.filter(&ScoredPostsQuery::default(), candidates);
    assert_eq!(result.kept.iter().map(|c| c.tweet_id).collect::<Vec<_>>(), vec![1, 2]);
    assert!(result.removed.is_empty());
}

#[test]
fn reposts_of_a_served_post_are_removed_and_order_is_kept() {
    let query = ScoredPostsQuery { served_ids: vec![5, 6], ..Default::default() };
    let candidates = vec![
        PostCandidate { tweet_id: 10, ..Default::default() },
        PostCandidate { tweet_id: 11, retweeted_tweet_id: Some(6), ..Default::default() },
        PostCandidate { tweet_id: 12, ..Default::default() },
        PostCandidate { tweet_id: 5, ..Default::default() },
    ];
    let result = PreviouslyServedPostsFilter.filter(&query, candidates);
    assert_eq!(result.kept.iter().map(|c| c.tweet_id).collect::<Vec<_>>(), vec![10, 12]);
    assert_eq!(result.removed.iter().map(|c| c.tweet_id).collect::<Vec<_>>(), vec![11, 5]);
}

#[test]
fn related_post_ids_are_the_post_and_its_source() {
    let c = PostCandidate {
        tweet_id: 1,
        retweeted_tweet_id: Some(2),
        ..Default::default()
    };
    assert_eq!(get_related_post_ids(&c), vec![1, 2]);
    assert_eq!(get_related_post_ids(&PostCandidate { tweet_id: 9, ..Default::default() }), vec![9]);
}

#[test]
fn the_original_author_of_a_repost_is_the_reposted_account() {
    let repost = PostCandidate { author_id: 1, retweeted_user_id: Some(2), ..Default::default() };
    assert_eq!(repost.get_original_author_id(), 2);
    let post = PostCandidate { author_id: 1, ..Default::default() };
    assert_eq!(post.get_original_author_id(), 1);
}
