use home_mixer::candidate::{PostCandidate, ScoredPostsQuery};
use home_mixer::filters::suppressed_authors_filter::{suppressed_screen_names, SuppressedAuthorsFilter};

fn authored_by(screen_name: Option<&str>) -> PostCandidate {
    PostCandidate {
        tweet_id: 1,
        author_screen_name: screen_name.map(str::to_string),
        ..Default::default()
    }
}

fn is_removed(candidate: PostCandidate) -> bool {
    let result = SuppressedAuthorsFilter.filter(&ScoredPostsQuery::default(), vec![candidate]);
    result.kept.is_empty() && result.removed.len() == 1
}

#[test]
fn removes_suppressed_authors() {
    assert!(is_removed(authored_by(Some("dogedesigner"))));
}

#[test]
fn matching_is_case_insensitive() {
    assert!(is_removed(authored_by(Some("DogeDesigner"))));
}

#[test]
fn matching_ignores_a_leading_at_sign_and_whitespace() {
    assert!(is_removed(authored_by(Some("  @DogeDesigner "))));
}

#[test]
fn removes_reposts_of_suppressed_authors() {
    let repost = PostCandidate {
        tweet_id: 1,
        author_screen_name: Some("someone_else".to_string()),
        retweeted_screen_name: Some("@TeslaOwnersSV".to_string()),
        ..Default::default()
    };

    assert!(is_removed(repost));
}

#[test]
fn keeps_everyone_else() {
    assert!(!is_removed(authored_by(Some("someone_else"))));
}

#[test]
fn keeps_candidates_missing_screen_name_hydration() {
    // Fail open: a degraded hydration must not start removing unrelated posts.
    assert!(!is_removed(authored_by(None)));
}

#[test]
fn does_not_match_on_a_substring_of_a_listed_name() {
    assert!(!is_removed(authored_by(Some("dogedesigner_fan"))));
    assert!(!is_removed(authored_by(Some("not_dogedesigner"))));
}

#[test]
fn the_list_is_stored_normalized() {
    for name in suppressed_screen_names() {
        assert_eq!(name, name.trim().trim_start_matches('@').to_lowercase());
    }
}

#[test]
fn suppression_keeps_input_order_and_splits_the_batch() {
    let candidates = vec![
        authored_by(Some("a")),
        PostCandidate { tweet_id: 2, ..authored_by(Some("WholeMars")) },
        PostCandidate { tweet_id: 3, ..authored_by(Some("b")) },
        PostCandidate { tweet_id: 4, ..authored_by(Some("@xfreeze")) },
    ];
    let result = SuppressedAuthorsFilter.filter(&ScoredPostsQuery::default(), candidates);
    let kept: Vec<u64> = result.kept.iter().map(|c| c.tweet_id).collect();
    let removed: Vec<u64> = result.removed.iter().map(|c| c.tweet_id).collect();
    assert_eq!(kept, vec![1, 3]);
    assert_eq!(removed, vec![2, 4]);
}

#[test]
fn is_suppressed_fails_open_on_a_missing_name() {
    assert!(!SuppressedAuthorsFilter::is_suppressed(None));
    assert!(SuppressedAuthorsFilter::is_suppressed(Some("\tKettleBellDan\n")));
}
