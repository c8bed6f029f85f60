use home_mixer::candidate::{PostCandidate, ScoredPostsQuery};
use home_mixer::filters::feed_quality_filter::{FeedQualityFilter, MAX_SHORT_FORM_VIDEO_DURATION_MS};
use home_mixer::filters::template_spam_filter::TemplateSpamFilter;
use home_mixer::template::MIN_TEMPLATE_CHARACTER_COUNT;

fn candidate(id: u64, text: &str) -> PostCandidate {
    PostCandidate {
        tweet_id: id,
        in_network: Some(true),
        tweet_text: text.to_string(),
        ..Default::default()
    }
}

fn spam_filter(candidates: Vec<PostCandidate>) -> (Vec<u64>, Vec<u64>) {
    let result = TemplateSpamFilter.filter(&ScoredPostsQuery::default(), candidates);
    (
        result.kept.iter().map(|c| c.tweet_id).collect(),
        result.removed.iter().map(|c| c.tweet_id).collect(),
    )
}

#[test]
fn template_spam_filter_removes_repeated_normalized_templates() {
    let (kept, removed) = spam_filter(vec![
        candidate(
            1,
            "Daily update for @alice has the same repeated template number 100 https://one.test",
        ),
        candidate(
            2,
            "Daily update for @bob has the same repeated template number 200 https://two.test",
        ),
    ]);

    assert_eq!(kept, vec![1]);
    assert_eq!(removed, vec![2]);
}

#[test]
fn keeps_distinct_posts() {
    let (kept, removed) = spam_filter(vec![
        candidate(1, "The city council approved the new transit budget this morning"),
        candidate(2, "Rain is expected across the region for most of the weekend"),
    ]);

    assert_eq!(kept, vec![1, 2]);
    assert!(removed.is_empty());
}

#[test]
fn never_dedupes_short_posts() {
    let (kept, removed) = spam_filter(vec![
        candidate(1, "good morning"),
        candidate(2, "good morning"),
        candidate(3, "good morning"),
    ]);

    assert_eq!(kept, vec![1, 2, 3]);
    assert!(removed.is_empty());
}

#[test]
fn keeps_candidates_missing_network_hydration() {
    let unhydrated = PostCandidate {
        tweet_id: 1,
        in_network: None,
        tweet_text: "An ordinary post with no duplicate anywhere in this batch".to_string(),
        ..Default::default()
    };

    let (kept, removed) = spam_filter(vec![unhydrated]);

    assert_eq!(kept, vec![1]);
    assert!(removed.is_empty());
}

#[test]
fn the_template_masks_links_mentions_and_numbers() {
    let template = TemplateSpamFilter::normalize_template(
        "Daily update for @alice has the same repeated template number 100 https://one.test",
    );
    assert_eq!(
        template.as_deref(),
        Some("daily update for <user> has the same repeated template number <number> <url>")
    );
}

#[test]
fn punctuation_only_tokens_vanish_and_words_are_cleaned() {
    let template = TemplateSpamFilter::normalize_template(
        "WOW!!! -- This, is: a (really) long-winded post; about nothing at all...",
    );
    assert_eq!(
        template.as_deref(),
        Some("wow this is a really longwinded post about nothing at all")
    );
}

#[test]
fn too_few_words_yield_no_template() {
    assert_eq!(
        TemplateSpamFilter::normalize_template(
            "supercalifragilisticexpialidocious antidisestablishmentarianism floccinaucinihilipilification"
        ),
        None
    );
}

#[test]
fn both_template_filters_count_characters_not_bytes() {
    let text = "аб вг де жз ий кл мн оп рс";
    assert!(text.len() >= MIN_TEMPLATE_CHARACTER_COUNT);
    assert!(TemplateSpamFilter::normalize_template(text).is_none());
    assert!(FeedQualityFilter::normalize_template(text).is_none());
    let (kept, removed) = spam_filter(vec![candidate(1, text), candidate(2, text)]);
    assert_eq!(kept, vec![1, 2]);
    assert!(removed.is_empty());
}

#[test]
fn a_third_repeat_is_removed_too_and_the_first_stays() {
    let text = "one two three four five six seven eight nine ten eleven twelve";
    let (kept, removed) = spam_filter(vec![
        candidate(1, text),
        candidate(2, "something else entirely here"),
        candidate(3, text),
        candidate(4, &text.to_uppercase()),
    ]);
    assert_eq!(kept, vec![1, 2]);
    assert_eq!(removed, vec![3, 4]);
}

#[test]
fn removes_unknown_network_candidates() {
    let unknown = PostCandidate {
        tweet_id: 1,
        in_network: None,
        ..Default::default()
    };
    let result = FeedQualityFilter.filter(&ScoredPostsQuery::default(), vec![unknown]);

    assert!(result.kept.is_empty());
    assert_eq!(result.removed.len(), 1);
}

#[test]
fn removes_short_form_video_candidates() {
    let mut short_video = candidate(1, "A short video");
    short_video.min_video_duration_ms = Some(MAX_SHORT_FORM_VIDEO_DURATION_MS);
    let result = FeedQualityFilter.filter(&ScoredPostsQuery::default(), vec![short_video]);

    assert!(result.kept.is_empty());
    assert_eq!(result.removed.len(), 1);
}

#[test]
fn preserves_long_form_video_candidates() {
    let mut long_video = candidate(1, "A long video");
    long_video.min_video_duration_ms = Some(MAX_SHORT_FORM_VIDEO_DURATION_MS + 1);
    let result = FeedQualityFilter.filter(&ScoredPostsQuery::default(), vec![long_video]);

    assert_eq!(result.kept.len(), 1);
    assert!(result.removed.is_empty());
}

#[test]
fn removes_explicit_engagement_bait() {
    let bait = candidate(1, "Like and repost if this made your day");
    let result = FeedQualityFilter.filter(&ScoredPostsQuery::default(), vec![bait]);

    assert!(result.kept.is_empty());
    assert_eq!(result.removed.len(), 1);
}

#[test]
fn removes_high_confidence_clickbait() {
    let clickbait = candidate(1, "You won't believe what happened next in this story");
    let result = FeedQualityFilter.filter(&ScoredPostsQuery::default(), vec![clickbait]);

    assert!(result.kept.is_empty());
    assert_eq!(result.removed.len(), 1);
}

#[test]
fn removes_restricted_direct_authors_case_insensitively() {
    let mut restricted = candidate(1, "A regular post");
    restricted.author_screen_name = Some("DogeDesigner".to_string());
    let result = FeedQualityFilter.filter(&ScoredPostsQuery::default(), vec![restricted]);

    assert!(result.kept.is_empty());
    assert_eq!(result.removed.len(), 1);
}

#[test]
fn removes_retweets_of_restricted_authors() {
    let mut restricted = candidate(1, "A retweeted post");
    restricted.retweeted_screen_name = Some("@TeslaOwnersSV".to_string());
    let result = FeedQualityFilter.filter(&ScoredPostsQuery::default(), vec![restricted]);

    assert!(result.kept.is_empty());
    assert_eq!(result.removed.len(), 1);
}

#[test]
fn template_length_is_measured_in_characters_not_bytes() {
    let text = "аб вг де жз ий кл мн оп рс";
    assert_eq!(text.chars().count(), 26);
    assert!(text.len() >= MIN_TEMPLATE_CHARACTER_COUNT);

    let result = FeedQualityFilter.filter(
        &ScoredPostsQuery::default(),
        vec![candidate(1, text), candidate(2, text)],
    );

    assert_eq!(result.kept.len(), 2);
    assert!(result.removed.is_empty());
}

#[test]
fn long_multibyte_templates_are_still_deduped() {
    let text = "аб вг де жз ий кл мн оп рс ту фх цч шщ ыэ юя аб вг де жз ий";
    assert!(text.chars().count() >= 40);

    let result = FeedQualityFilter.filter(
        &ScoredPostsQuery::default(),
        vec![candidate(1, text), candidate(2, text)],
    );

    assert_eq!(result.kept.len(), 1);
    assert_eq!(result.removed.len(), 1);
}

#[test]
fn feed_quality_filter_removes_repeated_normalized_templates() {
    let first = candidate(
        1,
        "Daily update for @alice has the same repeated template number 100 https://one.test",
    );
    let second = candidate(
        2,
        "Daily update for @bob has the same repeated template number 200 https://two.test",
    );
    let result = FeedQualityFilter.filter(&ScoredPostsQuery::default(), vec![first, second]);

    assert_eq!(result.kept.len(), 1);
    assert_eq!(result.removed.len(), 1);
    assert_eq!(result.kept[0].tweet_id, 1);
}

#[test]
fn a_template_first_seen_on_a_removed_post_does_not_remove_a_later_one() {
    let text = "one two three four five six seven eight nine ten eleven twelve";
    let mut restricted = candidate(1, text);
    restricted.author_screen_name = Some("nikitabier".to_string());
    let result = FeedQualityFilter.filter(
        &ScoredPostsQuery::default(),
        vec![restricted, candidate(2, text), candidate(3, text)],
    );
    assert_eq!(result.kept.iter().map(|c| c.tweet_id).collect::<Vec<_>>(), vec![2]);
    assert_eq!(result.removed.iter().map(|c| c.tweet_id).collect::<Vec<_>>(), vec![1, 3]);
}

#[test]
fn quoted_short_video_and_phrase_rules_apply_on_their_own() {
    let mut quoted = candidate(1, "A post quoting a clip");
    quoted.quoted_video_duration_ms = Some(5_000);
    assert!(FeedQualityFilter::should_remove(&quoted));
    assert!(FeedQualityFilter::is_engagement_bait("FOLLOW FOR MORE tips"));
    assert!(!FeedQualityFilter::is_engagement_bait("I follow for my own reasons"));
    assert!(FeedQualityFilter::is_clickbait("Wait until you see this"));
    assert!(!FeedQualityFilter::should_remove(&candidate(2, "An ordinary update")));
}

#[test]
fn lowercase_tokens_map_to_their_templates() {
    use_template(home_mixer::template::template_of_lowercase_token(&"https://x.test/a".chars().collect()), Some("<url>"));
    use_template(home_mixer::template::template_of_lowercase_token(&"@someone".chars().collect()), Some("<user>"));
    use_template(home_mixer::template::template_of_lowercase_token(&"2024!".chars().collect()), Some("<number>"));
    use_template(home_mixer::template::template_of_lowercase_token(&"it's".chars().collect()), Some("its"));
    use_template(home_mixer::template::template_of_lowercase_token(&"...".chars().collect()), None);
}

fn use_template(template: Option<Vec<char>>, expected: Option<&str>) {
    assert_eq!(template.map(|t| t.into_iter().collect::<String>()).as_deref(), expected);
}

#[test]
fn phrases_are_found_in_lowercased_text_only_as_given() {
    let phrases = vec!["like and repost", "comment below"];
    let lower: Vec<char> = "please comment below!".chars().collect();
    let upper: Vec<char> = "PLEASE COMMENT BELOW!".chars().collect();
    assert!(FeedQualityFilter::holds_any_phrase(&lower, &phrases));
    assert!(!FeedQualityFilter::holds_any_phrase(&upper, &phrases));
    assert!(FeedQualityFilter::contains_phrase("PLEASE COMMENT BELOW!", &phrases));
}
