use home_mixer::candidate::PostCandidate;
use home_mixer::scorers::government_authors::{
    affiliate_handles, foreign_government_handles, is_foreign_government, is_listed,
    is_trump_administration, normalize, screen_names, trump_administration_handles,
};

fn authored_by(screen_name: &str) -> PostCandidate {
    PostCandidate {
        author_screen_name: Some(screen_name.to_string()),
        ..Default::default()
    }
}

#[test]
fn every_roster_entry_is_normalized_and_unique() {
    let mut all: Vec<&str> = trump_administration_handles()
        .into_iter()
        .chain(foreign_government_handles())
        .collect();

    for handle in &all {
        assert_eq!(*handle, normalize(handle), "{handle}");
    }
    all.sort_unstable();
    assert!(
        all.windows(2).all(|pair| pair[0] != pair[1]),
        "government rosters must not overlap or contain duplicates"
    );
}

#[test]
fn current_trump_administration_accounts_match_exactly() {
    assert!(is_trump_administration(&authored_by("@WhiteHouse")));
    assert!(is_trump_administration(&authored_by("POTUS")));
    assert!(is_trump_administration(&authored_by("RapidResponse47")));
    assert!(!is_trump_administration(&authored_by("WhiteHouse45")));
}

#[test]
fn foreign_government_accounts_match_exactly() {
    assert!(is_foreign_government(&authored_by("10DowningStreet")));
    assert!(is_foreign_government(&authored_by("@CanadianPM")));
    assert!(is_foreign_government(&authored_by("MFA_China")));
    assert!(!is_foreign_government(&authored_by("CanadianPMFan")));
}

#[test]
fn reposts_carry_the_government_classification() {
    let trump_repost = PostCandidate {
        retweeted_screen_name: Some("PressSec".to_string()),
        ..Default::default()
    };
    let foreign_repost = PostCandidate {
        retweeted_screen_name: Some("Elysee".to_string()),
        ..Default::default()
    };

    assert!(is_trump_administration(&trump_repost));
    assert!(is_foreign_government(&foreign_repost));
}

#[test]
fn affiliate_badges_cover_government_staff_accounts() {
    let foreign_affiliate = PostCandidate {
        author_screen_name: Some("a_diplomat".to_string()),
        author_affiliate_handle: Some("10DowningStreet".to_string()),
        ..Default::default()
    };

    assert!(is_foreign_government(&foreign_affiliate));
}

#[test]
fn other_us_government_and_state_media_are_out_of_scope() {
    for handle in ["StateDept", "SenateFloor", "RT_com", "CGTNOfficial"] {
        let candidate = authored_by(handle);
        assert!(!is_trump_administration(&candidate), "{handle}");
        assert!(!is_foreign_government(&candidate), "{handle}");
    }
}

#[test]
fn political_text_does_not_classify_an_unlisted_author() {
    let candidate = PostCandidate {
        author_screen_name: Some("localreporter".to_string()),
        tweet_text: "A report on the Trump administration and several foreign governments"
            .to_string(),
        ..Default::default()
    };

    assert!(!is_trump_administration(&candidate));
    assert!(!is_foreign_government(&candidate));
}

#[test]
fn normalization_is_case_insensitive_and_ignores_at_prefix() {
    assert!(is_listed(" @POTUS ", &trump_administration_handles()));
    assert!(is_listed(" @EUCouncil ", &foreign_government_handles()));
}

#[test]
fn missing_hydration_fails_open() {
    let candidate = PostCandidate::default();
    assert!(screen_names(&candidate).is_empty());
    assert!(affiliate_handles(&candidate).is_empty());
    assert!(!is_trump_administration(&candidate));
    assert!(!is_foreign_government(&candidate));
}

#[test]
fn handles_are_collected_in_order() {
    let candidate = PostCandidate {
        author_screen_name: Some("a".to_string()),
        retweeted_screen_name: Some("b".to_string()),
        retweeted_affiliate_handle: Some("c".to_string()),
        ..Default::default()
    };
    assert_eq!(screen_names(&candidate), vec!["a", "b"]);
    assert_eq!(affiliate_handles(&candidate), vec!["c"]);
}
