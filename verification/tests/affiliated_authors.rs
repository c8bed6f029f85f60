use home_mixer::candidate::PostCandidate;
use home_mixer::scorers::affiliated_authors::{
    affiliated_organizations, affiliation_of, affiliation_of_handle, badge_of, is_affiliated, normalize,
};

fn badged(parent_handle: &str) -> PostCandidate {
    PostCandidate {
        author_affiliate_handle: Some(parent_handle.to_string()),
        ..Default::default()
    }
}

#[test]
fn every_organization_is_already_normalized() {
    for organization in affiliated_organizations() {
        assert_eq!(organization, normalize(organization), "{organization}");
    }
}

#[test]
fn a_badge_from_a_listed_organization_matches() {
    assert_eq!(affiliation_of_handle("Tesla"), Some("tesla"));
    assert_eq!(affiliation_of_handle(" @xAI "), Some("xai"));
}

#[test]
fn a_badge_from_anyone_else_does_not() {
    for parent in ["nasa", "teslarati", "boeing", "xaicorp", ""] {
        assert_eq!(affiliation_of_handle(parent), None, "{parent}");
    }
}

#[test]
fn an_affiliate_of_a_listed_organization_is_matched() {
    assert!(is_affiliated(&badged("SpaceX")));
}

#[test]
fn a_repost_of_an_affiliate_carries_the_affiliation() {
    let repost = PostCandidate {
        author_affiliate_handle: None,
        retweeted_affiliate_handle: Some("tesla".to_string()),
        ..Default::default()
    };

    assert_eq!(affiliation_of(&repost), Some("tesla"));
}

#[test]
fn an_account_with_no_badge_is_untouched() {
    assert!(!is_affiliated(&PostCandidate::default()));
    assert_eq!(badge_of(&PostCandidate::default()), None);
}

#[test]
fn a_badge_from_elsewhere_is_still_visible_to_the_metric() {
    let candidate = badged("nasa");

    assert_eq!(badge_of(&candidate), Some("nasa"));
    assert_eq!(affiliation_of(&candidate), None);
}

#[test]
fn an_unlisted_author_badge_falls_through_to_the_reposted_badge() {
    let candidate = PostCandidate {
        author_affiliate_handle: Some("nasa".to_string()),
        retweeted_affiliate_handle: Some("@X".to_string()),
        ..Default::default()
    };
    assert_eq!(badge_of(&candidate), Some("nasa"));
    assert_eq!(affiliation_of(&candidate), Some("x"));
    assert!(is_affiliated(&candidate));
}

#[test]
fn normalize_trims_strips_and_lowercases() {
    assert_eq!(normalize("  @@SpaceX\t"), "spacex");
    assert_eq!(normalize("Ünïcode"), "Ünïcode".to_ascii_lowercase());
}
