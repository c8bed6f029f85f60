use home_mixer::candidate_pipeline::candidate_features::GizmoduckAffiliateLabel;

fn label(screen_name: Option<&str>) -> GizmoduckAffiliateLabel {
    GizmoduckAffiliateLabel {
        screen_name: screen_name.map(str::to_string),
    }
}

#[test]
fn the_parent_handle_is_normalized() {
    assert_eq!(label(Some("@Tesla")).parent_handle(), Some("tesla".into()));
    assert_eq!(
        label(Some(" SpaceX ")).parent_handle(),
        Some("spacex".into())
    );
}

#[test]
fn an_empty_label_yields_no_handle() {
    assert_eq!(label(None).parent_handle(), None);
    assert_eq!(label(Some("  ")).parent_handle(), None);
}

#[test]
fn a_label_of_only_at_signs_yields_no_handle() {
    assert_eq!(label(Some(" @@ ")).parent_handle(), None);
    assert_eq!(label(Some("@X")).parent_handle(), Some("x".into()));
}
