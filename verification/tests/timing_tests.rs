use band_lighthshow::timing::{duration_for, DAB, DASH, DORK, DOT, DROOL, FAST, FOURPHISH, PHISH, SLO, SLP};

#[test]
fn named_waits_match_constants() {
    assert_eq!(duration_for("slp"), Some(SLP));
    assert_eq!(duration_for("SLP"), Some(SLP));
    assert_eq!(duration_for("fourphish"), Some(FOURPHISH));
    assert_eq!(duration_for("nope"), None);
}

#[test]
fn every_wait_name_and_its_millis() {
    assert_eq!(duration_for("dot"), Some(100));
    assert_eq!(duration_for("dash"), Some(300));
    assert_eq!(duration_for("dork"), Some(150));
    assert_eq!(duration_for("drool"), Some(1000));
    assert_eq!(duration_for("dab"), Some(50));
    assert_eq!(duration_for("slo"), Some(750));
    assert_eq!(duration_for("fast"), Some(375));
    assert_eq!(duration_for("phish"), Some(50));
    assert_eq!((DOT, DASH, DORK, DROOL, DAB, SLO, FAST, PHISH), (100, 300, 150, 1000, 50, 750, 375, 50));
}

#[test]
fn wait_names_ignore_ascii_case_only() {
    assert_eq!(duration_for("FourPhish"), duration_for("fourphish"));
    assert_eq!(duration_for("DaB"), Some(DAB));
    assert_eq!(duration_for("slp "), None);
    assert_eq!(duration_for(""), None);
    assert_eq!(duration_for("sl"), None);
}
