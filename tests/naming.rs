use worldview::{
    decimal, key_from_captures, parse_decimal_u32, parse_key, playback_order, Element, Filter,
    Key,
};

#[test]
fn element_labels_round_trip() {
    assert_eq!(Element::from(&"vertex".to_string()), Some(Element::Vertex));
    assert_eq!(Element::from(&"face".to_string()), Some(Element::Facet));
    assert_eq!(Element::from(&"edge".to_string()), None);
    assert_eq!(Element::from(&"Vertex".to_string()), None);
    assert_eq!(Element::Vertex.to_string(), "vertex");
    assert_eq!(Element::Facet.to_string(), "face");
}

#[test]
fn key_from_conventional_name() {
    let key = parse_key("1.cloudA.ply").unwrap();
    assert_eq!(key.instance, Some(1));
    assert_eq!(key.artifact, "cloudA");
}

#[test]
fn key_keeps_dots_inside_artifact() {
    let key = parse_key("12.recon.planes.ply").unwrap();
    assert_eq!(key.instance, Some(12));
    assert_eq!(key.artifact, "recon.planes");
}

#[test]
fn key_rejects_unconventional_names() {
    assert!(parse_key("readme.txt").is_none());
    assert!(parse_key("cloudA.ply").is_none());
    assert!(parse_key("exit_sentinel").is_none());
    assert!(parse_key("").is_none());
}

#[test]
fn key_instance_too_large_is_dropped() {
    let key = parse_key("99999999999.cloudA.ply").unwrap();
    assert_eq!(key.instance, None);
    assert_eq!(key.artifact, "cloudA");
}

#[test]
fn key_from_given_groups() {
    let groups = vec![
        Some("7.scan.ply".to_string()),
        Some("7".to_string()),
        Some("scan".to_string()),
    ];
    let key = key_from_captures(&groups).unwrap();
    assert_eq!(key.instance, Some(7));
    assert_eq!(key.artifact, "scan");
    let missing = vec![Some("x".to_string()), None, Some("scan".to_string())];
    assert!(key_from_captures(&missing).is_none());
    let short = vec![Some("x".to_string())];
    assert!(key_from_captures(&short).is_none());
}

#[test]
fn decimal_parsing_limits() {
    assert_eq!(parse_decimal_u32("0"), Some(0));
    assert_eq!(parse_decimal_u32("007"), Some(7));
    assert_eq!(parse_decimal_u32("4294967295"), Some(u32::MAX));
    assert_eq!(parse_decimal_u32("4294967296"), None);
    assert_eq!(parse_decimal_u32(""), None);
    assert_eq!(parse_decimal_u32("12a"), None);
    assert_eq!(parse_decimal_u32("+5"), None);
}

#[test]
fn decimal_text() {
    assert_eq!(decimal(0), "0");
    assert_eq!(decimal(10), "10");
    assert_eq!(decimal(u32::MAX), "4294967295");
}

#[test]
fn key_text_with_and_without_instance() {
    let tagged = Key { instance: Some(3), artifact: "cloudA".to_string() };
    assert_eq!(tagged.to_string(), "cloudA[3]");
    let plain = Key { instance: None, artifact: "cloudA".to_string() };
    assert_eq!(plain.to_string(), "cloudA");
}

#[test]
fn empty_filter_admits_everything() {
    let filter = Filter::new(&vec![]).unwrap();
    assert!(filter.admits("cloudA"));
    assert!(filter.admits(""));
}

#[test]
fn filter_admits_listed_streams() {
    let filter = Filter::new(&vec!["cloud".to_string(), "^mesh$".to_string()]).unwrap();
    assert!(filter.admits("cloudA"));
    assert!(filter.admits("mesh"));
    assert!(!filter.admits("meshB"));
    assert!(!filter.admits("planes"));
}

#[test]
fn invalid_filter_is_refused() {
    assert!(Filter::new(&vec!["(".to_string()]).is_none());
}

#[test]
fn playback_order_filters_and_sorts() {
    let filter = Filter::new(&vec![]).unwrap();
    let names = vec![
        "2.b.ply".to_string(),
        "1.a.ply".to_string(),
        "notes.txt".to_string(),
        "10.c.ply".to_string(),
        "1.b.ply".to_string(),
    ];
    let order = playback_order(names, &filter);
    assert_eq!(order, vec!["1.a.ply", "1.b.ply", "10.c.ply", "2.b.ply"]);
}

#[test]
fn playback_order_applies_artifact_filter() {
    let filter = Filter::new(&vec!["^a$".to_string()]).unwrap();
    let names = vec!["2.a.ply".to_string(), "1.b.ply".to_string(), "1.a.ply".to_string()];
    let order = playback_order(names, &filter);
    assert_eq!(order, vec!["1.a.ply", "2.a.ply"]);
}

#[test]
fn playback_order_of_empty_listing() {
    let filter = Filter::new(&vec![]).unwrap();
    assert!(playback_order(vec![], &filter).is_empty());
}
