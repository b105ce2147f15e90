use hyprland_preview_share_picker::toplevel::Toplevel;

fn summary(list: &[Toplevel]) -> Vec<(u64, String, String, Option<u64>)> {
    list.iter().map(|t| (t.id, t.class.clone(), t.title.clone(), t.window_address)).collect()
}

#[test]
fn parse_two_records() {
    let list = Toplevel::parse_list("12[HC>]Firefox[HT>]Mozilla Firefox[HE>]34[HC>]Term[HT>]bash[HE>]");
    assert_eq!(
        summary(&list),
        vec![
            (12, "Firefox".to_string(), "Mozilla Firefox".to_string(), None),
            (34, "Term".to_string(), "bash".to_string(), None),
        ]
    );
}

#[test]
fn parse_empty_list() {
    assert!(Toplevel::parse_list("").is_empty());
}

#[test]
fn parse_stops_at_missing_title_separator() {
    assert!(Toplevel::parse_list("12[HC>]Firefox[HT>]Mozilla Firefox").is_empty());
    let list = Toplevel::parse_list("1[HC>]a[HT>]b[HE>]2[HC>]c[HT>]d");
    assert_eq!(summary(&list), vec![(1, "a".to_string(), "b".to_string(), None)]);
}

#[test]
fn parse_with_window_addresses() {
    let list = Toplevel::parse_list("5[HC>]kitty[HT>]~[HE>]94025[HA>]6[HC>]foot[HT>]sh[HE>]17[HA>]");
    assert_eq!(
        summary(&list),
        vec![
            (5, "kitty".to_string(), "~".to_string(), Some(94025)),
            (6, "foot".to_string(), "sh".to_string(), Some(17)),
        ]
    );
}

#[test]
fn parse_address_optional_per_record() {
    let list = Toplevel::parse_list("1[HC>]a[HT>]b[HE>]2[HC>]c[HT>]d[HE>]99[HA>]");
    assert_eq!(
        summary(&list),
        vec![(1, "a".to_string(), "b".to_string(), None), (2, "c".to_string(), "d".to_string(), Some(99))]
    );
}

#[test]
fn parse_stops_at_bad_id() {
    let list = Toplevel::parse_list("1[HC>]a[HT>]b[HE>]x[HC>]c[HT>]d[HE>]");
    assert_eq!(summary(&list), vec![(1, "a".to_string(), "b".to_string(), None)]);
    assert!(Toplevel::parse_list("[HC>]a[HT>]b[HE>]").is_empty());
    assert!(Toplevel::parse_list("-1[HC>]a[HT>]b[HE>]").is_empty());
}

#[test]
fn parse_id_limits() {
    let list = Toplevel::parse_list("18446744073709551615[HC>]a[HT>]b[HE>]");
    assert_eq!(summary(&list), vec![(u64::MAX, "a".to_string(), "b".to_string(), None)]);
    assert!(Toplevel::parse_list("18446744073709551616[HC>]a[HT>]b[HE>]").is_empty());
    let plus = Toplevel::parse_list("+7[HC>]a[HT>]b[HE>]");
    assert_eq!(plus[0].id, 7);
}

#[test]
fn parse_keeps_unicode_fields() {
    let list = Toplevel::parse_list("3[HC>]éditeur[HT>]naïve — ünïcode[HE>]");
    assert_eq!(summary(&list), vec![(3, "éditeur".to_string(), "naïve — ünïcode".to_string(), None)]);
}
