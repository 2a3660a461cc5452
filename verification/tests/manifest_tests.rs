use coordinate_stats::manifest::parse_manifest_text;

#[test]
fn two_lines_give_multiplicity_two() {
    let m = parse_manifest_text("001.zip,x\n001.zip,y");
    assert_eq!(m.get_str("001.zip"), 2);
}

#[test]
fn absent_name_has_multiplicity_zero() {
    let m = parse_manifest_text("001.zip,x\n001.zip,y");
    assert_eq!(m.get_str("002.zip"), 0);
}

#[test]
fn multiplicity_counts_matching_lines_only() {
    let text = "header line\n003.zip,a\nnot-a-ref\n003.zip,b\n004.zip,c\n003.zip,d\n";
    let m = parse_manifest_text(text);
    assert_eq!(m.get_str("003.zip"), 3);
    assert_eq!(m.get_str("004.zip"), 1);
    assert_eq!(m.get_str("header line"), 0);
}

#[test]
fn name_needs_digits_or_hyphens_before_suffix() {
    let m = parse_manifest_text("abc.zip,x\n12-34.zip,y\n.zip,z\n56.zipp,w");
    assert_eq!(m.get_str("abc.zip"), 0);
    assert_eq!(m.get_str("12-34.zip"), 1);
    assert_eq!(m.get_str(".zip"), 0);
    assert_eq!(m.get_str("56.zip"), 0);
}

#[test]
fn comma_must_follow_suffix() {
    let m = parse_manifest_text("001.zip\n002.zip extra");
    assert!(m.is_empty());
}

#[test]
fn carriage_returns_are_stripped() {
    let m = parse_manifest_text("005.zip,x\r\n005.zip,y\r\n");
    assert_eq!(m.get_str("005.zip"), 2);
}

#[test]
fn empty_text_gives_empty_mapping() {
    let m = parse_manifest_text("");
    assert!(m.is_empty());
}

#[test]
fn no_matching_line_gives_empty_mapping() {
    let m = parse_manifest_text("just,some\nlines\nwithout refs");
    assert!(m.is_empty());
}

#[test]
fn match_must_start_the_line() {
    let m = parse_manifest_text(" 001.zip,x\nname,001.zip,y");
    assert!(m.is_empty());
}
