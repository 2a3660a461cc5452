use coordinate_stats::classify::{classification_tally, classify_text, Classification};
use coordinate_stats::tally::Tally;

#[test]
fn arbitrary_value_matches_exactly() {
    let c = classify_text("<xml><座標系>任意座標系</座標系></xml>");
    assert_eq!(c, Classification::Arbitrary);
    assert_eq!(classification_tally(c), Tally { arbitrary: 1, public: 0 });
}

#[test]
fn public_value_matches_by_substring() {
    let c = classify_text("<座標系>公共座標系9系</座標系>");
    assert_eq!(c, Classification::Public);
    assert_eq!(classification_tally(c), Tally { arbitrary: 0, public: 1 });
}

#[test]
fn arbitrary_requires_exact_equality() {
    // A value that merely contains the arbitrary literal is not arbitrary;
    // nor does it contain the public literal.
    let c = classify_text("<座標系>任意座標系いろいろ</座標系>");
    assert_eq!(c, Classification::Unknown);
}

#[test]
fn unknown_value_counts_nothing() {
    let c = classify_text("<座標系>べつのなにか</座標系>");
    assert_eq!(c, Classification::Unknown);
    assert_eq!(classification_tally(c), Tally { arbitrary: 0, public: 0 });
}

#[test]
fn missing_tag_is_silent() {
    let c = classify_text("no coordinate tag here");
    assert_eq!(c, Classification::NoTag);
    assert_eq!(classification_tally(c), Tally { arbitrary: 0, public: 0 });
}

#[test]
fn unclosed_tag_is_silent() {
    assert_eq!(classify_text("<座標系>任意座標系"), Classification::NoTag);
}

#[test]
fn value_may_not_span_lines() {
    assert_eq!(classify_text("<座標系>任意\n座標系</座標系>"), Classification::NoTag);
}

#[test]
fn first_capture_wins() {
    let c = classify_text("<座標系>なぞ</座標系><座標系>任意座標系</座標系>");
    assert_eq!(c, Classification::Unknown);
}

#[test]
fn empty_capture_is_unknown() {
    assert_eq!(classify_text("<座標系></座標系>"), Classification::Unknown);
}

#[test]
fn stray_closing_tag_before_opening_is_skipped() {
    let c = classify_text("</座標系><座標系>任意座標系</座標系>");
    assert_eq!(c, Classification::Arbitrary);
}

#[test]
fn newline_blocked_capture_retries_later_opening() {
    // The first opening tag never closes on its own line, so the match
    // starts at the second one.
    let c = classify_text("<座標系>だめ\n<座標系>任意座標系</座標系>");
    assert_eq!(c, Classification::Arbitrary);
}
