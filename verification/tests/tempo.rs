//! Tempo text parsing: exact milli-BPM values, rejection of malformed text
//! and of out-of-range tempos.

use drum_machine::tempo::parse_tempo_mbpm;

#[test]
fn tempo_parses_whole_number() {
    assert_eq!(parse_tempo_mbpm(b"120"), Some(120_000));
    assert_eq!(parse_tempo_mbpm(b"1"), Some(1_000));
    assert_eq!(parse_tempo_mbpm(b"300"), Some(300_000));
}

#[test]
fn tempo_parses_fraction() {
    assert_eq!(parse_tempo_mbpm(b"120.25"), Some(120_250));
    assert_eq!(parse_tempo_mbpm(b"120.2"), Some(120_200));
    assert_eq!(parse_tempo_mbpm(b"99.125"), Some(99_125));
    assert_eq!(parse_tempo_mbpm(b"1.0"), Some(1_000));
}

/// Fraction digits beyond the third are beyond milli-BPM resolution.
#[test]
fn tempo_truncates_extra_fraction_digits() {
    assert_eq!(parse_tempo_mbpm(b"120.2567"), Some(120_256));
    assert_eq!(parse_tempo_mbpm(b"120.99999"), Some(120_999));
}

#[test]
fn tempo_accepts_leading_zeros() {
    assert_eq!(parse_tempo_mbpm(b"000120"), Some(120_000));
    assert_eq!(parse_tempo_mbpm(b"007.5"), Some(7_500));
}

/// Malformed tempo text parses to nothing.
#[test]
fn tempo_rejects_malformed_text() {
    assert_eq!(parse_tempo_mbpm(b"abc"), None);
    assert_eq!(parse_tempo_mbpm(b""), None);
    assert_eq!(parse_tempo_mbpm(b"12a"), None);
    assert_eq!(parse_tempo_mbpm(b"1."), None);
    assert_eq!(parse_tempo_mbpm(b".5"), None);
    assert_eq!(parse_tempo_mbpm(b"1..2"), None);
    assert_eq!(parse_tempo_mbpm(b"1.2.3"), None);
    assert_eq!(parse_tempo_mbpm(b"-5"), None);
    assert_eq!(parse_tempo_mbpm(b"12 0"), None);
    assert_eq!(parse_tempo_mbpm(b"120.2a"), None);
}

/// Values outside 1..=300 BPM are rejected, however they are written.
#[test]
fn tempo_rejects_out_of_range() {
    assert_eq!(parse_tempo_mbpm(b"0"), None);
    assert_eq!(parse_tempo_mbpm(b"0.999"), None);
    assert_eq!(parse_tempo_mbpm(b"300.001"), None);
    assert_eq!(parse_tempo_mbpm(b"301"), None);
    assert_eq!(parse_tempo_mbpm(b"999999999999999999999"), None);
}

/// Boundary values of the accepted range.
#[test]
fn tempo_range_boundaries() {
    assert_eq!(parse_tempo_mbpm(b"1"), Some(1_000));
    assert_eq!(parse_tempo_mbpm(b"0.999"), None);
    assert_eq!(parse_tempo_mbpm(b"300.000"), Some(300_000));
    // the fourth fraction digit is truncated, so this still reads as 300.000
    assert_eq!(parse_tempo_mbpm(b"300.0001"), Some(300_000));
}
