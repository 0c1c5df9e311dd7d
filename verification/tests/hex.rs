use wallman::color::hex::{parse_hex, to_hex};

#[test]
fn to_hex_writes_upper_case_pairs() {
    assert_eq!(to_hex(30, 30, 46), "#1E1E2E");
    assert_eq!(to_hex(0, 0, 0), "#000000");
    assert_eq!(to_hex(255, 171, 1), "#FFAB01");
    assert_eq!(to_hex(16, 9, 160), "#1009A0");
}

#[test]
fn parse_hex_reads_both_cases() {
    assert_eq!(parse_hex("#1E1E2E"), Some((30, 30, 46)));
    assert_eq!(parse_hex("#ffab01"), Some((255, 171, 1)));
    assert_eq!(parse_hex("#FfAb01"), Some((255, 171, 1)));
}

#[test]
fn parse_hex_rejects_other_shapes() {
    assert_eq!(parse_hex("1E1E2E"), None);
    assert_eq!(parse_hex("#1E1E2"), None);
    assert_eq!(parse_hex("#1E1E2E0"), None);
    assert_eq!(parse_hex(""), None);
    assert_eq!(parse_hex("#"), None);
    assert_eq!(parse_hex("#GG0000"), None);
    assert_eq!(parse_hex("#00 000"), None);
    assert_eq!(parse_hex("#-10000"), None);
    assert_eq!(parse_hex("##00000"), None);
}

#[test]
fn parse_hex_rejects_signs() {
    assert_eq!(parse_hex("#+A+B+C"), None);
    assert_eq!(parse_hex("#+1+2+3"), None);
    assert_eq!(parse_hex("#+f0000"), None);
    assert_eq!(parse_hex("#00+F00"), None);
}

#[test]
fn parse_hex_non_ascii_is_none() {
    // "é" is two bytes
    assert_eq!(parse_hex("#é0000"), None);
    assert_eq!(parse_hex("#00é00"), None);
    assert_eq!(parse_hex("#aé000"), None);
    assert_eq!(parse_hex("#00aé0"), None);
    assert_eq!(parse_hex("#zzaé0"), None);
    assert_eq!(parse_hex("#1E1Eé"), None);
}

#[test]
fn hex_round_trip() {
    for v in 0..=255u8 {
        let s = to_hex(v, 255 - v, v / 3);
        assert_eq!(s.len(), 7);
        assert_eq!(parse_hex(&s), Some((v, 255 - v, v / 3)));
    }
}
