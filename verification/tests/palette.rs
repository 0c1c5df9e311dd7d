use wallman::color::extractor::{swatch_colors, ThemeMode};
use wallman::color::strategies::native::NativeColorExtractor;

#[test]
fn palette_layout() {
    let accents = [(1, 0, 0), (2, 0, 0), (3, 0, 0), (4, 0, 0), (5, 0, 0), (6, 0, 0)];
    let bright = [(0, 1, 0), (0, 2, 0), (0, 3, 0), (0, 4, 0), (0, 5, 0), (0, 6, 0)];
    let p = NativeColorExtractor::assemble_palette(
        ThemeMode::Dark,
        (0x11, 0x11, 0x1b),
        accents,
        (0xcd, 0xd6, 0xf4),
        (0x45, 0x47, 0x5a),
        bright,
        (0xff, 0xff, 0xff),
        (0x31, 0x32, 0x44),
        (0xa6, 0xad, 0xc8),
    );
    assert_eq!(p.mode, ThemeMode::Dark);
    assert_eq!(p.colors[0], "#11111B");
    assert_eq!(p.colors[1], "#010000");
    assert_eq!(p.colors[6], "#060000");
    assert_eq!(p.colors[7], "#CDD6F4");
    assert_eq!(p.colors[8], "#45475A");
    assert_eq!(p.colors[9], "#000100");
    assert_eq!(p.colors[14], "#000600");
    assert_eq!(p.colors[15], "#FFFFFF");
    assert_eq!(p.background, p.colors[0]);
    assert_eq!(p.foreground, p.colors[7]);
    assert_eq!(p.secondary_background, "#313244");
    assert_eq!(p.secondary_foreground, "#A6ADC8");
    let swatches = swatch_colors(&p.colors[0..8]);
    assert_eq!(swatches[0], (0x11, 0x11, 0x1b));
    assert_eq!(swatches[7], (0xcd, 0xd6, 0xf4));
}

#[test]
fn mode_labels() {
    assert_eq!(ThemeMode::Dark.label(), "Dark");
    assert_eq!(ThemeMode::Light.label(), "Light");
}

#[test]
fn percentile_cutoffs() {
    assert_eq!(NativeColorExtractor::band_cutoffs(40000), (8000, 32000));
    assert_eq!(NativeColorExtractor::band_cutoffs(1), (0, 0));
    assert_eq!(NativeColorExtractor::band_cutoffs(7), (1, 5));
}

#[test]
fn swatches_skip_unreadable() {
    let colors = vec!["#010203".to_string(), "red".to_string(), "#0A0B0C".to_string(), "#+A+B+C".to_string(), "#zz0000".to_string()];
    assert_eq!(swatch_colors(&colors), vec![(1, 2, 3), (10, 11, 12)]);
    let odd = vec!["#aé000".to_string(), "#010203".to_string()];
    assert_eq!(swatch_colors(&odd), vec![(1, 2, 3)]);
}
