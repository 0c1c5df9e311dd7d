//! The native extractor: the integer side of its palette layout.
use vstd::prelude::*;

use crate::color::extractor::{ColorPalette, ThemeMode};
use crate::color::hex::{hex_string, to_hex};

verus! {

/// The built-in palette extractor.
pub struct NativeColorExtractor;

/// An RGB triple written as `#RRGGBB`.
pub open spec fn rgb_hex(c: (u8, u8, u8)) -> Seq<char> {
    hex_string(c.0, c.1, c.2)
}

fn rgb_to_hex(c: (u8, u8, u8)) -> (s: String)
    ensures
        s@ == rgb_hex(c),
{
    to_hex(c.0, c.1, c.2)
}

impl NativeColorExtractor {
    /// The indices, in `pixel_count` pixels sorted by lightness, of the 20th
    /// and the 80th percentile: `pixel_count / 5` and `pixel_count * 4 / 5`.
    pub fn band_cutoffs(pixel_count: usize) -> (r: (usize, usize))
        requires
            0 < pixel_count,
            pixel_count * 4 <= usize::MAX,
        ensures
            r.0 == pixel_count / 5,
            r.1 == pixel_count * 4 / 5,
            r.0 <= r.1 < pixel_count,
    {
        (pixel_count / 5, pixel_count * 4 / 5)
    }

    /// Lays out a 16-colour theme:
    /// 0 the background, 1–6 the six accents (one per hue bucket), 7 the
    /// foreground, 8 bright black, 9–14 the bright accents, 15 bright white.
    /// `background` repeats colour 0 and `foreground` colour 7.
    pub fn assemble_palette(
        mode: ThemeMode,
        background: (u8, u8, u8),
        accents: [(u8, u8, u8); 6],
        foreground: (u8, u8, u8),
        bright_black: (u8, u8, u8),
        bright_accents: [(u8, u8, u8); 6],
        bright_white: (u8, u8, u8),
        secondary_background: (u8, u8, u8),
        secondary_foreground: (u8, u8, u8),
    ) -> (p: ColorPalette)
        ensures
            p.mode == mode,
            p.colors[0]@ == rgb_hex(background),
            forall|i: int| 0 <= i < 6 ==> #[trigger] p.colors[i + 1]@ == rgb_hex(accents[i]),
            p.colors[7]@ == rgb_hex(foreground),
            p.colors[8]@ == rgb_hex(bright_black),
            forall|i: int| 0 <= i < 6 ==> #[trigger] p.colors[i + 9]@ == rgb_hex(bright_accents[i]),
            p.colors[15]@ == rgb_hex(bright_white),
            p.background@ == p.colors[0]@,
            p.foreground@ == p.colors[7]@,
            p.secondary_background@ == rgb_hex(secondary_background),
            p.secondary_foreground@ == rgb_hex(secondary_foreground),
    {
        let colors: [String; 16] = [
            rgb_to_hex(background),
            rgb_to_hex(accents[0]),
            rgb_to_hex(accents[1]),
            rgb_to_hex(accents[2]),
            rgb_to_hex(accents[3]),
            rgb_to_hex(accents[4]),
            rgb_to_hex(accents[5]),
            rgb_to_hex(foreground),
            rgb_to_hex(bright_black),
            rgb_to_hex(bright_accents[0]),
            rgb_to_hex(bright_accents[1]),
            rgb_to_hex(bright_accents[2]),
            rgb_to_hex(bright_accents[3]),
            rgb_to_hex(bright_accents[4]),
            rgb_to_hex(bright_accents[5]),
            rgb_to_hex(bright_white),
        ];
        let bg = colors[0].clone();
        let fg = colors[7].clone();
        ColorPalette {
            mode,
            colors,
            background: bg,
            secondary_background: rgb_to_hex(secondary_background),
            foreground: fg,
            secondary_foreground: rgb_to_hex(secondary_foreground),
        }
    }
}

} // verus!
