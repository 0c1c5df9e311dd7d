//! What a palette extractor produces.
use vstd::prelude::*;

use vstd::utf8::encode_utf8;

use crate::color::hex::{hex_triple, parse_hex};

verus! {

/// Whether a palette is meant for a light or a dark theme.
#[derive(PartialEq, Eq, Structural, Clone, Copy, Debug)]
pub enum ThemeMode {
    Light,
    Dark,
}

impl ThemeMode {
    /// The name of the mode as shown to the user.
    pub fn label(&self) -> (s: &'static str)
        ensures
            *self == ThemeMode::Dark ==> s@ == "Dark"@,
            *self == ThemeMode::Light ==> s@ == "Light"@,
    {
        match self {
            ThemeMode::Dark => "Dark",
            ThemeMode::Light => "Light",
        }
    }
}

/// A terminal colour theme.
pub struct ColorPalette {
    pub mode: ThemeMode,
    /// 16 colours as `#RRGGBB` strings.
    pub colors: [String; 16],
    /// the main dark base colour
    pub background: String,
    /// the background shifted lighter: sidebars, panels, surfaces
    pub secondary_background: String,
    /// the main light text colour
    pub foreground: String,
    /// the foreground shifted dimmer: comments, subtext, inactive items
    pub secondary_foreground: String,
}

/// The colours of a sequence of `#RRGGBB` strings that read as colours, in order;
/// the others are passed over.
pub open spec fn readable_colors(colors: Seq<String>) -> Seq<(u8, u8, u8)>
    decreases colors.len(),
{
    if colors.len() == 0 {
        Seq::empty()
    } else {
        let rest = readable_colors(colors.drop_last());
        match hex_triple(encode_utf8(colors.last()@)) {
            Some(c) => rest.push(c),
            None => rest,
        }
    }
}

/// One swatch per readable string: reading a concatenation reads each part,
/// an appended readable string adds exactly its colour at the end (even when
/// it repeats the previous one), an unreadable one adds nothing, and when every
/// string reads, the swatches are their colours position by position.
pub proof fn lemma_readable_colors_laws(s: Seq<String>, t: Seq<String>)
    ensures
        readable_colors(s + t) == readable_colors(s) + readable_colors(t),
        forall|x: String|
            (hex_triple(encode_utf8(x@)) is Some) ==> #[trigger] readable_colors(s.push(x))
                == readable_colors(s).push(hex_triple(encode_utf8(x@))->0),
        forall|x: String|
            hex_triple(encode_utf8(x@)) is None ==> #[trigger] readable_colors(s.push(x))
                == readable_colors(s),
        readable_colors(s).len() <= s.len(),
        (forall|i: int| 0 <= i < s.len() ==> (#[trigger] hex_triple(encode_utf8(s[i]@))) is Some) ==> {
            &&& readable_colors(s).len() == s.len()
            &&& forall|i: int|
                0 <= i < s.len() ==> Some(#[trigger] readable_colors(s)[i]) == hex_triple(
                    encode_utf8(s[i]@),
                )
        },
    decreases t.len(),
{
    assert forall|x: String|
        (hex_triple(encode_utf8(x@)) is Some) implies #[trigger] readable_colors(s.push(x))
        == readable_colors(s).push(hex_triple(encode_utf8(x@))->0) by {
        assert(s.push(x).drop_last() =~= s);
    }
    assert forall|x: String|
        hex_triple(encode_utf8(x@)) is None implies #[trigger] readable_colors(s.push(x))
        == readable_colors(s) by {
        assert(s.push(x).drop_last() =~= s);
    }
    lemma_readable_colors_all(s);
    if t.len() == 0 {
        assert(s + t =~= s);
        assert(readable_colors(s) + readable_colors(t) =~= readable_colors(s));
    } else {
        lemma_readable_colors_laws(s, t.drop_last());
        assert((s + t).drop_last() =~= s + t.drop_last());
        assert((s + t).last() == t.last());
        match hex_triple(encode_utf8(t.last()@)) {
            Some(c) => {
                assert(readable_colors(s) + readable_colors(t) =~= (readable_colors(s) + readable_colors(
                    t.drop_last(),
                )).push(c));
            },
            None => {},
        }
    }
}

proof fn lemma_readable_colors_all(s: Seq<String>)
    ensures
        readable_colors(s).len() <= s.len(),
        (forall|i: int| 0 <= i < s.len() ==> (#[trigger] hex_triple(encode_utf8(s[i]@))) is Some) ==> {
            &&& readable_colors(s).len() == s.len()
            &&& forall|i: int|
                0 <= i < s.len() ==> Some(#[trigger] readable_colors(s)[i]) == hex_triple(
                    encode_utf8(s[i]@),
                )
        },
    decreases s.len(),
{
    if s.len() > 0 {
        let r = s.drop_last();
        lemma_readable_colors_all(r);
        if forall|i: int| 0 <= i < s.len() ==> (#[trigger] hex_triple(encode_utf8(s[i]@))) is Some {
            assert forall|i: int| 0 <= i < r.len() implies (#[trigger] hex_triple(encode_utf8(r[i]@))) is Some by {
                assert(r[i] == s[i]);
                assert(hex_triple(encode_utf8(s[i]@)) is Some);
            }
            assert(hex_triple(encode_utf8(s[s.len() - 1]@)) is Some);
            assert forall|i: int| 0 <= i < s.len() implies Some(#[trigger] readable_colors(s)[i]) == hex_triple(
                encode_utf8(s[i]@),
            ) by {
                if i < r.len() {
                    assert(r[i] == s[i]);
                    assert(Some(readable_colors(r)[i]) == hex_triple(encode_utf8(r[i]@)));
                }
            }
        }
    }
}

/// The colours of a row of swatches: each string that reads as `#RRGGBB`,
/// in order; the others are passed over.
pub fn swatch_colors(colors: &[String]) -> (r: Vec<(u8, u8, u8)>)
    ensures
        r@ == readable_colors(colors@),
        r@.len() <= colors@.len(),
        (forall|i: int| 0 <= i < colors@.len() ==> (#[trigger] hex_triple(encode_utf8(colors@[i]@))) is Some)
            ==> r@.len() == colors@.len() && forall|i: int|
            0 <= i < colors@.len() ==> Some(#[trigger] r@[i]) == hex_triple(encode_utf8(colors@[i]@)),
{
    let mut r: Vec<(u8, u8, u8)> = Vec::new();
    let mut i: usize = 0;
    while i < colors.len()
        invariant
            i <= colors@.len(),
            r@ == readable_colors(colors@.take(i as int)),
        decreases colors@.len() - i,
    {
        assert(colors@.take(i + 1).drop_last() =~= colors@.take(i as int));
        assert(colors@.take(i + 1).last() == colors@[i as int]);
        if let Some(c) = parse_hex(colors[i].as_str()) {
            r.push(c);
        }
        i += 1;
    }
    assert(colors@.take(colors@.len() as int) =~= colors@);
    proof {
        lemma_readable_colors_all(colors@);
    }
    r
}

} // verus!
