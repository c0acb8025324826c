use vstd::prelude::*;

verus! {

/// Color of the RGB status LED.
#[derive(PartialEq, Eq, Structural, Debug, Clone, Copy)]
pub struct Color {
    pub r: u8,
    pub g: u8,
    pub b: u8,
}

impl Color {
    /// The LED switched off.
    pub fn off() -> (r: Color)
        ensures
            r == (Color { r: 0, g: 0, b: 0 }),
    {
        Color { r: 0, g: 0, b: 0 }
    }
}

/// Time each half of a blink lasts, in ms.
pub const BLINK_MS: u64 = 200;

/// One step of a LED pattern: a color shown for a time in ms; zero means forever.
#[derive(PartialEq, Eq, Structural, Debug, Clone, Copy)]
pub struct LedPatternItem {
    pub color: Color,
    pub duration_ms: u64,
}

impl LedPatternItem {
    /// Shows `color` forever.
    pub fn fixed(color: Color) -> (r: Self)
        ensures
            r.color == color,
            r.duration_ms == 0,
    {
        LedPatternItem { color, duration_ms: 0 }
    }
}

/// A pattern that shows `color` forever.
pub fn fixed_pattern(color: Color) -> (r: Vec<LedPatternItem>)
    ensures
        r@ == seq![LedPatternItem { color, duration_ms: 0 }],
{
    let mut v: Vec<LedPatternItem> = Vec::new();
    v.push(LedPatternItem::fixed(color));
    v
}

/// A pattern that blinks `color` on and off, `BLINK_MS` each.
pub fn blink_pattern(color: Color) -> (r: Vec<LedPatternItem>)
    ensures
        r@ == seq![
            LedPatternItem { color, duration_ms: BLINK_MS },
            LedPatternItem { color: Color { r: 0, g: 0, b: 0 }, duration_ms: BLINK_MS },
        ],
{
    let mut v: Vec<LedPatternItem> = Vec::new();
    v.push(LedPatternItem { color, duration_ms: BLINK_MS });
    v.push(LedPatternItem { color: Color::off(), duration_ms: BLINK_MS });
    v
}

/// Step of a pattern of `len` steps that follows step `i`, wrapping around.
pub fn next_step(i: usize, len: usize) -> (r: usize)
    requires
        len > 0,
    ensures
        r == if i % len + 1 == len {
            0
        } else {
            i % len + 1
        },
        r < len,
{
    let j = i % len;
    if j + 1 == len {
        0
    } else {
        j + 1
    }
}

} // verus!
