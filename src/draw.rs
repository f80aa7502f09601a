use vstd::prelude::*;

verus! {

/// The size and the vertical offset of the drawing surface, in whole pixels.
#[derive(Clone, Copy, PartialEq, Eq, Structural, Debug)]
pub struct CanvasSize {
    pub top: i64,
    pub width: i64,
    pub height: i64,
}

/// A drawing request that a script made; the host paints it. Colours are `0xRRGGBBAA`.
#[derive(Debug)]
pub enum DrawCommand {
    Text { text: String, x: i64, y: i64, size: i64, color: u32 },
    Line { x1: i64, y1: i64, x2: i64, y2: i64, color: u32 },
    Rect { x: i64, y: i64, width: i64, height: i64, color: u32 },
    Circle { x: i64, y: i64, radius: i64, color: u32 },
}

/// A drawing request as mathematical values.
pub enum DrawView {
    Text { text: Seq<char>, x: i64, y: i64, size: i64, color: u32 },
    Line { x1: i64, y1: i64, x2: i64, y2: i64, color: u32 },
    Rect { x: i64, y: i64, width: i64, height: i64, color: u32 },
    Circle { x: i64, y: i64, radius: i64, color: u32 },
}

impl View for DrawCommand {
    type V = DrawView;

    open spec fn view(&self) -> DrawView {
        match self {
            DrawCommand::Text { text, x, y, size, color } => DrawView::Text { text: text@, x: *x, y: *y, size: *size, color: *color },
            DrawCommand::Line { x1, y1, x2, y2, color } => DrawView::Line { x1: *x1, y1: *y1, x2: *x2, y2: *y2, color: *color },
            DrawCommand::Rect { x, y, width, height, color } => DrawView::Rect { x: *x, y: *y, width: *width, height: *height, color: *color },
            DrawCommand::Circle { x, y, radius, color } => DrawView::Circle { x: *x, y: *y, radius: *radius, color: *color },
        }
    }
}

/// The colour a script gets when it names none: opaque white.
pub const DEFAULT_COLOR: i64 = 0xFFFFFFFF;

/// A script's number as a colour word: its low 32 bits.
pub fn extract_u32_from_numeric(n: i64) -> (r: u32)
    ensures
        r == n as u32,
{
    n as u32
}

/// A colour given as `0xRRGGBB` (no higher bits) becomes opaque `0xRRGGBBFF`; a larger word
/// already carries its alpha and is kept.
pub fn set_alpha_on_u32(n: u32) -> (r: u32)
    ensures
        n > 0xFFFFFF ==> r == n,
        n <= 0xFFFFFF ==> r == n * 256 + 0xFF,
{
    if n > 0xFFFFFF {
        return n;
    }
    let r = ((n << 8u32) & 0xFFFFFF00u32) | 0xFFu32;
    assert(r == n * 256 + 0xFF) by (bit_vector)
        requires
            n <= 0xFFFFFFu32,
            r == ((n << 8u32) & 0xFFFFFF00u32) | 0xFFu32,
    ;
    r
}

/// The four bytes of a colour word, red first.
pub fn extract_rgba(n: u32) -> (r: (u8, u8, u8, u8))
    ensures
        r.0 == n / 0x1000000,
        r.1 == (n / 0x10000) % 0x100,
        r.2 == (n / 0x100) % 0x100,
        r.3 == n % 0x100,
{
    let r = ((n >> 24u32) as u8, (n >> 16u32) as u8, (n >> 8u32) as u8, n as u8);
    assert((n >> 24u32) as u8 == n / 0x1000000) by (bit_vector);
    assert((n >> 16u32) as u8 == (n / 0x10000) % 0x100) by (bit_vector);
    assert((n >> 8u32) as u8 == (n / 0x100) % 0x100) by (bit_vector);
    assert(n as u8 == n % 0x100) by (bit_vector);
    r
}

} // verus!
