//! The color model: CGA 16-color state with intensity/blink bits, the
//! 256-color palette and 24-bit RGB extended modes, the ANSI-to-CGA index
//! permutation, and the text of the opening and closing color tags.

use vstd::prelude::*;
use crate::numfmt::dec_chars;

verus! {

/// Which kind of color tag the renderer currently emits.
#[derive(Debug, Clone, Copy, PartialEq, Eq, Structural)]
pub enum ColorMode {
    /// Standard 16-color CGA mode, rendered as `<ans-BF>` tags.
    Cga,
    /// 256-color palette mode, rendered as `<ans-256 fg=".." bg="..">` tags.
    Color256,
    /// 24-bit RGB mode, rendered as `<ans-rgb fg=".." bg="..">` tags.
    Rgb,
}

/// One channel's color value in the extended modes. A channel that was never
/// set in an extended mode keeps its CGA value as a fallback and renders as a
/// `fg-#`/`bg-#` attribute instead of a number.
#[derive(Debug, Clone, Copy, PartialEq, Eq, Structural)]
pub enum ExtendedColor {
    /// CGA fallback, a 4-bit color index.
    Cga(u8),
    /// 256-color palette index.
    Palette(u8),
    /// 24-bit color as red, green, blue.
    Rgb(u8, u8, u8),
}

/// Map a standard ANSI color index 0-7 to the CGA palette ordering. The two
/// orderings permute red/blue and cyan/yellow, so this is not the identity.
pub open spec fn ansi_to_cga(n: u8) -> u8 {
    if n == 0 { 0 }
    else if n == 1 { 4 }
    else if n == 2 { 2 }
    else if n == 3 { 6 }
    else if n == 4 { 1 }
    else if n == 5 { 5 }
    else if n == 6 { 3 }
    else if n == 7 { 7 }
    else { 7 }
}

/// Map a bright ANSI color index 0-7 to the high-intensity CGA index 8-15.
pub open spec fn ansi_to_cga_bright(n: u8) -> u8 {
    if n == 0 { 8 }
    else if n == 1 { 12 }
    else if n == 2 { 10 }
    else if n == 3 { 14 }
    else if n == 4 { 9 }
    else if n == 5 { 13 }
    else if n == 6 { 11 }
    else if n == 7 { 15 }
    else { 15 }
}

/// The lowercase hex digit for a 4-bit color value; out-of-range values
/// render as '0'.
pub open spec fn hex_digit(n: u8) -> char {
    if n == 0 { '0' }
    else if n == 1 { '1' }
    else if n == 2 { '2' }
    else if n == 3 { '3' }
    else if n == 4 { '4' }
    else if n == 5 { '5' }
    else if n == 6 { '6' }
    else if n == 7 { '7' }
    else if n == 8 { '8' }
    else if n == 9 { '9' }
    else if n == 10 { 'a' }
    else if n == 11 { 'b' }
    else if n == 12 { 'c' }
    else if n == 13 { 'd' }
    else if n == 14 { 'e' }
    else if n == 15 { 'f' }
    else { '0' }
}

pub fn color_to_hex(n: u8) -> (c: char)
    ensures
        c == hex_digit(n),
{
    if n == 0 { '0' }
    else if n == 1 { '1' }
    else if n == 2 { '2' }
    else if n == 3 { '3' }
    else if n == 4 { '4' }
    else if n == 5 { '5' }
    else if n == 6 { '6' }
    else if n == 7 { '7' }
    else if n == 8 { '8' }
    else if n == 9 { '9' }
    else if n == 10 { 'a' }
    else if n == 11 { 'b' }
    else if n == 12 { 'c' }
    else if n == 13 { 'd' }
    else if n == 14 { 'e' }
    else if n == 15 { 'f' }
    else { '0' }
}

/// The attribute value for an extended-mode channel: a CGA fallback renders
/// as `fg-<hex>`/`bg-<hex>`, a palette index as its decimal, an RGB triple as
/// comma-joined decimals.
pub open spec fn ext_color_text(c: ExtendedColor, is_fg: bool) -> Seq<char> {
    match c {
        ExtendedColor::Cga(v) => (if is_fg { "fg-"@ } else { "bg-"@ }) + seq![hex_digit(v)],
        ExtendedColor::Palette(n) => dec_chars(n as nat),
        ExtendedColor::Rgb(r, g, b) => dec_chars(r as nat) + ","@ + dec_chars(g as nat) + ","@
            + dec_chars(b as nat),
    }
}

/// The text of the opening color tag for a color state.
pub open spec fn open_tag_text(
    mode: ColorMode,
    bg: u8,
    fg: u8,
    ext_bg: ExtendedColor,
    ext_fg: ExtendedColor,
) -> Seq<char> {
    match mode {
        ColorMode::Cga => "<ans-"@ + seq![hex_digit(bg), hex_digit(fg)] + ">"@,
        ColorMode::Color256 => "<ans-256 fg=\""@ + ext_color_text(ext_fg, true) + "\" bg=\""@
            + ext_color_text(ext_bg, false) + "\">"@,
        ColorMode::Rgb => "<ans-rgb fg=\""@ + ext_color_text(ext_fg, true) + "\" bg=\""@
            + ext_color_text(ext_bg, false) + "\">"@,
    }
}

/// The text of the closing color tag for a color state.
pub open spec fn close_tag_text(mode: ColorMode, bg: u8, fg: u8) -> Seq<char> {
    match mode {
        ColorMode::Cga => "</ans-"@ + seq![hex_digit(bg), hex_digit(fg)] + ">"@,
        ColorMode::Color256 => "</ans-256>"@,
        ColorMode::Rgb => "</ans-rgb>"@,
    }
}

} // verus!
