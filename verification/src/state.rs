//! The mathematical model of the converter: a single state record and a
//! transition function per input byte (or per character in UTF-8 input
//! mode). The executable converter is proved to compute exactly these
//! transitions.

use vstd::prelude::*;
use crate::color::{
    ColorMode, ExtendedColor, ansi_to_cga, ansi_to_cga_bright, open_tag_text, close_tag_text,
};
use crate::cp437::cp437_char;
use crate::params::{parse_params, parse_capped_spec};

verus! {

/// The position of the escape-sequence parser within the input stream.
#[derive(Debug, Clone, Copy, PartialEq, Eq, Structural)]
pub enum ParseState {
    /// Plain content.
    Normal,
    /// After an ESC byte.
    Escape,
    /// Inside a control sequence, collecting parameter bytes.
    Csi,
    /// After a Synchronet Ctrl-A, waiting for the color-code character.
    SynchronetCtrlA,
    /// After a Renegade `|`, waiting for the first digit.
    RenegadePipe1,
    /// After a Renegade `|` and one digit, waiting for the second digit.
    RenegadePipe2(u8),
}

/// The full converter state: color channels, accumulated output, render
/// cursor, parser position, and the enabled input conventions.
#[verifier::ext_equal]
pub ghost struct ConvState {
    /// CGA foreground index, kept even in extended modes as the fallback.
    pub fg: u8,
    /// CGA background index, kept even in extended modes as the fallback.
    pub bg: u8,
    /// Foreground channel in extended modes.
    pub ext_fg: ExtendedColor,
    /// Background channel in extended modes.
    pub ext_bg: ExtendedColor,
    /// Which kind of color tag is currently open.
    pub mode: ColorMode,
    /// Everything rendered so far.
    pub output: Seq<char>,
    /// Column of the render cursor, saturated at the wrap width.
    pub column: u8,
    /// Sticky flag: some escape/BBS sequence has been seen.
    pub ansi: bool,
    /// While set, character emission is suppressed.
    pub save: bool,
    /// Parser position.
    pub pstate: ParseState,
    /// Accumulated CSI parameter bytes.
    pub params: Seq<u8>,
    /// Synchronet Ctrl-A codes are recognized.
    pub sync: bool,
    /// Renegade pipe codes are recognized.
    pub pipe: bool,
    /// Input is UTF-8 rather than CP437.
    pub utf8: bool,
}

/// The column at which a stream that contained escape codes soft-wraps.
pub open spec fn wrap_column() -> u8 {
    80
}

/// The characters that are emitted as HTML entities.
pub open spec fn is_special(ch: char) -> bool {
    ch == '<' || ch == '>' || ch == '&' || ch == '"' || ch == '\''
}

/// What one character contributes to the output: its entity form for the
/// HTML-sensitive characters, itself otherwise.
pub open spec fn escape_char(ch: char) -> Seq<char> {
    if ch == '<' { "&lt;"@ }
    else if ch == '>' { "&gt;"@ }
    else if ch == '&' { "&amp;"@ }
    else if ch == '"' { "&quot;"@ }
    else if ch == '\'' { "&apos;"@ }
    else { seq![ch] }
}

/// Advance the render column, saturating at the wrap width; only the
/// comparison against the wrap width is ever observed.
pub open spec fn inc_col(c: u8) -> u8 {
    if c < wrap_column() { (c + 1) as u8 }
    else { c }
}

/// Emit one character: discarded while the save gate is on; soft-wrapped
/// first if an escape was ever seen and the column is full; newlines reset
/// the column; carriage returns vanish entirely, without triggering a
/// wrap; HTML-sensitive characters become entities (without advancing the
/// column); anything else is appended.
pub open spec fn emit_char_st(s: ConvState, ch: char) -> ConvState {
    if s.save || ch == '\r' {
        s
    } else {
        let s1 = if s.ansi && s.column >= wrap_column() && ch != '\n' {
            ConvState { output: s.output + seq!['\n'], column: 0, ..s }
        } else {
            s
        };
        if is_special(ch) {
            ConvState { output: s1.output + escape_char(ch), ..s1 }
        } else if ch == '\n' {
            ConvState { output: s1.output + seq!['\n'], column: 0, ..s1 }
        } else {
            ConvState { output: s1.output + seq![ch], column: inc_col(s1.column), ..s1 }
        }
    }
}

/// Emit a sequence of characters, one at a time.
pub open spec fn emit_chars_st(s: ConvState, cs: Seq<char>) -> ConvState
    decreases cs.len(),
{
    if cs.len() == 0 {
        s
    } else {
        emit_char_st(emit_chars_st(s, cs.drop_last()), cs.last())
    }
}

/// Emit `n` spaces.
pub open spec fn emit_spaces_st(s: ConvState, n: nat) -> ConvState
    decreases n,
{
    if n == 0 {
        s
    } else {
        emit_char_st(emit_spaces_st(s, (n - 1) as nat), ' ')
    }
}

/// Whether a pending color assignment differs from the current one: a mode
/// change always counts; within CGA mode the CGA channels decide, within an
/// extended mode the extended channels decide.
pub open spec fn colors_changed(
    s: ConvState,
    nm: ColorMode,
    nbg: u8,
    nfg: u8,
    nebg: ExtendedColor,
    nefg: ExtendedColor,
) -> bool {
    nm != s.mode || (match s.mode {
        ColorMode::Cga => nbg != s.bg || nfg != s.fg,
        _ => nebg != s.ext_bg || nefg != s.ext_fg,
    })
}

/// Install a color assignment: if anything effective changed, close the old
/// tag, switch, and open the new tag; otherwise leave the state alone.
pub open spec fn set_colors_st(
    s: ConvState,
    nm: ColorMode,
    nbg: u8,
    nfg: u8,
    nebg: ExtendedColor,
    nefg: ExtendedColor,
) -> ConvState {
    if colors_changed(s, nm, nbg, nfg, nebg, nefg) {
        ConvState {
            output: s.output + close_tag_text(s.mode, s.bg, s.fg)
                + open_tag_text(nm, nbg, nfg, nebg, nefg),
            mode: nm,
            bg: nbg,
            fg: nfg,
            ext_bg: nebg,
            ext_fg: nefg,
            ..s
        }
    } else {
        s
    }
}

/// Install a plain CGA color pair.
pub open spec fn switch_color_st(s: ConvState, nbg: u8, nfg: u8) -> ConvState {
    set_colors_st(
        s,
        ColorMode::Cga,
        nbg,
        nfg,
        ExtendedColor::Cga(nbg),
        ExtendedColor::Cga(nfg),
    )
}

/// The color channels an SGR sequence accumulates before they are installed
/// in one step.
#[verifier::ext_equal]
pub ghost struct SgrColors {
    pub fg: u8,
    pub bg: u8,
    pub mode: ColorMode,
    pub ext_fg: ExtendedColor,
    pub ext_bg: ExtendedColor,
}

/// Apply the SGR parameters from index `i` on to the accumulated channels.
/// When a channel is set in an extended mode, the other channel keeps its
/// CGA tag as a fallback if it is still CGA-tagged, and the richer of the
/// two extended kinds decides the mode: RGB wins when either channel
/// specifies RGB, else the 256-color palette.
pub open spec fn sgr_apply(c: SgrColors, ps: Seq<u16>, i: int) -> SgrColors
    decreases ps.len() - i,
{
    if i < 0 || i >= ps.len() {
        c
    } else {
        let p = ps[i];
        if p == 0 {
            sgr_apply(SgrColors {
                fg: 7,
                bg: 0,
                mode: ColorMode::Cga,
                ext_fg: ExtendedColor::Cga(7),
                ext_bg: ExtendedColor::Cga(0),
            }, ps, i + 1)
        } else if p == 1 {
            let nfg = c.fg | 0x08;
            let nef = match c.ext_fg {
                ExtendedColor::Cga(v) => ExtendedColor::Cga(v | 0x08),
                x => x,
            };
            sgr_apply(SgrColors { fg: nfg, ext_fg: nef, ..c }, ps, i + 1)
        } else if p == 2 || p == 22 {
            let nfg = c.fg & 0x07;
            let nef = match c.ext_fg {
                ExtendedColor::Cga(v) => ExtendedColor::Cga(v & 0x07),
                x => x,
            };
            sgr_apply(SgrColors { fg: nfg, ext_fg: nef, ..c }, ps, i + 1)
        } else if p == 5 || p == 6 {
            let nbg = c.bg | 0x08;
            let neb = match c.ext_bg {
                ExtendedColor::Cga(v) => ExtendedColor::Cga(v | 0x08),
                x => x,
            };
            sgr_apply(SgrColors { bg: nbg, ext_bg: neb, ..c }, ps, i + 1)
        } else if p == 25 {
            let nbg = c.bg & 0x07;
            let neb = match c.ext_bg {
                ExtendedColor::Cga(v) => ExtendedColor::Cga(v & 0x07),
                x => x,
            };
            sgr_apply(SgrColors { bg: nbg, ext_bg: neb, ..c }, ps, i + 1)
        } else if p == 7 {
            sgr_apply(SgrColors {
                fg: c.bg,
                bg: c.fg,
                ext_fg: c.ext_bg,
                ext_bg: c.ext_fg,
                ..c
            }, ps, i + 1)
        } else if 30 <= p && p <= 37 {
            let nfg = (c.fg & 0x08) | ansi_to_cga((p - 30) as u8);
            sgr_apply(SgrColors {
                fg: nfg,
                mode: ColorMode::Cga,
                ext_fg: ExtendedColor::Cga(nfg),
                ..c
            }, ps, i + 1)
        } else if p == 38 {
            if i + 2 < ps.len() && ps[i + 1] == 5 {
                let idx = (ps[i + 2] % 256) as u8;
                let nm = match c.ext_bg {
                    ExtendedColor::Rgb(_, _, _) => ColorMode::Rgb,
                    _ => ColorMode::Color256,
                };
                let neb = match c.ext_bg {
                    ExtendedColor::Cga(_) => ExtendedColor::Cga(c.bg),
                    _ => c.ext_bg,
                };
                sgr_apply(SgrColors {
                    mode: nm,
                    ext_fg: ExtendedColor::Palette(idx),
                    ext_bg: neb,
                    ..c
                }, ps, i + 3)
            } else if i + 4 < ps.len() && ps[i + 1] == 2 {
                let r = (ps[i + 2] % 256) as u8;
                let g = (ps[i + 3] % 256) as u8;
                let b = (ps[i + 4] % 256) as u8;
                let neb = match c.ext_bg {
                    ExtendedColor::Cga(_) => ExtendedColor::Cga(c.bg),
                    _ => c.ext_bg,
                };
                sgr_apply(SgrColors {
                    mode: ColorMode::Rgb,
                    ext_fg: ExtendedColor::Rgb(r, g, b),
                    ext_bg: neb,
                    ..c
                }, ps, i + 5)
            } else {
                sgr_apply(c, ps, i + 1)
            }
        } else if p == 39 {
            sgr_apply(SgrColors {
                fg: 7,
                mode: ColorMode::Cga,
                ext_fg: ExtendedColor::Cga(7),
                ..c
            }, ps, i + 1)
        } else if 40 <= p && p <= 47 {
            let nbg = (c.bg & 0x08) | ansi_to_cga((p - 40) as u8);
            sgr_apply(SgrColors {
                bg: nbg,
                mode: ColorMode::Cga,
                ext_bg: ExtendedColor::Cga(nbg),
                ..c
            }, ps, i + 1)
        } else if p == 48 {
            if i + 2 < ps.len() && ps[i + 1] == 5 {
                let idx = (ps[i + 2] % 256) as u8;
                let nm = match c.ext_fg {
                    ExtendedColor::Rgb(_, _, _) => ColorMode::Rgb,
                    _ => ColorMode::Color256,
                };
                let nef = match c.ext_fg {
                    ExtendedColor::Cga(_) => ExtendedColor::Cga(c.fg),
                    _ => c.ext_fg,
                };
                sgr_apply(SgrColors {
                    mode: nm,
                    ext_bg: ExtendedColor::Palette(idx),
                    ext_fg: nef,
                    ..c
                }, ps, i + 3)
            } else if i + 4 < ps.len() && ps[i + 1] == 2 {
                let r = (ps[i + 2] % 256) as u8;
                let g = (ps[i + 3] % 256) as u8;
                let b = (ps[i + 4] % 256) as u8;
                let nef = match c.ext_fg {
                    ExtendedColor::Cga(_) => ExtendedColor::Cga(c.fg),
                    _ => c.ext_fg,
                };
                sgr_apply(SgrColors {
                    mode: ColorMode::Rgb,
                    ext_bg: ExtendedColor::Rgb(r, g, b),
                    ext_fg: nef,
                    ..c
                }, ps, i + 5)
            } else {
                sgr_apply(c, ps, i + 1)
            }
        } else if p == 49 {
            sgr_apply(SgrColors {
                bg: 0,
                mode: ColorMode::Cga,
                ext_bg: ExtendedColor::Cga(0),
                ..c
            }, ps, i + 1)
        } else if 90 <= p && p <= 97 {
            let nfg = ansi_to_cga_bright((p - 90) as u8);
            sgr_apply(SgrColors {
                fg: nfg,
                mode: ColorMode::Cga,
                ext_fg: ExtendedColor::Cga(nfg),
                ..c
            }, ps, i + 1)
        } else if 100 <= p && p <= 107 {
            let nbg = ansi_to_cga_bright((p - 100) as u8);
            sgr_apply(SgrColors {
                bg: nbg,
                mode: ColorMode::Cga,
                ext_bg: ExtendedColor::Cga(nbg),
                ..c
            }, ps, i + 1)
        } else {
            sgr_apply(c, ps, i + 1)
        }
    }
}

/// The channels a state currently holds, as an SGR accumulator.
pub open spec fn sgr_of(s: ConvState) -> SgrColors {
    SgrColors { fg: s.fg, bg: s.bg, mode: s.mode, ext_fg: s.ext_fg, ext_bg: s.ext_bg }
}

/// Process a whole SGR sequence: parse the parameters (an empty accumulator
/// means a single 0), apply them, and install the result.
pub open spec fn sgr_st(s: ConvState, params: Seq<u8>) -> ConvState {
    let ps = if params.len() == 0 { seq![0u16] } else { parse_params(params) };
    let c = sgr_apply(sgr_of(s), ps, 0);
    set_colors_st(s, c.mode, c.bg, c.fg, c.ext_bg, c.ext_fg)
}

/// Dispatch a complete CSI sequence on its command character. Every
/// dispatched sequence marks the stream as containing escapes, even the
/// ignored ones.
pub open spec fn csi_st(s: ConvState, params: Seq<u8>, cmd: char) -> ConvState {
    let s1 = ConvState { ansi: true, ..s };
    if cmd == 'm' {
        sgr_st(s1, params)
    } else if cmd == 'J' {
        let n = match parse_capped_spec(params, 255) {
            Some(v) => v,
            None => 0,
        };
        if n == 2 || n == 3 {
            emit_char_st(emit_char_st(emit_char_st(s1, '\n'), '\n'), '\n')
        } else {
            s1
        }
    } else if cmd == 's' {
        ConvState { save: true, ..s1 }
    } else if cmd == 'u' {
        ConvState { save: false, ..s1 }
    } else if cmd == 'C' {
        let n = match parse_capped_spec(params, 0xFFFF_FFFFu32) {
            Some(v) => if v < 1 { 1u32 } else { v },
            None => 1u32,
        };
        emit_spaces_st(s1, n as nat)
    } else {
        s1
    }
}

/// The CGA channel updates of a Synchronet Ctrl-A code: lowercase letters
/// set the foreground base color, uppercase letters and digits the
/// background base color (each preserving the intensity/blink bit), `h`/`H`
/// and `i`/`I` set those bits, `-`/`_` clear them, `n`/`N` resets.
pub open spec fn sync_colors(code: u8, fg: u8, bg: u8) -> (u8, u8) {
    if code == 0x6B { ((fg & 0x08) | 0, bg) }       // k
    else if code == 0x62 { ((fg & 0x08) | 1, bg) }  // b
    else if code == 0x67 { ((fg & 0x08) | 2, bg) }  // g
    else if code == 0x63 { ((fg & 0x08) | 3, bg) }  // c
    else if code == 0x72 { ((fg & 0x08) | 4, bg) }  // r
    else if code == 0x6D { ((fg & 0x08) | 5, bg) }  // m
    else if code == 0x79 { ((fg & 0x08) | 6, bg) }  // y
    else if code == 0x77 { ((fg & 0x08) | 7, bg) }  // w
    else if code == 0x4B { (fg, (bg & 0x08) | 0) }  // K
    else if code == 0x42 { (fg, (bg & 0x08) | 1) }  // B
    else if code == 0x47 { (fg, (bg & 0x08) | 2) }  // G
    else if code == 0x43 { (fg, (bg & 0x08) | 3) }  // C
    else if code == 0x52 { (fg, (bg & 0x08) | 4) }  // R
    else if code == 0x4D { (fg, (bg & 0x08) | 5) }  // M
    else if code == 0x59 { (fg, (bg & 0x08) | 6) }  // Y
    else if code == 0x57 { (fg, (bg & 0x08) | 7) }  // W
    else if code == 0x30 { (fg, (bg & 0x08) | 0) }  // 0
    else if code == 0x31 { (fg, (bg & 0x08) | 1) }  // 1
    else if code == 0x32 { (fg, (bg & 0x08) | 2) }  // 2
    else if code == 0x33 { (fg, (bg & 0x08) | 3) }  // 3
    else if code == 0x34 { (fg, (bg & 0x08) | 4) }  // 4
    else if code == 0x35 { (fg, (bg & 0x08) | 5) }  // 5
    else if code == 0x36 { (fg, (bg & 0x08) | 6) }  // 6
    else if code == 0x37 { (fg, (bg & 0x08) | 7) }  // 7
    else if code == 0x48 || code == 0x68 { (fg | 0x08, bg) }  // H h
    else if code == 0x49 || code == 0x69 { (fg, bg | 0x08) }  // I i
    else if code == 0x4E || code == 0x6E { (7, 0) }           // N n
    else if code == 0x2D { (fg & 0x07, bg) }                  // -
    else if code == 0x5F { (fg, bg & 0x07) }                  // _
    else { (fg, bg) }
}

/// Whether a character is one of the defined Synchronet color codes.
pub open spec fn sync_recognized(code: u8) -> bool {
    ||| code == 0x6B || code == 0x62 || code == 0x67 || code == 0x63  // k b g c
    ||| code == 0x72 || code == 0x6D || code == 0x79 || code == 0x77  // r m y w
    ||| code == 0x4B || code == 0x42 || code == 0x47 || code == 0x43  // K B G C
    ||| code == 0x52 || code == 0x4D || code == 0x59 || code == 0x57  // R M Y W
    ||| 0x30 <= code && code <= 0x37                                  // 0-7
    ||| code == 0x48 || code == 0x68 || code == 0x49 || code == 0x69  // H h I i
    ||| code == 0x4E || code == 0x6E || code == 0x2D || code == 0x5F  // N n - _
}

/// Process one Synchronet color-code character: a recognized code updates
/// the CGA channels; an unrecognized one changes no color state and emits
/// nothing.
pub open spec fn sync_st(s: ConvState, code: u8) -> ConvState {
    let s1 = ConvState { ansi: true, ..s };
    if sync_recognized(code) {
        let nc = sync_colors(code, s1.fg, s1.bg);
        switch_color_st(s1, nc.1, nc.0)
    } else {
        s1
    }
}

/// The CGA channel updates of a Renegade pipe code: 0-15 set the
/// foreground, 16-31 the background; anything larger changes nothing.
pub open spec fn renegade_colors(code: u8, fg: u8, bg: u8) -> (u8, u8) {
    if code <= 15 { (code, bg) }
    else if code <= 31 { (fg, (code - 16) as u8) }
    else { (fg, bg) }
}

/// Process one two-digit Renegade pipe code.
pub open spec fn renegade_st(s: ConvState, code: u8) -> ConvState {
    let s1 = ConvState { ansi: true, ..s };
    let nc = renegade_colors(code, s1.fg, s1.bg);
    switch_color_st(s1, nc.1, nc.0)
}

/// The Normal-state transition for one byte: escape introducers and enabled
/// BBS prefixes change the parser state, newlines pass, carriage returns
/// vanish, everything else is emitted through the CP437 table (which is the
/// identity on printable ASCII).
pub open spec fn normal_st(s: ConvState, b: u8) -> ConvState {
    if b == 0x1B {
        ConvState { pstate: ParseState::Escape, ..s }
    } else if s.sync && b == 0x01 {
        ConvState { pstate: ParseState::SynchronetCtrlA, ..s }
    } else if s.pipe && b == 0x7C {
        ConvState { pstate: ParseState::RenegadePipe1, ..s }
    } else if b == 0x0A {
        emit_char_st(s, '\n')
    } else if b == 0x0D {
        s
    } else {
        emit_char_st(s, cp437_char(b))
    }
}

/// The Escape-state transition for one byte.
pub open spec fn escape_byte_st(s: ConvState, b: u8) -> ConvState {
    if b == 0x5B {
        ConvState { pstate: ParseState::Csi, params: Seq::empty(), ..s }
    } else if b == 0x37 {
        ConvState { save: true, ansi: true, pstate: ParseState::Normal, ..s }
    } else if b == 0x38 {
        ConvState { save: false, ansi: true, pstate: ParseState::Normal, ..s }
    } else {
        ConvState { pstate: ParseState::Normal, ..s }
    }
}

/// The Csi-state transition for one byte.
pub open spec fn csi_byte_st(s: ConvState, b: u8) -> ConvState {
    if (0x30 <= b && b <= 0x39) || b == 0x3B {
        ConvState { params: s.params.push(b), ..s }
    } else if 0x40 <= b && b <= 0x7E {
        let s1 = csi_st(ConvState { params: Seq::empty(), ..s }, s.params, cp437_char(b));
        ConvState { pstate: ParseState::Normal, ..s1 }
    } else {
        ConvState { pstate: ParseState::Normal, ..s }
    }
}

/// The first-pipe-digit transition for one byte.
pub open spec fn pipe1_byte_st(s: ConvState, b: u8) -> ConvState {
    if 0x30 <= b && b <= 0x39 {
        ConvState { pstate: ParseState::RenegadePipe2((b - 0x30) as u8), ..s }
    } else if b == 0x7C {
        ConvState { pstate: ParseState::Normal, ..emit_char_st(s, '|') }
    } else {
        normal_st(ConvState { pstate: ParseState::Normal, ..emit_char_st(s, '|') }, b)
    }
}

/// The second-pipe-digit transition for one byte.
pub open spec fn pipe2_byte_st(s: ConvState, d1: u8, b: u8) -> ConvState {
    if 0x30 <= b && b <= 0x39 {
        let code = ((d1 * 10 + (b - 0x30)) as int % 256) as u8;
        let s1 = if code <= 31 { renegade_st(s, code) } else { s };
        ConvState { pstate: ParseState::Normal, ..s1 }
    } else {
        let s1 = emit_char_st(emit_char_st(s, '|'), cp437_char(((0x30 + d1) as int % 256) as u8));
        normal_st(ConvState { pstate: ParseState::Normal, ..s1 }, b)
    }
}

/// The transition for one input byte in CP437 mode.
pub open spec fn byte_st(s: ConvState, b: u8) -> ConvState {
    match s.pstate {
        ParseState::Normal => normal_st(s, b),
        ParseState::Escape => escape_byte_st(s, b),
        ParseState::Csi => csi_byte_st(s, b),
        ParseState::SynchronetCtrlA => ConvState { pstate: ParseState::Normal, ..sync_st(s, b) },
        ParseState::RenegadePipe1 => pipe1_byte_st(s, b),
        ParseState::RenegadePipe2(d1) => pipe2_byte_st(s, d1, b),
    }
}

/// The Normal-state transition for one character in UTF-8 input mode:
/// control characters still go through the CP437 table, larger code points
/// pass through verbatim.
pub open spec fn char_normal_st(s: ConvState, c: char) -> ConvState {
    if c == '\u{1b}' {
        ConvState { pstate: ParseState::Escape, ..s }
    } else if s.sync && c == '\u{1}' {
        ConvState { pstate: ParseState::SynchronetCtrlA, ..s }
    } else if s.pipe && c == '|' {
        ConvState { pstate: ParseState::RenegadePipe1, ..s }
    } else if c == '\n' {
        emit_char_st(s, '\n')
    } else if c == '\r' {
        s
    } else if (c as u32) < 0x20 {
        emit_char_st(s, cp437_char((c as u32) as u8))
    } else {
        emit_char_st(s, c)
    }
}

/// The Escape-state transition for one character.
pub open spec fn escape_char_st(s: ConvState, c: char) -> ConvState {
    if c == '[' {
        ConvState { pstate: ParseState::Csi, params: Seq::empty(), ..s }
    } else if c == '7' {
        ConvState { save: true, ansi: true, pstate: ParseState::Normal, ..s }
    } else if c == '8' {
        ConvState { save: false, ansi: true, pstate: ParseState::Normal, ..s }
    } else {
        ConvState { pstate: ParseState::Normal, ..s }
    }
}

/// The Csi-state transition for one character.
pub open spec fn csi_char_st(s: ConvState, c: char) -> ConvState {
    if ('0' <= c && c <= '9') || c == ';' {
        ConvState { params: s.params.push((c as u32) as u8), ..s }
    } else if 0x40 <= (c as u32) && (c as u32) <= 0x7E {
        let s1 = csi_st(ConvState { params: Seq::empty(), ..s }, s.params, c);
        ConvState { pstate: ParseState::Normal, ..s1 }
    } else {
        ConvState { pstate: ParseState::Normal, ..s }
    }
}

/// The Synchronet-code transition for one character.
pub open spec fn sync_char_st(s: ConvState, c: char) -> ConvState {
    let s1 = if (c as u32) <= 0xFF { sync_st(s, (c as u32) as u8) } else { s };
    ConvState { pstate: ParseState::Normal, ..s1 }
}

/// The first-pipe-digit transition for one character.
pub open spec fn pipe1_char_st(s: ConvState, c: char) -> ConvState {
    if '0' <= c && c <= '9' {
        ConvState { pstate: ParseState::RenegadePipe2(((c as u32) - 0x30) as u8), ..s }
    } else if c == '|' {
        ConvState { pstate: ParseState::Normal, ..emit_char_st(s, '|') }
    } else {
        char_normal_st(ConvState { pstate: ParseState::Normal, ..emit_char_st(s, '|') }, c)
    }
}

/// The second-pipe-digit transition for one character.
pub open spec fn pipe2_char_st(s: ConvState, d1: u8, c: char) -> ConvState {
    if '0' <= c && c <= '9' {
        let code = ((d1 * 10) as int + ((c as u32) - 0x30) as int) % 256;
        let s1 = if code <= 31 { renegade_st(s, code as u8) } else { s };
        ConvState { pstate: ParseState::Normal, ..s1 }
    } else {
        let s1 = emit_char_st(emit_char_st(s, '|'), cp437_char(((0x30 + d1) as int % 256) as u8));
        char_normal_st(ConvState { pstate: ParseState::Normal, ..s1 }, c)
    }
}

/// The transition for one character in UTF-8 input mode.
pub open spec fn char_st(s: ConvState, c: char) -> ConvState {
    match s.pstate {
        ParseState::Normal => char_normal_st(s, c),
        ParseState::Escape => escape_char_st(s, c),
        ParseState::Csi => csi_char_st(s, c),
        ParseState::SynchronetCtrlA => sync_char_st(s, c),
        ParseState::RenegadePipe1 => pipe1_char_st(s, c),
        ParseState::RenegadePipe2(d1) => pipe2_char_st(s, d1, c),
    }
}

/// Fold the byte transition over an input segment.
pub open spec fn process_bytes(s: ConvState, bytes: Seq<u8>) -> ConvState
    decreases bytes.len(),
{
    if bytes.len() == 0 {
        s
    } else {
        byte_st(process_bytes(s, bytes.drop_last()), bytes.last())
    }
}

/// Fold the character transition over a decoded input segment.
pub open spec fn process_chars(s: ConvState, cs: Seq<char>) -> ConvState
    decreases cs.len(),
{
    if cs.len() == 0 {
        s
    } else {
        char_st(process_chars(s, cs.drop_last()), cs.last())
    }
}

/// Emitting characters never moves the parser.
pub proof fn lemma_emit_chars_pstate(s: ConvState, cs: Seq<char>)
    ensures
        emit_chars_st(s, cs).pstate == s.pstate,
    decreases cs.len(),
{
    if cs.len() > 0 {
        lemma_emit_chars_pstate(s, cs.drop_last());
    }
}

/// The parser never stores a pipe digit above 9; the executable converter
/// maintains this so that reassembling `|` plus the digit cannot overflow.
pub open spec fn wf_state(s: ConvState) -> bool {
    match s.pstate {
        ParseState::RenegadePipe2(d) => d <= 9,
        _ => true,
    }
}

/// The initial state: CGA light gray on black, column 0, everything off.
pub open spec fn init_state(sync: bool, pipe: bool, utf8: bool) -> ConvState {
    ConvState {
        fg: 7,
        bg: 0,
        ext_fg: ExtendedColor::Cga(7),
        ext_bg: ExtendedColor::Cga(0),
        mode: ColorMode::Cga,
        output: Seq::empty(),
        column: 0,
        ansi: false,
        save: false,
        pstate: ParseState::Normal,
        params: Seq::empty(),
        sync: sync,
        pipe: pipe,
        utf8: utf8,
    }
}

} // verus!
