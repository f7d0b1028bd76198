//! The executable converter: one pass over the input buffer, maintaining
//! exactly the state of the model in `state`, and producing the framed
//! HTML fragment.

use vstd::prelude::*;
use vstd::slice::slice_subrange;
use vstd::string::{StringExecFns, StrSliceExecFns};
use crate::color::{ColorMode, ExtendedColor, color_to_hex, open_tag_text, close_tag_text,
    ext_color_text, ansi_to_cga, ansi_to_cga_bright};
use crate::cp437::cp437_to_unicode;
use crate::sauce::{find_sub, find_positions_spec, parse_sauce_spec, format_sauce, SauceRecord,
    find_sauce_positions, find_sub_pos, lemma_find_sub_range, lemma_rfind_sauce_range,
    lemma_rfind_comnt_range, find_sauce_mark, comnt_lookback, pos_eq};
use crate::text::{utf8_lossy, utf8_lossy_chars};
use crate::numfmt::dec_digits;
use crate::params::{parse_capped, parse_sgr_params};
use crate::state::{ConvState, ParseState, SgrColors, emit_char_st, emit_chars_st, emit_spaces_st,
    lemma_emit_chars_pstate,
    set_colors_st, switch_color_st, sgr_apply, sgr_of, sgr_st, csi_st, sync_colors, sync_st,
    renegade_colors, renegade_st, normal_st, byte_st, char_normal_st, char_st, process_bytes,
    process_chars, wf_state, init_state, escape_byte_st, csi_byte_st, pipe1_byte_st,
    pipe2_byte_st, escape_char_st, csi_char_st, pipe1_char_st, pipe2_char_st};
use crate::text::{push_char, push_chars};

verus! {

/// Options controlling which input conventions are recognized.
#[derive(Debug, Clone, Copy, Default, PartialEq, Eq, Structural)]
pub struct ConvertOptions {
    /// Recognize Synchronet Ctrl-A color codes.
    pub synchronet_ctrl_a: bool,
    /// Recognize Renegade pipe color codes.
    pub renegade_pipe: bool,
    /// Treat the input as UTF-8; only control characters go through the
    /// CP437 table, larger code points pass through verbatim.
    pub utf8_input: bool,
}

struct Converter {
    foreground: u8,
    background: u8,
    ext_foreground: ExtendedColor,
    ext_background: ExtendedColor,
    color_mode: ColorMode,
    output: String,
    current_column: u8,
    has_encountered_ansi: bool,
    save_position_active: bool,
    parse_state: ParseState,
    csi_params: Vec<u8>,
    options: ConvertOptions,
}

impl View for Converter {
    type V = ConvState;

    closed spec fn view(&self) -> ConvState {
        ConvState {
            fg: self.foreground,
            bg: self.background,
            ext_fg: self.ext_foreground,
            ext_bg: self.ext_background,
            mode: self.color_mode,
            output: self.output@,
            column: self.current_column,
            ansi: self.has_encountered_ansi,
            save: self.save_position_active,
            pstate: self.parse_state,
            params: self.csi_params@,
            sync: self.options.synchronet_ctrl_a,
            pipe: self.options.renegade_pipe,
            utf8: self.options.utf8_input,
        }
    }
}

impl Converter {
    fn new(options: ConvertOptions) -> (r: Converter)
        ensures
            r@ == init_state(options.synchronet_ctrl_a, options.renegade_pipe,
                options.utf8_input),
    {
        let r = Converter {
            foreground: 7,
            background: 0,
            ext_foreground: ExtendedColor::Cga(7),
            ext_background: ExtendedColor::Cga(0),
            color_mode: ColorMode::Cga,
            output: String::new(),
            current_column: 0,
            has_encountered_ansi: false,
            save_position_active: false,
            parse_state: ParseState::Normal,
            csi_params: Vec::new(),
            options,
        };
        proof {
            assert(r@ =~= init_state(options.synchronet_ctrl_a, options.renegade_pipe,
                options.utf8_input));
        }
        r
    }

    /// Append one extended-color attribute value to the output.
    fn push_ext_color(&mut self, c: ExtendedColor, is_fg: bool)
        ensures
            final(self)@ == (ConvState { output: old(self)@.output + ext_color_text(c, is_fg),
                ..old(self)@ }),
    {
        match c {
            ExtendedColor::Cga(v) => {
                if is_fg {
                    self.output.append("fg-");
                } else {
                    self.output.append("bg-");
                }
                let h = color_to_hex(v);
                push_char(&mut self.output, h);
            },
            ExtendedColor::Palette(n) => {
                let d = dec_digits(n as u32);
                push_chars(&mut self.output, &d);
            },
            ExtendedColor::Rgb(r, g, b) => {
                let dr = dec_digits(r as u32);
                push_chars(&mut self.output, &dr);
                self.output.append(",");
                let dg = dec_digits(g as u32);
                push_chars(&mut self.output, &dg);
                self.output.append(",");
                let db = dec_digits(b as u32);
                push_chars(&mut self.output, &db);
            },
        }
        proof {
            assert(self@ =~= (ConvState { output: old(self)@.output + ext_color_text(c, is_fg),
                ..old(self)@ }));
        }
    }

    /// Append the opening tag for the current color state.
    fn open_tag(&mut self)
        ensures
            final(self)@ == (ConvState {
                output: old(self)@.output + open_tag_text(old(self)@.mode, old(self)@.bg,
                    old(self)@.fg, old(self)@.ext_bg, old(self)@.ext_fg),
                ..old(self)@
            }),
    {
        match self.color_mode {
            ColorMode::Cga => {
                self.output.append("<ans-");
                let b = color_to_hex(self.background);
                push_char(&mut self.output, b);
                let f = color_to_hex(self.foreground);
                push_char(&mut self.output, f);
                self.output.append(">");
            },
            ColorMode::Color256 => {
                self.output.append("<ans-256 fg=\"");
                let ef = self.ext_foreground;
                self.push_ext_color(ef, true);
                self.output.append("\" bg=\"");
                let eb = self.ext_background;
                self.push_ext_color(eb, false);
                self.output.append("\">");
            },
            ColorMode::Rgb => {
                self.output.append("<ans-rgb fg=\"");
                let ef = self.ext_foreground;
                self.push_ext_color(ef, true);
                self.output.append("\" bg=\"");
                let eb = self.ext_background;
                self.push_ext_color(eb, false);
                self.output.append("\">");
            },
        }
        proof {
            assert(self@ =~= (ConvState {
                output: old(self)@.output + open_tag_text(old(self)@.mode, old(self)@.bg,
                    old(self)@.fg, old(self)@.ext_bg, old(self)@.ext_fg),
                ..old(self)@
            }));
        }
    }

    /// Append the closing tag for the current color state.
    fn close_tag(&mut self)
        ensures
            final(self)@ == (ConvState {
                output: old(self)@.output + close_tag_text(old(self)@.mode, old(self)@.bg,
                    old(self)@.fg),
                ..old(self)@
            }),
    {
        match self.color_mode {
            ColorMode::Cga => {
                self.output.append("</ans-");
                let b = color_to_hex(self.background);
                push_char(&mut self.output, b);
                let f = color_to_hex(self.foreground);
                push_char(&mut self.output, f);
                self.output.append(">");
            },
            ColorMode::Color256 => {
                self.output.append("</ans-256>");
            },
            ColorMode::Rgb => {
                self.output.append("</ans-rgb>");
            },
        }
        proof {
            assert(self@ =~= (ConvState {
                output: old(self)@.output + close_tag_text(old(self)@.mode, old(self)@.bg,
                    old(self)@.fg),
                ..old(self)@
            }));
        }
    }

    /// Install a color assignment, switching tags only when something
    /// effective changed.
    fn apply_colors(&mut self, nm: ColorMode, nbg: u8, nfg: u8, nebg: ExtendedColor,
        nefg: ExtendedColor)
        ensures
            final(self)@ == set_colors_st(old(self)@, nm, nbg, nfg, nebg, nefg),
    {
        let changed = nm != self.color_mode || (match self.color_mode {
            ColorMode::Cga => nbg != self.background || nfg != self.foreground,
            _ => nebg != self.ext_background || nefg != self.ext_foreground,
        });
        if changed {
            self.close_tag();
            self.color_mode = nm;
            self.background = nbg;
            self.foreground = nfg;
            self.ext_background = nebg;
            self.ext_foreground = nefg;
            self.open_tag();
            proof {
                assert(self@ =~= set_colors_st(old(self)@, nm, nbg, nfg, nebg, nefg));
            }
        } else {
            proof {
                assert(self@ =~= set_colors_st(old(self)@, nm, nbg, nfg, nebg, nefg));
            }
        }
    }

    /// Install a plain CGA color pair.
    fn switch_color(&mut self, nbg: u8, nfg: u8)
        ensures
            final(self)@ == switch_color_st(old(self)@, nbg, nfg),
    {
        self.apply_colors(ColorMode::Cga, nbg, nfg, ExtendedColor::Cga(nbg),
            ExtendedColor::Cga(nfg));
    }

    /// Emit one character through the save gate, soft wrap, and HTML
    /// escaping.
    fn emit_char(&mut self, ch: char)
        ensures
            final(self)@ == emit_char_st(old(self)@, ch),
    {
        if self.save_position_active || ch == '\r' {
            return;
        }
        if self.has_encountered_ansi && self.current_column >= 80 && ch != '\n' {
            push_char(&mut self.output, '\n');
            self.current_column = 0;
        }
        if ch == '<' {
            self.output.append("&lt;");
        } else if ch == '>' {
            self.output.append("&gt;");
        } else if ch == '&' {
            self.output.append("&amp;");
        } else if ch == '"' {
            self.output.append("&quot;");
        } else if ch == '\'' {
            self.output.append("&apos;");
        } else if ch == '\n' {
            push_char(&mut self.output, '\n');
            self.current_column = 0;
        } else {
            push_char(&mut self.output, ch);
            if self.current_column < 80 {
                self.current_column = self.current_column + 1;
            }
        }
        proof {
            assert(self@ =~= emit_char_st(old(self)@, ch));
        }
    }

    /// Emit every character of a string.
    fn emit_str(&mut self, s: &str)
        ensures
            final(self)@ == emit_chars_st(old(self)@, s@),
    {
        let n = s.unicode_len();
        let mut i: usize = 0;
        proof {
            assert(s@.take(0) =~= Seq::<char>::empty());
        }
        while i < n
            invariant
                0 <= i <= n == s@.len(),
                self@ == emit_chars_st(old(self)@, s@.take(i as int)),
            decreases n - i,
        {
            let c = s.get_char(i);
            self.emit_char(c);
            proof {
                assert(s@.take(i + 1).drop_last() =~= s@.take(i as int));
                assert(s@.take(i + 1).last() == s@[i as int]);
            }
            i = i + 1;
        }
        proof {
            assert(s@.take(i as int) =~= s@);
        }
    }

    /// Run one SGR sequence over the accumulated parameter bytes.
    #[verifier::rlimit(100)]
    fn process_sgr(&mut self, params: &[u8])
        ensures
            final(self)@ == sgr_st(old(self)@, params@),
    {
        let ps: Vec<u16> = if params.len() == 0 {
            let mut v: Vec<u16> = Vec::new();
            v.push(0u16);
            proof {
                assert(v@ =~= seq![0u16]);
            }
            v
        } else {
            parse_sgr_params(params)
        };
        let mut nfg = self.foreground;
        let mut nbg = self.background;
        let mut nmode = self.color_mode;
        let mut nefg = self.ext_foreground;
        let mut nebg = self.ext_background;
        let ghost orig = self@;
        let mut i: usize = 0;
        while i < ps.len()
            invariant
                0 <= i <= ps@.len(),
                self@ == orig,
                sgr_apply(SgrColors { fg: nfg, bg: nbg, mode: nmode, ext_fg: nefg,
                    ext_bg: nebg }, ps@, i as int) == sgr_apply(sgr_of(orig), ps@, 0),
            decreases ps@.len() - i,
        {
            let ghost pre = SgrColors { fg: nfg, bg: nbg, mode: nmode, ext_fg: nefg,
                ext_bg: nebg };
            let ghost gi = i as int;
            let p = ps[i];
            if p == 0 {
                nfg = 7;
                nbg = 0;
                nmode = ColorMode::Cga;
                nefg = ExtendedColor::Cga(7);
                nebg = ExtendedColor::Cga(0);
                i = i + 1;
            } else if p == 1 {
                nfg = nfg | 0x08;
                match nefg {
                    ExtendedColor::Cga(v) => { nefg = ExtendedColor::Cga(v | 0x08); },
                    _ => {},
                }
                i = i + 1;
            } else if p == 2 || p == 22 {
                nfg = nfg & 0x07;
                match nefg {
                    ExtendedColor::Cga(v) => { nefg = ExtendedColor::Cga(v & 0x07); },
                    _ => {},
                }
                i = i + 1;
            } else if p == 5 || p == 6 {
                nbg = nbg | 0x08;
                match nebg {
                    ExtendedColor::Cga(v) => { nebg = ExtendedColor::Cga(v | 0x08); },
                    _ => {},
                }
                i = i + 1;
            } else if p == 25 {
                nbg = nbg & 0x07;
                match nebg {
                    ExtendedColor::Cga(v) => { nebg = ExtendedColor::Cga(v & 0x07); },
                    _ => {},
                }
                i = i + 1;
            } else if p == 7 {
                let tf = nfg;
                nfg = nbg;
                nbg = tf;
                let te = nefg;
                nefg = nebg;
                nebg = te;
                i = i + 1;
            } else if 30 <= p && p <= 37 {
                let cc = ansi_to_cga_exec((p - 30) as u8);
                nfg = (nfg & 0x08) | cc;
                nmode = ColorMode::Cga;
                nefg = ExtendedColor::Cga(nfg);
                i = i + 1;
            } else if p == 38 {
                if ps.len() - i > 2 && ps[i + 1] == 5 {
                    let idx = (ps[i + 2] % 256) as u8;
                    match nebg {
                        ExtendedColor::Rgb(_, _, _) => { nmode = ColorMode::Rgb; },
                        _ => { nmode = ColorMode::Color256; },
                    }
                    nefg = ExtendedColor::Palette(idx);
                    match nebg {
                        ExtendedColor::Cga(_) => { nebg = ExtendedColor::Cga(nbg); },
                        _ => {},
                    }
                    i = i + 3;
                } else if ps.len() - i > 4 && ps[i + 1] == 2 {
                    let r = (ps[i + 2] % 256) as u8;
                    let g = (ps[i + 3] % 256) as u8;
                    let b = (ps[i + 4] % 256) as u8;
                    nmode = ColorMode::Rgb;
                    nefg = ExtendedColor::Rgb(r, g, b);
                    match nebg {
                        ExtendedColor::Cga(_) => { nebg = ExtendedColor::Cga(nbg); },
                        _ => {},
                    }
                    i = i + 5;
                } else {
                    i = i + 1;
                }
            } else if p == 39 {
                nfg = 7;
                nmode = ColorMode::Cga;
                nefg = ExtendedColor::Cga(7);
                i = i + 1;
            } else if 40 <= p && p <= 47 {
                let cc = ansi_to_cga_exec((p - 40) as u8);
                nbg = (nbg & 0x08) | cc;
                nmode = ColorMode::Cga;
                nebg = ExtendedColor::Cga(nbg);
                i = i + 1;
            } else if p == 48 {
                if ps.len() - i > 2 && ps[i + 1] == 5 {
                    let idx = (ps[i + 2] % 256) as u8;
                    match nefg {
                        ExtendedColor::Rgb(_, _, _) => { nmode = ColorMode::Rgb; },
                        _ => { nmode = ColorMode::Color256; },
                    }
                    nebg = ExtendedColor::Palette(idx);
                    match nefg {
                        ExtendedColor::Cga(_) => { nefg = ExtendedColor::Cga(nfg); },
                        _ => {},
                    }
                    i = i + 3;
                } else if ps.len() - i > 4 && ps[i + 1] == 2 {
                    let r = (ps[i + 2] % 256) as u8;
                    let g = (ps[i + 3] % 256) as u8;
                    let b = (ps[i + 4] % 256) as u8;
                    nmode = ColorMode::Rgb;
                    nebg = ExtendedColor::Rgb(r, g, b);
                    match nefg {
                        ExtendedColor::Cga(_) => { nefg = ExtendedColor::Cga(nfg); },
                        _ => {},
                    }
                    i = i + 5;
                } else {
                    i = i + 1;
                }
            } else if p == 49 {
                nbg = 0;
                nmode = ColorMode::Cga;
                nebg = ExtendedColor::Cga(0);
                i = i + 1;
            } else if 90 <= p && p <= 97 {
                let cc = ansi_to_cga_bright_exec((p - 90) as u8);
                nfg = cc;
                nmode = ColorMode::Cga;
                nefg = ExtendedColor::Cga(nfg);
                i = i + 1;
            } else if 100 <= p && p <= 107 {
                let cc = ansi_to_cga_bright_exec((p - 100) as u8);
                nbg = cc;
                nmode = ColorMode::Cga;
                nebg = ExtendedColor::Cga(nbg);
                i = i + 1;
            } else {
                i = i + 1;
            }
            proof {
                assert(sgr_apply(SgrColors { fg: nfg, bg: nbg, mode: nmode, ext_fg: nefg,
                    ext_bg: nebg }, ps@, i as int) == sgr_apply(pre, ps@, gi));
            }
        }
        proof {
            assert(sgr_apply(SgrColors { fg: nfg, bg: nbg, mode: nmode, ext_fg: nefg,
                ext_bg: nebg }, ps@, i as int) == SgrColors { fg: nfg, bg: nbg, mode: nmode,
                ext_fg: nefg, ext_bg: nebg });
        }
        self.apply_colors(nmode, nbg, nfg, nebg, nefg);
        proof {
            assert(self@ =~= sgr_st(old(self)@, params@));
        }
    }

    /// Dispatch a complete CSI sequence.
    fn process_csi(&mut self, params: &[u8], cmd: char)
        ensures
            final(self)@ == csi_st(old(self)@, params@, cmd),
    {
        self.has_encountered_ansi = true;
        let ghost s1 = self@;
        if cmd == 'm' {
            self.process_sgr(params);
        } else if cmd == 'J' {
            let n: u32 = match parse_capped(params, 255) {
                Some(v) => v,
                None => 0,
            };
            if n == 2 || n == 3 {
                self.emit_char('\n');
                self.emit_char('\n');
                self.emit_char('\n');
            }
        } else if cmd == 's' {
            self.save_position_active = true;
        } else if cmd == 'u' {
            self.save_position_active = false;
        } else if cmd == 'C' {
            let n: u32 = match parse_capped(params, 0xFFFF_FFFF) {
                Some(v) => if v < 1 { 1 } else { v },
                None => 1,
            };
            let mut k: u32 = 0;
            while k < n
                invariant
                    0 <= k <= n,
                    self@ == emit_spaces_st(s1, k as nat),
                decreases n - k,
            {
                self.emit_char(' ');
                k = k + 1;
            }
        }
        proof {
            assert(self@ =~= csi_st(old(self)@, params@, cmd));
        }
    }

    /// Process one Synchronet Ctrl-A color-code character; unrecognized
    /// codes change no color state.
    fn process_synchronet_code(&mut self, code: u8)
        ensures
            final(self)@ == sync_st(old(self)@, code),
    {
        self.has_encountered_ansi = true;
        let mut nfg = self.foreground;
        let mut nbg = self.background;
        let mut recognized = true;
        if code == 0x6B { nfg = (nfg & 0x08) | 0; }
        else if code == 0x62 { nfg = (nfg & 0x08) | 1; }
        else if code == 0x67 { nfg = (nfg & 0x08) | 2; }
        else if code == 0x63 { nfg = (nfg & 0x08) | 3; }
        else if code == 0x72 { nfg = (nfg & 0x08) | 4; }
        else if code == 0x6D { nfg = (nfg & 0x08) | 5; }
        else if code == 0x79 { nfg = (nfg & 0x08) | 6; }
        else if code == 0x77 { nfg = (nfg & 0x08) | 7; }
        else if code == 0x4B { nbg = (nbg & 0x08) | 0; }
        else if code == 0x42 { nbg = (nbg & 0x08) | 1; }
        else if code == 0x47 { nbg = (nbg & 0x08) | 2; }
        else if code == 0x43 { nbg = (nbg & 0x08) | 3; }
        else if code == 0x52 { nbg = (nbg & 0x08) | 4; }
        else if code == 0x4D { nbg = (nbg & 0x08) | 5; }
        else if code == 0x59 { nbg = (nbg & 0x08) | 6; }
        else if code == 0x57 { nbg = (nbg & 0x08) | 7; }
        else if code == 0x30 { nbg = (nbg & 0x08) | 0; }
        else if code == 0x31 { nbg = (nbg & 0x08) | 1; }
        else if code == 0x32 { nbg = (nbg & 0x08) | 2; }
        else if code == 0x33 { nbg = (nbg & 0x08) | 3; }
        else if code == 0x34 { nbg = (nbg & 0x08) | 4; }
        else if code == 0x35 { nbg = (nbg & 0x08) | 5; }
        else if code == 0x36 { nbg = (nbg & 0x08) | 6; }
        else if code == 0x37 { nbg = (nbg & 0x08) | 7; }
        else if code == 0x48 || code == 0x68 { nfg = nfg | 0x08; }
        else if code == 0x49 || code == 0x69 { nbg = nbg | 0x08; }
        else if code == 0x4E || code == 0x6E { nfg = 7; nbg = 0; }
        else if code == 0x2D { nfg = nfg & 0x07; }
        else if code == 0x5F { nbg = nbg & 0x07; }
        else { recognized = false; }
        proof {
            assert(recognized == crate::state::sync_recognized(code));
            assert((nfg, nbg) == sync_colors(code, old(self)@.fg, old(self)@.bg));
        }
        if recognized {
            self.switch_color(nbg, nfg);
        }
        proof {
            assert(self@ =~= sync_st(old(self)@, code));
        }
    }

    /// Process one two-digit Renegade pipe code.
    fn process_renegade_code(&mut self, code: u8)
        ensures
            final(self)@ == renegade_st(old(self)@, code),
    {
        self.has_encountered_ansi = true;
        let mut nfg = self.foreground;
        let mut nbg = self.background;
        if code <= 15 {
            nfg = code;
        } else if code <= 31 {
            nbg = code - 16;
        }
        proof {
            assert((nfg, nbg) == renegade_colors(code, old(self)@.fg, old(self)@.bg));
        }
        self.switch_color(nbg, nfg);
    }

    /// The Normal-state handling of one byte.
    fn normal_byte(&mut self, b: u8)
        ensures
            final(self)@ == normal_st(old(self)@, b),
    {
        if b == 0x1B {
            self.parse_state = ParseState::Escape;
        } else if self.options.synchronet_ctrl_a && b == 0x01 {
            self.parse_state = ParseState::SynchronetCtrlA;
        } else if self.options.renegade_pipe && b == 0x7C {
            self.parse_state = ParseState::RenegadePipe1;
        } else if b == 0x0A {
            self.emit_char('\n');
        } else if b == 0x0D {
        } else {
            let c = cp437_to_unicode(b);
            self.emit_char(c);
        }
        proof {
            assert(self@ =~= normal_st(old(self)@, b));
        }
    }

    /// Feed one input byte through the state machine.
    fn process_byte(&mut self, b: u8)
        requires
            wf_state(old(self)@),
        ensures
            final(self)@ == byte_st(old(self)@, b),
            wf_state(final(self)@),
    {
        let st = self.parse_state;
        match st {
            ParseState::Normal => {
                self.normal_byte(b);
                proof {
                    assert(self@ =~= byte_st(old(self)@, b));
                }
            },
            ParseState::Escape => {
                self.escape_byte(b);
                proof {
                    assert(self@ =~= byte_st(old(self)@, b));
                }
            },
            ParseState::Csi => {
                self.csi_byte(b);
                proof {
                    assert(self@ =~= byte_st(old(self)@, b));
                }
            },
            ParseState::SynchronetCtrlA => {
                self.process_synchronet_code(b);
                self.parse_state = ParseState::Normal;
                proof {
                    assert(self@ =~= byte_st(old(self)@, b));
                }
            },
            ParseState::RenegadePipe1 => {
                self.pipe1_byte(b);
                proof {
                    assert(self@ =~= byte_st(old(self)@, b));
                }
            },
            ParseState::RenegadePipe2(d1) => {
                self.pipe2_byte(d1, b);
                proof {
                    assert(self@ =~= byte_st(old(self)@, b));
                }
            },
        }
    }

    fn escape_byte(&mut self, b: u8)
        ensures
            final(self)@ == escape_byte_st(old(self)@, b),
    {
        if b == 0x5B {
            self.parse_state = ParseState::Csi;
            self.csi_params = Vec::new();
            proof {
                assert(self@ =~= (ConvState { pstate: ParseState::Csi, params: Seq::empty(),
                    ..old(self)@ }));
            }
        } else if b == 0x37 {
            self.save_position_active = true;
            self.has_encountered_ansi = true;
            self.parse_state = ParseState::Normal;
        } else if b == 0x38 {
            self.save_position_active = false;
            self.has_encountered_ansi = true;
            self.parse_state = ParseState::Normal;
        } else {
            self.parse_state = ParseState::Normal;
        }
        proof {
            assert(self@ =~= escape_byte_st(old(self)@, b));
        }
    }

    fn csi_byte(&mut self, b: u8)
        ensures
            final(self)@ == csi_byte_st(old(self)@, b),
    {
        if (0x30 <= b && b <= 0x39) || b == 0x3B {
            self.csi_params.push(b);
        } else if 0x40 <= b && b <= 0x7E {
            let mut params: Vec<u8> = Vec::new();
            core::mem::swap(&mut params, &mut self.csi_params);
            proof {
                assert(self@ =~= (ConvState { params: Seq::empty(), ..old(self)@ }));
            }
            let cmd = cp437_to_unicode(b);
            self.process_csi(params.as_slice(), cmd);
            self.parse_state = ParseState::Normal;
        } else {
            self.parse_state = ParseState::Normal;
        }
        proof {
            assert(self@ =~= csi_byte_st(old(self)@, b));
        }
    }

    fn pipe1_byte(&mut self, b: u8)
        ensures
            final(self)@ == pipe1_byte_st(old(self)@, b),
    {
        if 0x30 <= b && b <= 0x39 {
            self.parse_state = ParseState::RenegadePipe2(b - 0x30);
        } else if b == 0x7C {
            self.emit_char('|');
            self.parse_state = ParseState::Normal;
        } else {
            self.emit_char('|');
            self.parse_state = ParseState::Normal;
            self.normal_byte(b);
        }
        proof {
            assert(self@ =~= pipe1_byte_st(old(self)@, b));
        }
    }

    fn pipe2_byte(&mut self, d1: u8, b: u8)
        requires
            d1 <= 9,
        ensures
            final(self)@ == pipe2_byte_st(old(self)@, d1, b),
    {
        if 0x30 <= b && b <= 0x39 {
            let code = d1 * 10 + (b - 0x30);
            proof {
                assert(code as int == (d1 * 10 + (b - 0x30)) as int % 256);
            }
            if code <= 31 {
                self.process_renegade_code(code);
            }
            self.parse_state = ParseState::Normal;
        } else {
            self.emit_char('|');
            proof {
                assert((0x30 + d1) as int % 256 == (0x30 + d1) as int);
            }
            let d = cp437_to_unicode(0x30 + d1);
            self.emit_char(d);
            self.parse_state = ParseState::Normal;
            self.normal_byte(b);
        }
        proof {
            assert(self@ =~= pipe2_byte_st(old(self)@, d1, b));
        }
    }

    /// Feed one decoded character through the state machine, in UTF-8
    /// input mode.
    fn process_utf8_char(&mut self, c: char)
        requires
            wf_state(old(self)@),
        ensures
            final(self)@ == char_st(old(self)@, c),
            wf_state(final(self)@),
    {
        let st = self.parse_state;
        match st {
            ParseState::Normal => {
                self.normal_char(c);
                proof {
                    assert(self@ =~= char_st(old(self)@, c));
                }
            },
            ParseState::Escape => {
                self.utf8_escape_step(c);
                proof {
                    assert(self@ =~= char_st(old(self)@, c));
                }
            },
            ParseState::Csi => {
                self.utf8_csi_step(c);
                proof {
                    assert(self@ =~= char_st(old(self)@, c));
                }
            },
            ParseState::SynchronetCtrlA => {
                if (c as u32) <= 0xFF {
                    self.process_synchronet_code((c as u32) as u8);
                }
                self.parse_state = ParseState::Normal;
                proof {
                    assert(self@ =~= char_st(old(self)@, c));
                }
            },
            ParseState::RenegadePipe1 => {
                self.utf8_pipe1_step(c);
                proof {
                    assert(self@ =~= char_st(old(self)@, c));
                }
            },
            ParseState::RenegadePipe2(d1) => {
                self.utf8_pipe2_step(d1, c);
                proof {
                    assert(self@ =~= char_st(old(self)@, c));
                }
            },
        }
    }

    fn utf8_escape_step(&mut self, c: char)
        ensures
            final(self)@ == escape_char_st(old(self)@, c),
    {
        if c == '[' {
            self.parse_state = ParseState::Csi;
            self.csi_params = Vec::new();
            proof {
                assert(self@ =~= (ConvState { pstate: ParseState::Csi, params: Seq::empty(),
                    ..old(self)@ }));
            }
        } else if c == '7' {
            self.save_position_active = true;
            self.has_encountered_ansi = true;
            self.parse_state = ParseState::Normal;
        } else if c == '8' {
            self.save_position_active = false;
            self.has_encountered_ansi = true;
            self.parse_state = ParseState::Normal;
        } else {
            self.parse_state = ParseState::Normal;
        }
        proof {
            assert(self@ =~= escape_char_st(old(self)@, c));
        }
    }

    fn utf8_csi_step(&mut self, c: char)
        ensures
            final(self)@ == csi_char_st(old(self)@, c),
    {
        if ('0' <= c && c <= '9') || c == ';' {
            self.csi_params.push((c as u32) as u8);
        } else if 0x40 <= (c as u32) && (c as u32) <= 0x7E {
            let mut params: Vec<u8> = Vec::new();
            core::mem::swap(&mut params, &mut self.csi_params);
            proof {
                assert(self@ =~= (ConvState { params: Seq::empty(), ..old(self)@ }));
            }
            self.process_csi(params.as_slice(), c);
            self.parse_state = ParseState::Normal;
        } else {
            self.parse_state = ParseState::Normal;
        }
        proof {
            assert(self@ =~= csi_char_st(old(self)@, c));
        }
    }

    fn utf8_pipe1_step(&mut self, c: char)
        ensures
            final(self)@ == pipe1_char_st(old(self)@, c),
    {
        if '0' <= c && c <= '9' {
            self.parse_state = ParseState::RenegadePipe2(((c as u32) - 0x30) as u8);
        } else if c == '|' {
            self.emit_char('|');
            self.parse_state = ParseState::Normal;
        } else {
            self.emit_char('|');
            self.parse_state = ParseState::Normal;
            self.normal_char(c);
        }
        proof {
            assert(self@ =~= pipe1_char_st(old(self)@, c));
        }
    }

    fn utf8_pipe2_step(&mut self, d1: u8, c: char)
        requires
            d1 <= 9,
        ensures
            final(self)@ == pipe2_char_st(old(self)@, d1, c),
    {
        if '0' <= c && c <= '9' {
            let code = d1 * 10 + ((c as u32) as u8 - 0x30);
            proof {
                assert(code as int == ((d1 * 10) as int + ((c as u32) - 0x30) as int) % 256);
            }
            if code <= 31 {
                self.process_renegade_code(code);
            }
            self.parse_state = ParseState::Normal;
        } else {
            self.emit_char('|');
            proof {
                assert((0x30 + d1) as int % 256 == (0x30 + d1) as int);
            }
            let d = cp437_to_unicode(0x30 + d1);
            self.emit_char(d);
            self.parse_state = ParseState::Normal;
            self.normal_char(c);
        }
        proof {
            assert(self@ =~= pipe2_char_st(old(self)@, d1, c));
        }
    }

    /// The Normal-state handling of one character in UTF-8 input mode.
    fn normal_char(&mut self, c: char)
        ensures
            final(self)@ == char_normal_st(old(self)@, c),
    {
        if c == '\u{1b}' {
            self.parse_state = ParseState::Escape;
        } else if self.options.synchronet_ctrl_a && c == '\u{1}' {
            self.parse_state = ParseState::SynchronetCtrlA;
        } else if self.options.renegade_pipe && c == '|' {
            self.parse_state = ParseState::RenegadePipe1;
        } else if c == '\n' {
            self.emit_char('\n');
        } else if c == '\r' {
        } else if (c as u32) < 0x20 {
            let u = cp437_to_unicode((c as u32) as u8);
            self.emit_char(u);
        } else {
            self.emit_char(c);
        }
        proof {
            assert(self@ =~= char_normal_st(old(self)@, c));
        }
    }
}

/// The ANSI-to-CGA permutation as executable code.
fn ansi_to_cga_exec(n: u8) -> (r: u8)
    ensures
        r == ansi_to_cga(n),
{
    if n == 0 { 0 }
    else if n == 1 { 4 }
    else if n == 2 { 2 }
    else if n == 3 { 6 }
    else if n == 4 { 1 }
    else if n == 5 { 5 }
    else if n == 6 { 3 }
    else if n == 7 { 7 }
    else { 7 }
}

/// The bright ANSI-to-CGA permutation as executable code.
fn ansi_to_cga_bright_exec(n: u8) -> (r: u8)
    ensures
        r == ansi_to_cga_bright(n),
{
    if n == 0 { 8 }
    else if n == 1 { 12 }
    else if n == 2 { 10 }
    else if n == 3 { 14 }
    else if n == 4 { 9 }
    else if n == 5 { 13 }
    else if n == 6 { 11 }
    else if n == 7 { 15 }
    else { 15 }
}

/// Where content processing stops: the first SUB byte, else the comment
/// block, else the record marker, else the end of the buffer.
pub open spec fn content_end_spec(input: Seq<u8>) -> int {
    match find_sub(input) {
        Some(i) => i,
        None => match find_positions_spec(input).1 {
            Some(i) => i,
            None => match find_positions_spec(input).0 {
                Some(i) => i,
                None => input.len() as int,
            },
        },
    }
}

/// The metadata lines a located record contributes: a separating newline
/// and the rendered `Key: Value` lines, all emitted through the renderer;
/// nothing when the record does not parse or renders empty.
pub open spec fn sauce_meta_st(s1: ConvState, input: Seq<u8>, sp: int, comnt: Option<int>)
    -> ConvState {
    let cbytes = match comnt {
        Some(cp) => Some(input.subrange(cp, sp)),
        None => None::<Seq<u8>>,
    };
    match parse_sauce_spec(input.skip(sp), cbytes) {
        Some(r) => if format_sauce(r).len() > 0 {
            emit_chars_st(emit_char_st(s1, '\n'), format_sauce(r))
        } else {
            s1
        },
        None => s1,
    }
}

/// Content after the 128-byte record: when any of it is neither NUL nor
/// SUB, a separating newline is emitted and the bytes up to the next SUB
/// run through the state machine again.
pub open spec fn after_sauce_st(s2: ConvState, input: Seq<u8>, sp: int) -> ConvState {
    let after = sp + 128;
    let rem = input.skip(after);
    if after < input.len() && (exists|k: int| 0 <= k < rem.len() && rem[k] != 0
        && rem[k] != 0x1A) {
        let rend = match find_sub(rem) {
            Some(q) => q,
            None => rem.len() as int,
        };
        process_bytes(emit_char_st(s2, '\n'), rem.take(rend))
    } else {
        s2
    }
}

/// One whole conversion pass in CP437 mode, from the state holding the
/// opening frame.
pub open spec fn convert_content_st(s0: ConvState, input: Seq<u8>) -> ConvState {
    let s1 = process_bytes(s0, input.take(content_end_spec(input)));
    match find_positions_spec(input).0 {
        Some(sp) => after_sauce_st(sauce_meta_st(s1, input, sp, find_positions_spec(input).1),
            input, sp),
        None => s1,
    }
}

/// The first SUB character at or after `i` in a decoded text.
pub open spec fn find_sub_char_from(cs: Seq<char>, i: int) -> Option<int>
    decreases cs.len() - i,
{
    if i < 0 || i >= cs.len() {
        None
    } else if cs[i] == '\u{1a}' {
        Some(i)
    } else {
        find_sub_char_from(cs, i + 1)
    }
}

/// Content after the record in UTF-8 mode: decoded leniently, processed up
/// to the next SUB character.
pub open spec fn after_sauce_utf8_st(s2: ConvState, input: Seq<u8>, sp: int) -> ConvState {
    let after = sp + 128;
    let rem = input.skip(after);
    if after < input.len() && (exists|k: int| 0 <= k < rem.len() && rem[k] != 0
        && rem[k] != 0x1A) {
        let cs = utf8_lossy_chars(rem);
        let rend = match find_sub_char_from(cs, 0) {
            Some(q) => q,
            None => cs.len() as int,
        };
        process_chars(emit_char_st(s2, '\n'), cs.take(rend))
    } else {
        s2
    }
}

/// One whole conversion pass in UTF-8 input mode.
pub open spec fn convert_content_utf8_st(s0: ConvState, input: Seq<u8>) -> ConvState {
    let s1 = process_chars(s0, utf8_lossy_chars(input.take(content_end_spec(input))));
    match find_positions_spec(input).0 {
        Some(sp) => after_sauce_utf8_st(sauce_meta_st(s1, input, sp,
            find_positions_spec(input).1), input, sp),
        None => s1,
    }
}

/// The state a conversion starts from: the initial colors, with the frame
/// opener and the first color tag already in the output.
pub open spec fn start_state(sync: bool, pipe: bool, utf8: bool) -> ConvState {
    let s0 = init_state(sync, pipe, utf8);
    ConvState {
        output: "<pre class=\"ansi\">"@ + open_tag_text(ColorMode::Cga, 0, 7,
            ExtendedColor::Cga(0), ExtendedColor::Cga(7)),
        ..s0
    }
}

/// The closing frame: the final color tag closed, then the wrapper.
pub open spec fn framed_output(s: ConvState) -> Seq<char> {
    s.output + close_tag_text(s.mode, s.bg, s.fg) + "</pre>"@
}

/// The complete conversion of a byte buffer under the given options.
pub open spec fn convert_spec(input: Seq<u8>, sync: bool, pipe: bool, utf8: bool) -> Seq<char> {
    let s1 = start_state(sync, pipe, utf8);
    let s2 = if utf8 {
        convert_content_utf8_st(s1, input)
    } else {
        convert_content_st(s1, input)
    };
    framed_output(s2)
}

/// Whether any byte is neither NUL nor SUB.
fn any_content(rem: &[u8]) -> (r: bool)
    ensures
        r == exists|k: int| 0 <= k < rem@.len() && rem@[k] != 0 && rem@[k] != 0x1A,
{
    let mut k: usize = 0;
    while k < rem.len()
        invariant
            0 <= k <= rem@.len(),
            forall|t: int| 0 <= t < k ==> (rem@[t] == 0 || #[trigger] rem@[t] == 0x1A),
        decreases rem@.len() - k,
    {
        if rem[k] != 0 && rem[k] != 0x1A {
            return true;
        }
        k = k + 1;
    }
    false
}

/// Emit the metadata of a record found at `sp`, then process the content
/// after the record.
#[verifier::rlimit(100)]
fn handle_sauce(conv: &mut Converter, input: &[u8], sp: usize, comnt_pos: Option<usize>)
    requires
        sp + 7 <= input@.len(),
        match comnt_pos {
            Some(cp) => cp + 5 <= sp,
            None => true,
        },
        wf_state(old(conv)@),
    ensures
        final(conv)@ == after_sauce_st(sauce_meta_st(old(conv)@, input@, sp as int,
            match comnt_pos {
                Some(cp) => Some(cp as int),
                None => None::<int>,
            }), input@, sp as int),
{
    let ghost s1 = conv@;
    let comnt_slice: Option<&[u8]> = match comnt_pos {
        Some(cp) => Some(slice_subrange(input, cp, sp)),
        None => None,
    };
    let tail = slice_subrange(input, sp, input.len());
    proof {
        assert(tail@ =~= input@.skip(sp as int));
    }
    match SauceRecord::parse(tail, comnt_slice) {
        Some(rec) => {
            let txt = rec.format_output();
            if !txt.as_str().is_empty() {
                conv.emit_char('\n');
                conv.emit_str(txt.as_str());
                proof {
                    lemma_emit_chars_pstate(emit_char_st(s1, '\n'), txt@);
                }
            }
        },
        None => {},
    }
    proof {
        assert(conv@ == sauce_meta_st(s1, input@, sp as int, match comnt_pos {
            Some(cp) => Some(cp as int),
            None => None::<int>,
        }));
        assert(wf_state(conv@));
    }
    let ghost s2 = conv@;
    if input.len() - sp > 128 {
        let after = sp + 128;
        let rem = slice_subrange(input, after, input.len());
        proof {
            assert(rem@ =~= input@.skip(after as int));
        }
        if any_content(rem) {
            conv.emit_char('\n');
            let rend: usize = match find_sub_pos(rem) {
                Some(q) => q,
                None => rem.len(),
            };
            proof {
                lemma_find_sub_range(rem@, 0);
                assert(rem@.take(0) =~= Seq::<u8>::empty());
            }
            let ghost s3 = conv@;
            let mut j: usize = 0;
            while j < rend
                invariant
                    0 <= j <= rend <= rem@.len(),
                    conv@ == process_bytes(s3, rem@.take(j as int)),
                    wf_state(conv@),
                decreases rend - j,
            {
                conv.process_byte(rem[j]);
                proof {
                    assert(rem@.take(j + 1).drop_last() =~= rem@.take(j as int));
                    assert(rem@.take(j + 1).last() == rem@[j as int]);
                }
                j = j + 1;
            }
        }
    }
    proof {
        assert(conv@ == after_sauce_st(s2, input@, sp as int));
    }
}

/// Convert in CP437 mode: process the content, then the metadata of a
/// trailing record, then whatever follows the record.
#[verifier::rlimit(60)]
fn run_bytes(input: &[u8], options: ConvertOptions) -> (r: String)
    requires
        !options.utf8_input,
    ensures
        r@ == convert_spec(input@, options.synchronet_ctrl_a, options.renegade_pipe, false),
{
    let mut conv = Converter::new(options);
    conv.output.append("<pre class=\"ansi\">");
    conv.open_tag();
    proof {
        assert(conv@ =~= start_state(options.synchronet_ctrl_a, options.renegade_pipe, false));
    }
    let ghost s_start = conv@;
    let positions = find_sauce_positions(input);
    let sauce_pos = positions.0;
    let comnt_pos = positions.1;
    let sub_pos = find_sub_pos(input);
    proof {
        lemma_find_sub_range(input@, 0);
        match find_sauce_mark(input@) {
            Some(sp) => {
                lemma_rfind_sauce_range(input@, input@.len() - 7);
                let lo = if sp >= comnt_lookback() { sp - comnt_lookback() } else { 0 };
                lemma_rfind_comnt_range(input@, lo, sp - 5);
            },
            None => {},
        }
    }
    let content_end: usize = match sub_pos {
        Some(i) => i,
        None => match comnt_pos {
            Some(i) => i,
            None => match sauce_pos {
                Some(i) => i,
                None => input.len(),
            },
        },
    };
    proof {
        assert(content_end as int == content_end_spec(input@));
        assert(content_end <= input@.len());
        assert(input@.take(0) =~= Seq::<u8>::empty());
    }
    let mut i: usize = 0;
    while i < content_end
        invariant
            0 <= i <= content_end <= input@.len(),
            conv@ == process_bytes(s_start, input@.take(i as int)),
            wf_state(conv@),
        decreases content_end - i,
    {
        conv.process_byte(input[i]);
        proof {
            assert(input@.take(i + 1).drop_last() =~= input@.take(i as int));
            assert(input@.take(i + 1).last() == input@[i as int]);
        }
        i = i + 1;
    }
    proof {
        assert(input@.take(content_end as int) =~= input@.take(content_end_spec(input@)));
    }
    match sauce_pos {
        Some(sp) => {
            handle_sauce(&mut conv, input, sp, comnt_pos);
            proof {
                assert(match comnt_pos {
                    Some(cp) => Some(cp as int),
                    None => None::<int>,
                } == find_positions_spec(input@).1);
                assert(conv@ == convert_content_st(s_start, input@));
            }
        },
        None => {
            proof {
                assert(conv@ == convert_content_st(s_start, input@));
            }
        },
    }
    conv.close_tag();
    conv.output.append("</pre>");
    proof {
        assert(conv.output@ =~= convert_spec(input@, options.synchronet_ctrl_a,
            options.renegade_pipe, false));
    }
    conv.output
}

/// The first SUB character of a decoded text.
fn find_sub_char(s: &str) -> (r: Option<usize>)
    ensures
        pos_eq(r, find_sub_char_from(s@, 0)),
{
    let n = s.unicode_len();
    let mut i: usize = 0;
    while i < n
        invariant
            0 <= i <= n == s@.len(),
            find_sub_char_from(s@, 0) == find_sub_char_from(s@, i as int),
        decreases n - i,
    {
        let c = s.get_char(i);
        if c == '\u{1a}' {
            return Some(i);
        }
        i = i + 1;
    }
    None
}

/// Emit the metadata of a record found at `sp`, then decode and process
/// the content after the record, in UTF-8 input mode.
#[verifier::rlimit(100)]
fn handle_sauce_utf8(conv: &mut Converter, input: &[u8], sp: usize, comnt_pos: Option<usize>)
    requires
        sp + 7 <= input@.len(),
        match comnt_pos {
            Some(cp) => cp + 5 <= sp,
            None => true,
        },
        wf_state(old(conv)@),
    ensures
        final(conv)@ == after_sauce_utf8_st(sauce_meta_st(old(conv)@, input@, sp as int,
            match comnt_pos {
                Some(cp) => Some(cp as int),
                None => None::<int>,
            }), input@, sp as int),
{
    let ghost s1 = conv@;
    let comnt_slice: Option<&[u8]> = match comnt_pos {
        Some(cp) => Some(slice_subrange(input, cp, sp)),
        None => None,
    };
    let tail = slice_subrange(input, sp, input.len());
    proof {
        assert(tail@ =~= input@.skip(sp as int));
    }
    match SauceRecord::parse(tail, comnt_slice) {
        Some(rec) => {
            let txt = rec.format_output();
            if !txt.as_str().is_empty() {
                conv.emit_char('\n');
                conv.emit_str(txt.as_str());
                proof {
                    lemma_emit_chars_pstate(emit_char_st(s1, '\n'), txt@);
                }
            }
        },
        None => {},
    }
    proof {
        assert(conv@ == sauce_meta_st(s1, input@, sp as int, match comnt_pos {
            Some(cp) => Some(cp as int),
            None => None::<int>,
        }));
        assert(wf_state(conv@));
    }
    let ghost s2 = conv@;
    if input.len() - sp > 128 {
        let after = sp + 128;
        let rem = slice_subrange(input, after, input.len());
        proof {
            assert(rem@ =~= input@.skip(after as int));
        }
        if any_content(rem) {
            conv.emit_char('\n');
            let rem_text = utf8_lossy(rem);
            let rend: usize = match find_sub_char(rem_text.as_str()) {
                Some(q) => q,
                None => rem_text.as_str().unicode_len(),
            };
            proof {
                lemma_find_sub_char_range(rem_text@, 0);
                assert(rem_text@.take(0) =~= Seq::<char>::empty());
            }
            let ghost s3 = conv@;
            let mut j: usize = 0;
            while j < rend
                invariant
                    0 <= j <= rend <= rem_text@.len(),
                    rem_text@ == utf8_lossy_chars(input@.skip(sp + 128)),
                    conv@ == process_chars(s3, rem_text@.take(j as int)),
                    wf_state(conv@),
                decreases rend - j,
            {
                let c = rem_text.as_str().get_char(j);
                conv.process_utf8_char(c);
                proof {
                    assert(rem_text@.take(j + 1).drop_last() =~= rem_text@.take(j as int));
                    assert(rem_text@.take(j + 1).last() == rem_text@[j as int]);
                }
                j = j + 1;
            }
        }
    }
    proof {
        assert(conv@ == after_sauce_utf8_st(s2, input@, sp as int));
    }
}

/// A found SUB character lies within the text.
proof fn lemma_find_sub_char_range(cs: Seq<char>, i: int)
    ensures
        match find_sub_char_from(cs, i) {
            Some(j) => i <= j < cs.len(),
            None => true,
        },
    decreases cs.len() - i,
{
    if 0 <= i && i < cs.len() && cs[i] != '\u{1a}' {
        lemma_find_sub_char_range(cs, i + 1);
    }
}

/// Convert in UTF-8 input mode: the content is decoded leniently and fed
/// through the character-driven state machine; record location and
/// decoding still work on the raw bytes.
#[verifier::rlimit(60)]
fn run_utf8(input: &[u8], options: ConvertOptions) -> (r: String)
    requires
        options.utf8_input,
    ensures
        r@ == convert_spec(input@, options.synchronet_ctrl_a, options.renegade_pipe, true),
{
    let mut conv = Converter::new(options);
    conv.output.append("<pre class=\"ansi\">");
    conv.open_tag();
    proof {
        assert(conv@ =~= start_state(options.synchronet_ctrl_a, options.renegade_pipe, true));
    }
    let ghost s_start = conv@;
    let positions = find_sauce_positions(input);
    let sauce_pos = positions.0;
    let comnt_pos = positions.1;
    let sub_pos = find_sub_pos(input);
    proof {
        lemma_find_sub_range(input@, 0);
        match find_sauce_mark(input@) {
            Some(sp) => {
                lemma_rfind_sauce_range(input@, input@.len() - 7);
                let lo = if sp >= comnt_lookback() { sp - comnt_lookback() } else { 0 };
                lemma_rfind_comnt_range(input@, lo, sp - 5);
            },
            None => {},
        }
    }
    let content_end: usize = match sub_pos {
        Some(i) => i,
        None => match comnt_pos {
            Some(i) => i,
            None => match sauce_pos {
                Some(i) => i,
                None => input.len(),
            },
        },
    };
    proof {
        assert(content_end as int == content_end_spec(input@));
        assert(content_end <= input@.len());
    }
    let content = utf8_lossy(slice_subrange(input, 0, content_end));
    proof {
        assert(input@.subrange(0, content_end as int) =~= input@.take(content_end_spec(input@)));
        assert(content@.take(0) =~= Seq::<char>::empty());
    }
    let n = content.as_str().unicode_len();
    let mut i: usize = 0;
    while i < n
        invariant
            0 <= i <= n == content@.len(),
            content@ == utf8_lossy_chars(input@.take(content_end_spec(input@))),
            conv@ == process_chars(s_start, content@.take(i as int)),
            wf_state(conv@),
        decreases n - i,
    {
        let c = content.as_str().get_char(i);
        conv.process_utf8_char(c);
        proof {
            assert(content@.take(i + 1).drop_last() =~= content@.take(i as int));
            assert(content@.take(i + 1).last() == content@[i as int]);
        }
        i = i + 1;
    }
    proof {
        assert(content@.take(i as int) =~= content@);
    }
    match sauce_pos {
        Some(sp) => {
            handle_sauce_utf8(&mut conv, input, sp, comnt_pos);
            proof {
                assert(match comnt_pos {
                    Some(cp) => Some(cp as int),
                    None => None::<int>,
                } == find_positions_spec(input@).1);
                assert(conv@ == convert_content_utf8_st(s_start, input@));
            }
        },
        None => {
            proof {
                assert(conv@ == convert_content_utf8_st(s_start, input@));
            }
        },
    }
    conv.close_tag();
    conv.output.append("</pre>");
    proof {
        assert(conv.output@ =~= convert_spec(input@, options.synchronet_ctrl_a,
            options.renegade_pipe, true));
    }
    conv.output
}

/// Convert a CP437 byte buffer with ANSI/BBS escape sequences to an HTML
/// fragment, under the given options.
pub fn convert_with_options(input: &[u8], options: &ConvertOptions) -> (r: String)
    ensures
        r@ == convert_spec(input@, options.synchronet_ctrl_a, options.renegade_pipe,
            options.utf8_input),
{
    if options.utf8_input {
        run_utf8(input, *options)
    } else {
        run_bytes(input, *options)
    }
}

/// Convert a CP437 byte buffer with ANSI escape sequences to an HTML
/// fragment, with no BBS color codes recognized.
pub fn convert(input: &[u8]) -> (r: String)
    ensures
        r@ == convert_spec(input@, false, false, false),
{
    let options = ConvertOptions { synchronet_ctrl_a: false, renegade_pipe: false,
        utf8_input: false };
    convert_with_options(input, &options)
}

} // verus!
