//! Global properties of the converter, stated over the model and proved
//! for every input: tag balance, totality of HTML escaping, the soft-wrap
//! bound, plain-text behavior, reset, and idempotence of the intensity
//! toggles.

use vstd::prelude::*;
use crate::color::{ColorMode, ExtendedColor, hex_digit, ext_color_text, open_tag_text,
    close_tag_text};
use crate::numfmt::{dec_chars, lemma_dec_chars_digits};
use crate::state::{ConvState, ParseState, emit_char_st, emit_chars_st, emit_spaces_st,
    set_colors_st, switch_color_st, sgr_st, csi_st, sync_st, renegade_st, normal_st, byte_st,
    char_normal_st, char_st, process_bytes, process_chars, escape_char, is_special,
    wrap_column};

verus! {

/// The number of tag openers in a text: a `<` not followed by `/`.
pub open spec fn opens(s: Seq<char>) -> nat
    decreases s.len(),
{
    if s.len() == 0 {
        0
    } else {
        (if s[0] == '<' && !(s.len() > 1 && s[1] == '/') { 1nat } else { 0nat })
            + opens(s.drop_first())
    }
}

/// The number of tag closers in a text: a `<` followed by `/`.
pub open spec fn closes(s: Seq<char>) -> nat
    decreases s.len(),
{
    if s.len() == 0 {
        0
    } else {
        (if s[0] == '<' && s.len() > 1 && s[1] == '/' { 1nat } else { 0nat })
            + closes(s.drop_first())
    }
}

/// How often a character occurs in a text.
pub open spec fn count_char(s: Seq<char>, c: char) -> nat
    decreases s.len(),
{
    if s.len() == 0 {
        0
    } else {
        (if s[0] == c { 1nat } else { 0nat }) + count_char(s.drop_first(), c)
    }
}

/// How often a byte occurs in a buffer.
pub open spec fn count_byte(s: Seq<u8>, b: u8) -> nat
    decreases s.len(),
{
    if s.len() == 0 {
        0
    } else {
        (if s[0] == b { 1nat } else { 0nat }) + count_byte(s.drop_first(), b)
    }
}

/// A text that does not end in the middle of starting a tag.
pub open spec fn tail_ok(s: Seq<char>) -> bool {
    s.len() == 0 || s.last() != '<'
}

pub open spec fn no_lt(s: Seq<char>) -> bool {
    forall|i: int| 0 <= i < s.len() ==> s[i] != '<'
}

pub open spec fn no_nl(s: Seq<char>) -> bool {
    forall|i: int| 0 <= i < s.len() ==> s[i] != '\n'
}

/// Tag counting distributes over concatenation when the left part does
/// not end in `<`.
proof fn lemma_counts_concat(a: Seq<char>, b: Seq<char>)
    requires
        tail_ok(a),
    ensures
        opens(a + b) == opens(a) + opens(b),
        closes(a + b) == closes(a) + closes(b),
    decreases a.len(),
{
    if a.len() == 0 {
        assert(a + b =~= b);
    } else {
        let t = a.drop_first();
        assert((a + b).drop_first() =~= t + b);
        assert(tail_ok(t)) by {
            if t.len() > 0 {
                assert(t.last() == a.last());
            }
        }
        lemma_counts_concat(t, b);
        if a.len() == 1 {
            assert(a[0] == a.last());
        }
    }
}

/// Character counting distributes over concatenation.
proof fn lemma_count_concat(a: Seq<char>, b: Seq<char>, c: char)
    ensures
        count_char(a + b, c) == count_char(a, c) + count_char(b, c),
    decreases a.len(),
{
    if a.len() == 0 {
        assert(a + b =~= b);
    } else {
        assert((a + b).drop_first() =~= a.drop_first() + b);
        lemma_count_concat(a.drop_first(), b, c);
    }
}

/// A text without `<` has no tags at all.
proof fn lemma_no_lt_counts(s: Seq<char>)
    requires
        no_lt(s),
    ensures
        opens(s) == 0,
        closes(s) == 0,
        tail_ok(s),
    decreases s.len(),
{
    if s.len() > 0 {
        let t = s.drop_first();
        assert(no_lt(t)) by {
            assert(forall|i: int| 0 <= i < t.len() ==> t[i] == s[i + 1]);
        }
        lemma_no_lt_counts(t);
    }
}

/// A text without the counted character counts zero.
proof fn lemma_no_occurs_count(s: Seq<char>, c: char)
    requires
        forall|i: int| 0 <= i < s.len() ==> s[i] != c,
    ensures
        count_char(s, c) == 0,
    decreases s.len(),
{
    if s.len() > 0 {
        let t = s.drop_first();
        assert(forall|i: int| 0 <= i < t.len() ==> t[i] == s[i + 1]);
        lemma_no_occurs_count(t, c);
    }
}

/// A text of the shape `<` + tag body: exactly one opener, no closer.
proof fn lemma_opener_counts(s: Seq<char>)
    requires
        s.len() > 0,
        s[0] == '<',
        s.len() > 1 ==> s[1] != '/',
        forall|i: int| 1 <= i < s.len() ==> s[i] != '<',
    ensures
        opens(s) == 1,
        closes(s) == 0,
    decreases s.len(),
{
    let t = s.drop_first();
    assert(no_lt(t)) by {
        assert(forall|i: int| 0 <= i < t.len() ==> t[i] == s[i + 1]);
    }
    lemma_no_lt_counts(t);
}

/// A text of the shape `</` + tag body: exactly one closer, no opener.
proof fn lemma_closer_counts(s: Seq<char>)
    requires
        s.len() > 1,
        s[0] == '<',
        s[1] == '/',
        forall|i: int| 1 <= i < s.len() ==> s[i] != '<',
    ensures
        opens(s) == 0,
        closes(s) == 1,
{
    let t = s.drop_first();
    assert(no_lt(t)) by {
        assert(forall|i: int| 0 <= i < t.len() ==> t[i] == s[i + 1]);
    }
    lemma_no_lt_counts(t);
}

/// The entity or literal form of any character contains no `<`, and no
/// newline unless the character is the newline itself.
proof fn lemma_escape_chunk(ch: char)
    ensures
        no_lt(escape_char(ch)),
        escape_char(ch).len() > 0,
        ch != '\n' ==> no_nl(escape_char(ch)),
{
    reveal_strlit("&lt;");
    reveal_strlit("&gt;");
    reveal_strlit("&amp;");
    reveal_strlit("&quot;");
    reveal_strlit("&apos;");
    if ch == '<' {
        assert(escape_char(ch) =~= seq!['&', 'l', 't', ';']);
    } else if ch == '>' {
        assert(escape_char(ch) =~= seq!['&', 'g', 't', ';']);
    } else if ch == '&' {
        assert(escape_char(ch) =~= seq!['&', 'a', 'm', 'p', ';']);
    } else if ch == '"' {
        assert(escape_char(ch) =~= seq!['&', 'q', 'u', 'o', 't', ';']);
    } else if ch == '\'' {
        assert(escape_char(ch) =~= seq!['&', 'a', 'p', 'o', 's', ';']);
    } else {
        assert(escape_char(ch) =~= seq![ch]);
    }
}

/// Hex digits are ordinary characters.
proof fn lemma_hex_digit_plain(n: u8)
    ensures
        hex_digit(n) != '<',
        hex_digit(n) != '/',
        hex_digit(n) != '\n',
{
}

/// Decimal texts consist of digits only.
proof fn lemma_dec_chars_plain(n: nat)
    ensures
        no_lt(dec_chars(n)),
        no_nl(dec_chars(n)),
        dec_chars(n).len() > 0,
{
    lemma_dec_chars_digits(n);
    assert forall|i: int| 0 <= i < dec_chars(n).len() implies dec_chars(n)[i] != '<'
        && dec_chars(n)[i] != '\n' by {
        assert('0' <= dec_chars(n)[i] && dec_chars(n)[i] <= '9');
    }
}

/// Extended-color attribute values contain neither `<` nor newlines.
proof fn lemma_ext_color_chunk(c: ExtendedColor, is_fg: bool)
    ensures
        no_lt(ext_color_text(c, is_fg)),
        no_nl(ext_color_text(c, is_fg)),
{
    reveal_strlit("fg-");
    reveal_strlit("bg-");
    reveal_strlit(",");
    match c {
        ExtendedColor::Cga(v) => {
            lemma_hex_digit_plain(v);
            if is_fg {
                assert(ext_color_text(c, is_fg) =~= seq!['f', 'g', '-', hex_digit(v)]);
            } else {
                assert(ext_color_text(c, is_fg) =~= seq!['b', 'g', '-', hex_digit(v)]);
            }
        },
        ExtendedColor::Palette(n) => {
            lemma_dec_chars_plain(n as nat);
        },
        ExtendedColor::Rgb(r, g, b) => {
            lemma_dec_chars_plain(r as nat);
            lemma_dec_chars_plain(g as nat);
            lemma_dec_chars_plain(b as nat);
            assert(","@ =~= seq![',']);
        },
    }
}

/// An opening tag counts one opener and no closer, ends in `>`, and holds
/// no newline.
proof fn lemma_open_tag_chunk(mode: ColorMode, bg: u8, fg: u8, ebg: ExtendedColor,
    efg: ExtendedColor)
    ensures
        opens(open_tag_text(mode, bg, fg, ebg, efg)) == 1,
        closes(open_tag_text(mode, bg, fg, ebg, efg)) == 0,
        tail_ok(open_tag_text(mode, bg, fg, ebg, efg)),
        no_nl(open_tag_text(mode, bg, fg, ebg, efg)),
        open_tag_text(mode, bg, fg, ebg, efg).len() > 0,
{
    let t = open_tag_text(mode, bg, fg, ebg, efg);
    lemma_hex_digit_plain(bg);
    lemma_hex_digit_plain(fg);
    lemma_ext_color_chunk(efg, true);
    lemma_ext_color_chunk(ebg, false);
    match mode {
        ColorMode::Cga => {
            reveal_strlit("<ans-");
            reveal_strlit(">");
            assert("<ans-"@ =~= seq!['<', 'a', 'n', 's', '-']);
            assert(">"@ =~= seq!['>']);
            assert(t =~= seq!['<', 'a', 'n', 's', '-', hex_digit(bg), hex_digit(fg), '>']);
            lemma_opener_counts(t);
        },
        ColorMode::Color256 => {
            reveal_strlit("<ans-256 fg=\"");
            reveal_strlit("\" bg=\"");
            reveal_strlit("\">");
            assert("<ans-256 fg=\""@ =~= seq!['<', 'a', 'n', 's', '-', '2', '5', '6', ' ', 'f',
                'g', '=', '"']);
            assert("\" bg=\""@ =~= seq!['"', ' ', 'b', 'g', '=', '"']);
            assert("\">"@ =~= seq!['"', '>']);
            lemma_opener_counts(t);
        },
        ColorMode::Rgb => {
            reveal_strlit("<ans-rgb fg=\"");
            reveal_strlit("\" bg=\"");
            reveal_strlit("\">");
            assert("<ans-rgb fg=\""@ =~= seq!['<', 'a', 'n', 's', '-', 'r', 'g', 'b', ' ', 'f',
                'g', '=', '"']);
            assert("\" bg=\""@ =~= seq!['"', ' ', 'b', 'g', '=', '"']);
            assert("\">"@ =~= seq!['"', '>']);
            lemma_opener_counts(t);
        },
    }
}

/// A closing tag counts one closer and no opener, ends in `>`, and holds
/// no newline.
proof fn lemma_close_tag_chunk(mode: ColorMode, bg: u8, fg: u8)
    ensures
        opens(close_tag_text(mode, bg, fg)) == 0,
        closes(close_tag_text(mode, bg, fg)) == 1,
        tail_ok(close_tag_text(mode, bg, fg)),
        no_nl(close_tag_text(mode, bg, fg)),
        close_tag_text(mode, bg, fg).len() > 0,
{
    let t = close_tag_text(mode, bg, fg);
    lemma_hex_digit_plain(bg);
    lemma_hex_digit_plain(fg);
    match mode {
        ColorMode::Cga => {
            reveal_strlit("</ans-");
            reveal_strlit(">");
            assert("</ans-"@ =~= seq!['<', '/', 'a', 'n', 's', '-']);
            assert(">"@ =~= seq!['>']);
            assert(t =~= seq!['<', '/', 'a', 'n', 's', '-', hex_digit(bg), hex_digit(fg), '>']);
            lemma_closer_counts(t);
        },
        ColorMode::Color256 => {
            reveal_strlit("</ans-256>");
            assert(t =~= seq!['<', '/', 'a', 'n', 's', '-', '2', '5', '6', '>']);
            lemma_closer_counts(t);
        },
        ColorMode::Rgb => {
            reveal_strlit("</ans-rgb>");
            assert(t =~= seq!['<', '/', 'a', 'n', 's', '-', 'r', 'g', 'b', '>']);
            lemma_closer_counts(t);
        },
    }
}

/// The renderer's running invariant: the output never ends in the middle
/// of starting a tag, and the column never passes the wrap width.
pub open spec fn render_inv(s: ConvState) -> bool {
    tail_ok(s.output) && s.column <= wrap_column()
}

/// A step keeps the balance when it adds as many openers as closers.
pub open spec fn balance_kept(s1: ConvState, s2: ConvState) -> bool {
    opens(s2.output) + closes(s1.output) == closes(s2.output) + opens(s1.output)
}

proof fn lemma_emit_char_walk(s: ConvState, ch: char)
    requires
        render_inv(s),
    ensures
        render_inv(emit_char_st(s, ch)),
        balance_kept(s, emit_char_st(s, ch)),
{
    lemma_escape_chunk(ch);
    if !s.save && ch != '\r' {
        let s1 = if s.ansi && s.column >= wrap_column() && ch != '\n' {
            ConvState { output: s.output + seq!['\n'], column: 0, ..s }
        } else {
            s
        };
        assert(no_lt(seq!['\n']));
        lemma_no_lt_counts(seq!['\n']);
        lemma_counts_concat(s.output, seq!['\n']);
        assert(tail_ok(s1.output));
        if is_special(ch) || ch != '\n' {
            lemma_no_lt_counts(escape_char(ch));
            lemma_counts_concat(s1.output, escape_char(ch));
        } else {
            lemma_counts_concat(s1.output, seq!['\n']);
        }
    }
}

proof fn lemma_emit_chars_walk(s: ConvState, cs: Seq<char>)
    requires
        render_inv(s),
    ensures
        render_inv(emit_chars_st(s, cs)),
        balance_kept(s, emit_chars_st(s, cs)),
    decreases cs.len(),
{
    if cs.len() > 0 {
        lemma_emit_chars_walk(s, cs.drop_last());
        lemma_emit_char_walk(emit_chars_st(s, cs.drop_last()), cs.last());
    }
}

proof fn lemma_emit_spaces_walk(s: ConvState, n: nat)
    requires
        render_inv(s),
    ensures
        render_inv(emit_spaces_st(s, n)),
        balance_kept(s, emit_spaces_st(s, n)),
    decreases n,
{
    if n > 0 {
        lemma_emit_spaces_walk(s, (n - 1) as nat);
        lemma_emit_char_walk(emit_spaces_st(s, (n - 1) as nat), ' ');
    }
}

proof fn lemma_set_colors_walk(s: ConvState, nm: ColorMode, nbg: u8, nfg: u8,
    nebg: ExtendedColor, nefg: ExtendedColor)
    requires
        render_inv(s),
    ensures
        render_inv(set_colors_st(s, nm, nbg, nfg, nebg, nefg)),
        balance_kept(s, set_colors_st(s, nm, nbg, nfg, nebg, nefg)),
{
    lemma_close_tag_chunk(s.mode, s.bg, s.fg);
    lemma_open_tag_chunk(nm, nbg, nfg, nebg, nefg);
    lemma_counts_concat(s.output, close_tag_text(s.mode, s.bg, s.fg));
    lemma_counts_concat(s.output + close_tag_text(s.mode, s.bg, s.fg),
        open_tag_text(nm, nbg, nfg, nebg, nefg));
    assert(s.output + close_tag_text(s.mode, s.bg, s.fg) + open_tag_text(nm, nbg, nfg, nebg,
        nefg) =~= (s.output + close_tag_text(s.mode, s.bg, s.fg)) + open_tag_text(nm, nbg,
        nfg, nebg, nefg));
}

proof fn lemma_sgr_walk(s: ConvState, params: Seq<u8>)
    requires
        render_inv(s),
    ensures
        render_inv(sgr_st(s, params)),
        balance_kept(s, sgr_st(s, params)),
{
    let ps = if params.len() == 0 { seq![0u16] } else { crate::params::parse_params(params) };
    let c = crate::state::sgr_apply(crate::state::sgr_of(s), ps, 0);
    lemma_set_colors_walk(s, c.mode, c.bg, c.fg, c.ext_bg, c.ext_fg);
}

proof fn lemma_csi_walk(s: ConvState, params: Seq<u8>, cmd: char)
    requires
        render_inv(s),
    ensures
        render_inv(csi_st(s, params, cmd)),
        balance_kept(s, csi_st(s, params, cmd)),
{
    let s1 = ConvState { ansi: true, ..s };
    if cmd == 'm' {
        lemma_sgr_walk(s1, params);
    } else if cmd == 'J' {
        lemma_emit_char_walk(s1, '\n');
        lemma_emit_char_walk(emit_char_st(s1, '\n'), '\n');
        lemma_emit_char_walk(emit_char_st(emit_char_st(s1, '\n'), '\n'), '\n');
    } else if cmd == 'C' {
        let n = match crate::params::parse_capped_spec(params, 0xFFFF_FFFFu32) {
            Some(v) => if v < 1 { 1u32 } else { v },
            None => 1u32,
        };
        lemma_emit_spaces_walk(s1, n as nat);
    }
}

proof fn lemma_sync_walk(s: ConvState, code: u8)
    requires
        render_inv(s),
    ensures
        render_inv(sync_st(s, code)),
        balance_kept(s, sync_st(s, code)),
{
    let s1 = ConvState { ansi: true, ..s };
    let nc = crate::state::sync_colors(code, s1.fg, s1.bg);
    lemma_set_colors_walk(s1, ColorMode::Cga, nc.1, nc.0, ExtendedColor::Cga(nc.1),
        ExtendedColor::Cga(nc.0));
}

proof fn lemma_renegade_walk(s: ConvState, code: u8)
    requires
        render_inv(s),
    ensures
        render_inv(renegade_st(s, code)),
        balance_kept(s, renegade_st(s, code)),
{
    let s1 = ConvState { ansi: true, ..s };
    let nc = crate::state::renegade_colors(code, s1.fg, s1.bg);
    lemma_set_colors_walk(s1, ColorMode::Cga, nc.1, nc.0, ExtendedColor::Cga(nc.1),
        ExtendedColor::Cga(nc.0));
}

proof fn lemma_normal_walk(s: ConvState, b: u8)
    requires
        render_inv(s),
    ensures
        render_inv(normal_st(s, b)),
        balance_kept(s, normal_st(s, b)),
{
    if b == 0x0A {
        lemma_emit_char_walk(s, '\n');
    } else if !(b == 0x1B || (s.sync && b == 0x01) || (s.pipe && b == 0x7C) || b == 0x0D) {
        lemma_emit_char_walk(s, crate::cp437::cp437_char(b));
    }
}

proof fn lemma_byte_walk(s: ConvState, b: u8)
    requires
        render_inv(s),
    ensures
        render_inv(byte_st(s, b)),
        balance_kept(s, byte_st(s, b)),
{
    match s.pstate {
        ParseState::Normal => {
            lemma_normal_walk(s, b);
        },
        ParseState::Escape => {
        },
        ParseState::Csi => {
            if (0x30 <= b && b <= 0x39) || b == 0x3B {
            } else if 0x40 <= b && b <= 0x7E {
                lemma_csi_walk(ConvState { params: Seq::empty(), ..s }, s.params,
                    crate::cp437::cp437_char(b));
            }
        },
        ParseState::SynchronetCtrlA => {
            lemma_sync_walk(s, b);
        },
        ParseState::RenegadePipe1 => {
            if 0x30 <= b && b <= 0x39 {
            } else if b == 0x7C {
                lemma_emit_char_walk(s, '|');
            } else {
                lemma_emit_char_walk(s, '|');
                lemma_normal_walk(ConvState { pstate: ParseState::Normal,
                    ..emit_char_st(s, '|') }, b);
            }
        },
        ParseState::RenegadePipe2(d1) => {
            if 0x30 <= b && b <= 0x39 {
                let code = ((d1 * 10 + (b - 0x30)) as int % 256) as u8;
                if code <= 31 {
                    lemma_renegade_walk(s, code);
                }
            } else {
                lemma_emit_char_walk(s, '|');
                lemma_emit_char_walk(emit_char_st(s, '|'),
                    crate::cp437::cp437_char(((0x30 + d1) as int % 256) as u8));
                let s1 = emit_char_st(emit_char_st(s, '|'),
                    crate::cp437::cp437_char(((0x30 + d1) as int % 256) as u8));
                lemma_normal_walk(ConvState { pstate: ParseState::Normal, ..s1 }, b);
            }
        },
    }
}

proof fn lemma_char_normal_walk(s: ConvState, c: char)
    requires
        render_inv(s),
    ensures
        render_inv(char_normal_st(s, c)),
        balance_kept(s, char_normal_st(s, c)),
{
    if c == '\n' {
        lemma_emit_char_walk(s, '\n');
    } else if !(c == '\u{1b}' || (s.sync && c == '\u{1}') || (s.pipe && c == '|')
        || c == '\r') {
        if (c as u32) < 0x20 {
            lemma_emit_char_walk(s, crate::cp437::cp437_char((c as u32) as u8));
        } else {
            lemma_emit_char_walk(s, c);
        }
    }
}

proof fn lemma_char_walk(s: ConvState, c: char)
    requires
        render_inv(s),
    ensures
        render_inv(char_st(s, c)),
        balance_kept(s, char_st(s, c)),
{
    match s.pstate {
        ParseState::Normal => {
            lemma_char_normal_walk(s, c);
        },
        ParseState::Escape => {
        },
        ParseState::Csi => {
            if ('0' <= c && c <= '9') || c == ';' {
            } else if 0x40 <= (c as u32) && (c as u32) <= 0x7E {
                lemma_csi_walk(ConvState { params: Seq::empty(), ..s }, s.params, c);
            }
        },
        ParseState::SynchronetCtrlA => {
            if (c as u32) <= 0xFF {
                lemma_sync_walk(s, (c as u32) as u8);
            }
        },
        ParseState::RenegadePipe1 => {
            if '0' <= c && c <= '9' {
            } else if c == '|' {
                lemma_emit_char_walk(s, '|');
            } else {
                lemma_emit_char_walk(s, '|');
                lemma_char_normal_walk(ConvState { pstate: ParseState::Normal,
                    ..emit_char_st(s, '|') }, c);
            }
        },
        ParseState::RenegadePipe2(d1) => {
            if '0' <= c && c <= '9' {
                let code = ((d1 * 10) as int + ((c as u32) - 0x30) as int) % 256;
                if code <= 31 {
                    lemma_renegade_walk(s, code as u8);
                }
            } else {
                lemma_emit_char_walk(s, '|');
                lemma_emit_char_walk(emit_char_st(s, '|'),
                    crate::cp437::cp437_char(((0x30 + d1) as int % 256) as u8));
                let s1 = emit_char_st(emit_char_st(s, '|'),
                    crate::cp437::cp437_char(((0x30 + d1) as int % 256) as u8));
                lemma_char_normal_walk(ConvState { pstate: ParseState::Normal, ..s1 }, c);
            }
        },
    }
}

proof fn lemma_process_bytes_walk(s: ConvState, bytes: Seq<u8>)
    requires
        render_inv(s),
    ensures
        render_inv(process_bytes(s, bytes)),
        balance_kept(s, process_bytes(s, bytes)),
    decreases bytes.len(),
{
    if bytes.len() > 0 {
        lemma_process_bytes_walk(s, bytes.drop_last());
        lemma_byte_walk(process_bytes(s, bytes.drop_last()), bytes.last());
    }
}

proof fn lemma_process_chars_walk(s: ConvState, cs: Seq<char>)
    requires
        render_inv(s),
    ensures
        render_inv(process_chars(s, cs)),
        balance_kept(s, process_chars(s, cs)),
    decreases cs.len(),
{
    if cs.len() > 0 {
        lemma_process_chars_walk(s, cs.drop_last());
        lemma_char_walk(process_chars(s, cs.drop_last()), cs.last());
    }
}

proof fn lemma_sauce_meta_walk(s: ConvState, input: Seq<u8>, sp: int, comnt: Option<int>)
    requires
        render_inv(s),
    ensures
        render_inv(crate::convert::sauce_meta_st(s, input, sp, comnt)),
        balance_kept(s, crate::convert::sauce_meta_st(s, input, sp, comnt)),
{
    let cbytes = match comnt {
        Some(cp) => Some(input.subrange(cp, sp)),
        None => None::<Seq<u8>>,
    };
    match crate::sauce::parse_sauce_spec(input.skip(sp), cbytes) {
        Some(r) => {
            if crate::sauce::format_sauce(r).len() > 0 {
                lemma_emit_char_walk(s, '\n');
                lemma_emit_chars_walk(emit_char_st(s, '\n'), crate::sauce::format_sauce(r));
            }
        },
        None => {},
    }
}

proof fn lemma_after_sauce_walk(s: ConvState, input: Seq<u8>, sp: int)
    requires
        render_inv(s),
    ensures
        render_inv(crate::convert::after_sauce_st(s, input, sp)),
        balance_kept(s, crate::convert::after_sauce_st(s, input, sp)),
        render_inv(crate::convert::after_sauce_utf8_st(s, input, sp)),
        balance_kept(s, crate::convert::after_sauce_utf8_st(s, input, sp)),
{
    let after = sp + 128;
    let rem = input.skip(after);
    if after < input.len() && (exists|k: int| 0 <= k < rem.len() && rem[k] != 0
        && rem[k] != 0x1A) {
        lemma_emit_char_walk(s, '\n');
        let rend = match crate::sauce::find_sub(rem) {
            Some(q) => q,
            None => rem.len() as int,
        };
        lemma_process_bytes_walk(emit_char_st(s, '\n'), rem.take(rend));
        let cs = crate::text::utf8_lossy_chars(rem);
        let crend = match crate::convert::find_sub_char_from(cs, 0) {
            Some(q) => q,
            None => cs.len() as int,
        };
        lemma_process_chars_walk(emit_char_st(s, '\n'), cs.take(crend));
    }
}

proof fn lemma_content_walk(s0: ConvState, input: Seq<u8>)
    requires
        render_inv(s0),
    ensures
        render_inv(crate::convert::convert_content_st(s0, input)),
        balance_kept(s0, crate::convert::convert_content_st(s0, input)),
        render_inv(crate::convert::convert_content_utf8_st(s0, input)),
        balance_kept(s0, crate::convert::convert_content_utf8_st(s0, input)),
{
    let cend = crate::convert::content_end_spec(input);
    let s1 = process_bytes(s0, input.take(cend));
    lemma_process_bytes_walk(s0, input.take(cend));
    let t1 = process_chars(s0, crate::text::utf8_lossy_chars(input.take(cend)));
    lemma_process_chars_walk(s0, crate::text::utf8_lossy_chars(input.take(cend)));
    match crate::sauce::find_positions_spec(input).0 {
        Some(sp) => {
            let comnt = crate::sauce::find_positions_spec(input).1;
            lemma_sauce_meta_walk(s1, input, sp, comnt);
            lemma_after_sauce_walk(crate::convert::sauce_meta_st(s1, input, sp, comnt),
                input, sp);
            lemma_sauce_meta_walk(t1, input, sp, comnt);
            lemma_after_sauce_walk(crate::convert::sauce_meta_st(t1, input, sp, comnt),
                input, sp);
        },
        None => {},
    }
}

/// The frame opener holds exactly one opening tag and no newline.
proof fn lemma_pre_open_chunk()
    ensures
        opens("<pre class=\"ansi\">"@) == 1,
        closes("<pre class=\"ansi\">"@) == 0,
        tail_ok("<pre class=\"ansi\">"@),
        no_nl("<pre class=\"ansi\">"@),
{
    reveal_strlit("<pre class=\"ansi\">");
    assert("<pre class=\"ansi\">"@ =~= seq!['<', 'p', 'r', 'e', ' ', 'c', 'l', 'a', 's', 's',
        '=', '"', 'a', 'n', 's', 'i', '"', '>']);
    lemma_opener_counts("<pre class=\"ansi\">"@);
}

/// The frame closer holds exactly one closing tag and no newline.
proof fn lemma_pre_close_chunk()
    ensures
        opens("</pre>"@) == 0,
        closes("</pre>"@) == 1,
        tail_ok("</pre>"@),
        no_nl("</pre>"@),
        "</pre>"@.len() > 0,
{
    reveal_strlit("</pre>");
    assert("</pre>"@ =~= seq!['<', '/', 'p', 'r', 'e', '>']);
    lemma_closer_counts("</pre>"@);
}

/// Tag balance: in every conversion, whatever the input and options, the
/// number of opening tags in the output equals the number of closing
/// tags — the frame, the initial color tag, and every internal color
/// switch close exactly what they open.
pub proof fn lemma_tag_balance(input: Seq<u8>, sync: bool, pipe: bool, utf8: bool)
    ensures
        opens(crate::convert::convert_spec(input, sync, pipe, utf8))
            == closes(crate::convert::convert_spec(input, sync, pipe, utf8)),
{
    let s1 = crate::convert::start_state(sync, pipe, utf8);
    lemma_pre_open_chunk();
    lemma_open_tag_chunk(ColorMode::Cga, 0, 7, ExtendedColor::Cga(0), ExtendedColor::Cga(7));
    lemma_counts_concat("<pre class=\"ansi\">"@, open_tag_text(ColorMode::Cga, 0, 7,
        ExtendedColor::Cga(0), ExtendedColor::Cga(7)));
    assert(render_inv(s1)) by {
        let a = "<pre class=\"ansi\">"@;
        let b = open_tag_text(ColorMode::Cga, 0, 7, ExtendedColor::Cga(0),
            ExtendedColor::Cga(7));
        assert((a + b).last() == b.last());
    }
    assert(opens(s1.output) == 2 && closes(s1.output) == 0);
    let s2 = if utf8 {
        crate::convert::convert_content_utf8_st(s1, input)
    } else {
        crate::convert::convert_content_st(s1, input)
    };
    lemma_content_walk(s1, input);
    let cl = close_tag_text(s2.mode, s2.bg, s2.fg);
    lemma_close_tag_chunk(s2.mode, s2.bg, s2.fg);
    lemma_counts_concat(s2.output, cl);
    lemma_pre_close_chunk();
    lemma_counts_concat(s2.output + cl, "</pre>"@);
    assert(tail_ok(s2.output + cl)) by {
        assert((s2.output + cl).last() == cl.last());
    }
    assert(crate::convert::convert_spec(input, sync, pipe, utf8) =~= (s2.output + cl)
        + "</pre>"@);
}

/// The CP437 table maps no byte to a newline; newlines in the output come
/// only from newline bytes, clear-screen, wraps, and metadata lines.
proof fn lemma_cp437_no_newline(b: u8)
    ensures
        crate::cp437::cp437_char(b) != '\n',
{
}

/// Emitting one character with the escape-seen flag off appends a newline
/// exactly when the character is the newline, and touches no other flag.
proof fn lemma_emit_plain(s: ConvState, ch: char)
    requires
        !s.ansi,
        !s.save,
    ensures
        ({
            let s2 = emit_char_st(s, ch);
            &&& count_char(s2.output, '\n') == count_char(s.output, '\n')
                + (if ch == '\n' { 1int } else { 0int })
            &&& s2.ansi == s.ansi
            &&& s2.save == s.save
            &&& s2.pstate == s.pstate
            &&& s2.sync == s.sync
            &&& s2.pipe == s.pipe
            &&& s2.utf8 == s.utf8
        }),
{
    lemma_escape_chunk(ch);
    if is_special(ch) {
        lemma_count_concat(s.output, escape_char(ch), '\n');
        lemma_no_occurs_count(escape_char(ch), '\n');
    } else if ch == '\n' {
        lemma_count_concat(s.output, seq!['\n'], '\n');
        assert(count_char(Seq::<char>::empty(), '\n') == 0);
        assert(seq!['\n'].drop_first() =~= Seq::<char>::empty());
        assert(count_char(seq!['\n'], '\n') == 1);
    } else if ch == '\r' {
    } else {
        lemma_count_concat(s.output, seq![ch], '\n');
        lemma_no_occurs_count(seq![ch], '\n');
    }
}

/// One byte of plain text: without escape introducers or enabled BBS
/// prefixes the parser stays in Normal state, no flag is set, and the
/// output gains a newline exactly for a newline byte.
proof fn lemma_plain_byte(s: ConvState, b: u8)
    requires
        s.pstate == ParseState::Normal,
        !s.ansi,
        !s.save,
        !s.sync,
        !s.pipe,
        b != 0x1B,
    ensures
        ({
            let s2 = byte_st(s, b);
            &&& count_char(s2.output, '\n') == count_char(s.output, '\n')
                + (if b == 0x0A { 1int } else { 0int })
            &&& s2.pstate == ParseState::Normal
            &&& !s2.ansi
            &&& !s2.save
            &&& !s2.sync
            &&& !s2.pipe
            &&& s2.utf8 == s.utf8
        }),
{
    if b == 0x0A {
        lemma_emit_plain(s, '\n');
    } else if b == 0x0D {
    } else {
        lemma_cp437_no_newline(b);
        lemma_emit_plain(s, crate::cp437::cp437_char(b));
    }
}

/// Plain text, over a whole buffer.
proof fn lemma_plain_bytes(s: ConvState, bytes: Seq<u8>)
    requires
        s.pstate == ParseState::Normal,
        !s.ansi,
        !s.save,
        !s.sync,
        !s.pipe,
        forall|i: int| 0 <= i < bytes.len() ==> bytes[i] != 0x1B,
    ensures
        ({
            let s2 = process_bytes(s, bytes);
            &&& count_char(s2.output, '\n') == count_char(s.output, '\n')
                + count_byte(bytes, 0x0A)
            &&& s2.pstate == ParseState::Normal
            &&& !s2.ansi
            &&& !s2.save
            &&& !s2.sync
            &&& !s2.pipe
        }),
    decreases bytes.len(),
{
    if bytes.len() > 0 {
        let t = bytes.drop_last();
        assert(forall|i: int| 0 <= i < t.len() ==> t[i] == bytes[i]);
        lemma_plain_bytes(s, t);
        lemma_plain_byte(process_bytes(s, t), bytes.last());
        lemma_count_byte_snoc(bytes);
    }
}

/// Byte counting, unfolded from the back.
proof fn lemma_count_byte_snoc(bytes: Seq<u8>)
    requires
        bytes.len() > 0,
    ensures
        count_byte(bytes, 0x0A) == count_byte(bytes.drop_last(), 0x0A)
            + (if bytes.last() == 0x0A { 1int } else { 0int }),
    decreases bytes.len(),
{
    if bytes.len() == 1 {
        assert(bytes.drop_first() =~= Seq::<u8>::empty());
        assert(bytes.drop_last() =~= Seq::<u8>::empty());
    } else {
        let t = bytes.drop_first();
        lemma_count_byte_snoc(t);
        assert(t.drop_last() =~= bytes.drop_last().drop_first());
        assert(t.last() == bytes.last());
        assert(bytes.drop_last()[0] == bytes[0]);
    }
}

/// Plain text never soft-wraps: a buffer without escape bytes, converted
/// with no BBS conventions enabled and without a SUB byte or a SAUCE
/// record, produces exactly one newline per newline byte — in particular
/// no soft-wrap newline, however long its lines run.
pub proof fn lemma_plain_text_newlines(input: Seq<u8>)
    requires
        forall|i: int| 0 <= i < input.len() ==> input[i] != 0x1B,
        crate::sauce::find_sub(input) is None,
        crate::sauce::find_sauce_mark(input) is None,
    ensures
        count_char(crate::convert::convert_spec(input, false, false, false), '\n')
            == count_byte(input, 0x0A),
{
    let s1 = crate::convert::start_state(false, false, false);
    lemma_pre_open_chunk();
    lemma_open_tag_chunk(ColorMode::Cga, 0, 7, ExtendedColor::Cga(0), ExtendedColor::Cga(7));
    lemma_count_concat("<pre class=\"ansi\">"@, open_tag_text(ColorMode::Cga, 0, 7,
        ExtendedColor::Cga(0), ExtendedColor::Cga(7)), '\n');
    lemma_no_occurs_count("<pre class=\"ansi\">"@, '\n');
    lemma_no_occurs_count(open_tag_text(ColorMode::Cga, 0, 7, ExtendedColor::Cga(0),
        ExtendedColor::Cga(7)), '\n');
    assert(count_char(s1.output, '\n') == 0);
    assert(crate::convert::content_end_spec(input) == input.len());
    assert(input.take(input.len() as int) =~= input);
    let s2 = crate::convert::convert_content_st(s1, input);
    lemma_plain_bytes(s1, input);
    assert(s2 == process_bytes(s1, input));
    let cl = close_tag_text(s2.mode, s2.bg, s2.fg);
    lemma_close_tag_chunk(s2.mode, s2.bg, s2.fg);
    lemma_pre_close_chunk();
    lemma_count_concat(s2.output, cl, '\n');
    lemma_count_concat(s2.output + cl, "</pre>"@, '\n');
    lemma_no_occurs_count(cl, '\n');
    lemma_no_occurs_count("</pre>"@, '\n');
    assert(crate::convert::convert_spec(input, false, false, false) =~= (s2.output + cl)
        + "</pre>"@);
}

/// Soft wrapping happens exactly at the wrap column: once a stream has
/// seen an escape, emitting a printable character at a full column first
/// inserts the wrap newline, and below the column it never does.
pub proof fn lemma_soft_wrap_exact(s: ConvState, ch: char)
    requires
        !s.save,
        s.ansi,
        ch != '\n',
        ch != '\r',
    ensures
        s.column >= wrap_column() ==> emit_char_st(s, ch).output == s.output + seq!['\n']
            + escape_char(ch),
        s.column < wrap_column() ==> emit_char_st(s, ch).output == s.output
            + escape_char(ch),
{
    if s.column >= wrap_column() {
        let s1 = ConvState { output: s.output + seq!['\n'], column: 0, ..s };
        assert(s1.output + escape_char(ch) =~= s.output + seq!['\n'] + escape_char(ch));
    }
}

/// The render column never passes the wrap width, so no line of emitted
/// cells outruns it once wrapping is armed.
pub proof fn lemma_column_bounded(s: ConvState, bytes: Seq<u8>)
    requires
        render_inv(s),
    ensures
        process_bytes(s, bytes).column <= wrap_column(),
{
    lemma_process_bytes_walk(s, bytes);
}

/// HTML escaping is total: each sensitive character becomes its entity,
/// whose characters past the leading ampersand are never sensitive, so a
/// raw sensitive character never survives emission.
pub proof fn lemma_escape_total(ch: char)
    requires
        is_special(ch),
    ensures
        escape_char(ch)[0] == '&',
        escape_char(ch).last() == ';',
        escape_char(ch).len() >= 4,
        forall|i: int| 1 <= i < escape_char(ch).len() ==> !is_special(
            #[trigger] escape_char(ch)[i]),
{
    reveal_strlit("&lt;");
    reveal_strlit("&gt;");
    reveal_strlit("&amp;");
    reveal_strlit("&quot;");
    reveal_strlit("&apos;");
    if ch == '<' {
        assert(escape_char(ch) =~= seq!['&', 'l', 't', ';']);
    } else if ch == '>' {
        assert(escape_char(ch) =~= seq!['&', 'g', 't', ';']);
    } else if ch == '&' {
        assert(escape_char(ch) =~= seq!['&', 'a', 'm', 'p', ';']);
    } else if ch == '"' {
        assert(escape_char(ch) =~= seq!['&', 'q', 'u', 'o', 't', ';']);
    } else {
        assert(escape_char(ch) =~= seq!['&', 'a', 'p', 'o', 's', ';']);
    }
}

/// HTML escaping is stable: distinct characters have distinct escape
/// forms, so the escaped text determines the text it came from.
pub proof fn lemma_escape_injective(a: char, b: char)
    requires
        escape_char(a) == escape_char(b),
    ensures
        a == b,
{
    reveal_strlit("&lt;");
    reveal_strlit("&gt;");
    reveal_strlit("&amp;");
    reveal_strlit("&quot;");
    reveal_strlit("&apos;");
    assert(escape_char(a)[0] == escape_char(b)[0] && escape_char(a).len()
        == escape_char(b).len());
    if !is_special(a) && !is_special(b) {
        assert(escape_char(a) =~= seq![a]);
        assert(escape_char(b) =~= seq![b]);
        assert(a == escape_char(a)[0]);
    } else {
        assert(escape_char('<') =~= seq!['&', 'l', 't', ';']);
        assert(escape_char('>') =~= seq!['&', 'g', 't', ';']);
        assert(escape_char('&') =~= seq!['&', 'a', 'm', 'p', ';']);
        assert(escape_char('"') =~= seq!['&', 'q', 'u', 'o', 't', ';']);
        assert(escape_char('\'') =~= seq!['&', 'a', 'p', 'o', 's', ';']);
    }
}

/// Emitting a sensitive character outside the save gate appends exactly
/// its entity, after at most one wrap newline.
pub proof fn lemma_emit_escapes(s: ConvState, ch: char)
    requires
        !s.save,
        is_special(ch),
    ensures
        emit_char_st(s, ch).output == s.output + escape_char(ch) || emit_char_st(s, ch).output
            == s.output + seq!['\n'] + escape_char(ch),
{
    if s.ansi && s.column >= wrap_column() {
        let s1 = ConvState { output: s.output + seq!['\n'], column: 0, ..s };
        assert(s1.output + escape_char(ch) =~= s.output + seq!['\n'] + escape_char(ch));
    }
}

/// The SGR parameter string "0" parses to the single parameter 0.
proof fn lemma_parse_zero()
    ensures
        crate::params::parse_params(seq![0x30u8]) == seq![0u16],
{
    let e = Seq::<u8>::empty();
    let one = seq![0x30u8];
    assert(one.drop_first() =~= e);
    assert(e.push(0x30u8) =~= one);
    assert(one.drop_last() =~= e);
    assert(crate::params::digits_val(e) == 0);
    assert(crate::params::digits_val(one) == 0);
    assert(crate::params::all_digit_bytes(one));
    assert(crate::params::parse_capped_spec(one, 65535) == Some(0u32));
    assert(crate::params::component_params(one) =~= seq![0u16]);
    assert(crate::params::parse_params_rec(one, e, Seq::<u16>::empty())
        == crate::params::parse_params_rec(e, one, Seq::<u16>::empty()));
    assert(crate::params::parse_params_rec(e, one, Seq::<u16>::empty()) =~= Seq::<u16>::empty()
        + crate::params::component_params(one));
    assert(Seq::<u16>::empty() + seq![0u16] =~= seq![0u16]);
}

/// The SGR parameter string "1" parses to the single parameter 1.
proof fn lemma_parse_one()
    ensures
        crate::params::parse_params(seq![0x31u8]) == seq![1u16],
{
    let e = Seq::<u8>::empty();
    let one = seq![0x31u8];
    assert(one.drop_first() =~= e);
    assert(e.push(0x31u8) =~= one);
    assert(one.drop_last() =~= e);
    assert(crate::params::digits_val(e) == 0);
    assert(crate::params::digits_val(one) == 1);
    assert(crate::params::all_digit_bytes(one));
    assert(crate::params::parse_capped_spec(one, 65535) == Some(1u32));
    assert(crate::params::component_params(one) =~= seq![1u16]);
    assert(crate::params::parse_params_rec(one, e, Seq::<u16>::empty())
        == crate::params::parse_params_rec(e, one, Seq::<u16>::empty()));
    assert(crate::params::parse_params_rec(e, one, Seq::<u16>::empty()) =~= Seq::<u16>::empty()
        + crate::params::component_params(one));
    assert(Seq::<u16>::empty() + seq![1u16] =~= seq![1u16]);
}

/// An SGR reset restores the default CGA channels, whatever mode and
/// colors preceded it: light gray on black, in 16-color mode.
pub proof fn lemma_sgr_reset(s: ConvState)
    ensures
        sgr_st(s, seq![0x30u8]).mode == ColorMode::Cga,
        sgr_st(s, seq![0x30u8]).fg == 7,
        sgr_st(s, seq![0x30u8]).bg == 0,
        sgr_st(s, seq![0x30u8]).pstate == s.pstate,
{
    lemma_parse_zero();
    let ps = seq![0u16];
    let c0 = crate::state::sgr_of(s);
    let c1 = crate::state::SgrColors {
        fg: 7,
        bg: 0,
        mode: ColorMode::Cga,
        ext_fg: ExtendedColor::Cga(7),
        ext_bg: ExtendedColor::Cga(0),
    };
    assert(crate::state::sgr_apply(c0, ps, 0) == crate::state::sgr_apply(c1, ps, 1));
    assert(crate::state::sgr_apply(c1, ps, 1) == c1);
}

/// The whole reset sequence, byte for byte: from plain content, the four
/// bytes of `ESC [ 0 m` leave the converter in the default CGA colors and
/// back in plain content.
#[verifier::rlimit(100)]
proof fn lemma_reset_prefix(s: ConvState)
    requires
        s.pstate == ParseState::Normal,
    ensures
        process_bytes(s, seq![0x1Bu8, 0x5Bu8, 0x30u8]) =~= (ConvState {
            pstate: ParseState::Csi,
            params: seq![0x30u8],
            ..s
        }),
{
    let q3 = seq![0x1Bu8, 0x5Bu8, 0x30u8];
    let q2 = seq![0x1Bu8, 0x5Bu8];
    let q1 = seq![0x1Bu8];
    let e = Seq::<u8>::empty();
    assert(q3.drop_last() =~= q2);
    assert(q2.drop_last() =~= q1);
    assert(q1.drop_last() =~= e);
    assert(process_bytes(s, e) == s);
    let t1 = byte_st(s, 0x1B);
    assert(process_bytes(s, q1) == t1);
    assert(t1 =~= (ConvState { pstate: ParseState::Escape, ..s }));
    let t2 = byte_st(t1, 0x5B);
    assert(process_bytes(s, q2) == t2);
    assert(t2 =~= (ConvState { pstate: ParseState::Csi, params: Seq::empty(), ..s }));
    let t3 = byte_st(t2, 0x30);
    assert(process_bytes(s, q3) == t3);
    assert(t3 =~= (ConvState { pstate: ParseState::Csi, params: seq![0x30u8], ..s }));
}

#[verifier::rlimit(100)]
pub proof fn lemma_reset_sequence(s: ConvState)
    requires
        s.pstate == ParseState::Normal,
    ensures
        ({
            let s2 = process_bytes(s, seq![0x1Bu8, 0x5Bu8, 0x30u8, 0x6Du8]);
            &&& s2.mode == ColorMode::Cga
            &&& s2.fg == 7
            &&& s2.bg == 0
            &&& s2.pstate == ParseState::Normal
        }),
{
    let q = seq![0x1Bu8, 0x5Bu8, 0x30u8, 0x6Du8];
    let q3 = seq![0x1Bu8, 0x5Bu8, 0x30u8];
    assert(q.drop_last() =~= q3);
    lemma_reset_prefix(s);
    let t3 = process_bytes(s, q3);
    let t4 = byte_st(t3, 0x6D);
    assert(process_bytes(s, q) == t4);
    assert(crate::cp437::cp437_char(0x6D) == 'm');
    let td = ConvState { params: Seq::empty(), ..t3 };
    assert(t4 == ConvState { pstate: ParseState::Normal, ..csi_st(td, t3.params, 'm') });
    let ta = ConvState { ansi: true, ..td };
    assert(csi_st(td, t3.params, 'm') == sgr_st(ta, t3.params));
    assert(t3.params =~= seq![0x30u8]);
    assert(sgr_st(ta, seq![0x30u8]) == sgr_st(ta, t3.params));
    lemma_sgr_reset(ta);
}

/// Applying bright-foreground twice is the same as applying it once: the
/// second `ESC[1m` changes neither the colors nor the output.
pub proof fn lemma_bold_idempotent(s: ConvState)
    ensures
        sgr_st(sgr_st(s, seq![0x31u8]), seq![0x31u8]) == sgr_st(s, seq![0x31u8]),
{
    lemma_parse_one();
    let ps = seq![1u16];
    let s1 = sgr_st(s, seq![0x31u8]);
    let c0 = crate::state::sgr_of(s);
    let cr = crate::state::sgr_apply(c0, ps, 0);
    assert(cr == crate::state::sgr_apply(crate::state::SgrColors {
        fg: c0.fg | 0x08,
        ext_fg: match c0.ext_fg {
            ExtendedColor::Cga(v) => ExtendedColor::Cga(v | 0x08),
            x => x,
        },
        ..c0
    }, ps, 1));
    if s1 == s {
        assert(sgr_st(s1, seq![0x31u8]) == s1);
    } else {
        let c1 = crate::state::sgr_of(s1);
        let cr2 = crate::state::sgr_apply(c1, ps, 0);
        assert(cr2 == crate::state::sgr_apply(crate::state::SgrColors {
            fg: c1.fg | 0x08,
            ext_fg: match c1.ext_fg {
                ExtendedColor::Cga(v) => ExtendedColor::Cga(v | 0x08),
                x => x,
            },
            ..c1
        }, ps, 1));
        assert(forall|v: u8| (v | 0x08) | 0x08 == #[trigger] (v | 0x08)) by (bit_vector);
        assert(cr2.fg == s1.fg && cr2.ext_fg == s1.ext_fg && cr2.bg == s1.bg && cr2.ext_bg
            == s1.ext_bg && cr2.mode == s1.mode);
        assert(!crate::state::colors_changed(s1, cr2.mode, cr2.bg, cr2.fg, cr2.ext_bg,
            cr2.ext_fg));
        assert(sgr_st(s1, seq![0x31u8]) == s1);
    }
}

/// Applying a Synchronet intensity or blink toggle twice is the same as
/// applying it once.
pub proof fn lemma_sync_toggle_idempotent(s: ConvState, code: u8)
    requires
        code == 0x48 || code == 0x68 || code == 0x49 || code == 0x69,
    ensures
        sync_st(sync_st(s, code), code) == sync_st(s, code),
{
    let s1 = sync_st(s, code);
    assert(forall|v: u8| (v | 0x08) | 0x08 == #[trigger] (v | 0x08)) by (bit_vector);
    let sa = ConvState { ansi: true, ..s };
    let nc = crate::state::sync_colors(code, sa.fg, sa.bg);
    assert(s1 == switch_color_st(sa, nc.1, nc.0));
    let sb = ConvState { ansi: true, ..s1 };
    assert(sb == s1);
    let nc2 = crate::state::sync_colors(code, s1.fg, s1.bg);
    if crate::state::colors_changed(sa, ColorMode::Cga, nc.1, nc.0, ExtendedColor::Cga(nc.1),
        ExtendedColor::Cga(nc.0)) {
        assert(s1.fg == nc.0 && s1.bg == nc.1 && s1.mode == ColorMode::Cga
            && s1.ext_fg == ExtendedColor::Cga(nc.0) && s1.ext_bg == ExtendedColor::Cga(nc.1));
        assert(nc2.0 == s1.fg && nc2.1 == s1.bg);
        assert(!crate::state::colors_changed(s1, ColorMode::Cga, nc2.1, nc2.0,
            ExtendedColor::Cga(nc2.1), ExtendedColor::Cga(nc2.0)));
    } else {
        assert(s1 == sa);
        assert(nc2 == nc);
        assert(!crate::state::colors_changed(s1, ColorMode::Cga, nc2.1, nc2.0,
            ExtendedColor::Cga(nc2.1), ExtendedColor::Cga(nc2.0)));
    }
}

} // verus!
