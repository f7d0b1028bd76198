//! Checks of the library's general guarantees on concrete inputs: tag
//! balance, escaping, soft-wrap behavior, reset, toggle idempotence, and
//! edge cases of the SAUCE and color-code handling.

use ansi_to_html_rs::{convert, convert_with_options, generate_css, ConvertOptions};

fn count_openers(s: &str) -> usize {
    let chars: Vec<char> = s.chars().collect();
    let mut n = 0;
    for i in 0..chars.len() {
        if chars[i] == '<' && !(i + 1 < chars.len() && chars[i + 1] == '/') {
            n += 1;
        }
    }
    n
}

fn count_closers(s: &str) -> usize {
    let chars: Vec<char> = s.chars().collect();
    let mut n = 0;
    for i in 0..chars.len() {
        if chars[i] == '<' && i + 1 < chars.len() && chars[i + 1] == '/' {
            n += 1;
        }
    }
    n
}

#[test]
fn test_tag_balance_plain() {
    let out = convert(b"just some text");
    assert_eq!(count_openers(&out), count_closers(&out));
}

#[test]
fn test_tag_balance_colored() {
    let out = convert(b"\x1b[31mred\x1b[44mon blue\x1b[0m\x1b[38;5;200mpink\x1b[38;2;1;2;3mrgb");
    assert_eq!(count_openers(&out), count_closers(&out));
}

#[test]
fn test_tag_balance_bbs() {
    let options = ConvertOptions {
        synchronet_ctrl_a: true,
        renegade_pipe: true,
        utf8_input: false,
    };
    let out = convert_with_options(b"\x01r<red>|12|20mix &\x1b[0m", &options);
    assert_eq!(count_openers(&out), count_closers(&out));
}

#[test]
fn test_plain_text_newline_count() {
    let input: Vec<u8> = (0..200).map(|i| if i % 50 == 49 { b'\n' } else { b'x' }).collect();
    let out = convert(&input);
    let input_newlines = input.iter().filter(|&&b| b == b'\n').count();
    let output_newlines = out.chars().filter(|&c| c == '\n').count();
    assert_eq!(input_newlines, output_newlines);
}

#[test]
fn test_escaping_all_specials() {
    let out = convert(b"<>&\"'");
    assert!(out.contains("&lt;&gt;&amp;&quot;&apos;"));
}

#[test]
fn test_bold_twice_same_as_once() {
    assert_eq!(convert(b"\x1b[1m\x1b[1mX"), convert(b"\x1b[1mX"));
    assert_eq!(convert(b"\x1b[34m\x1b[1m\x1b[1mX"), convert(b"\x1b[34m\x1b[1mX"));
}

#[test]
fn test_sync_high_twice_same_as_once() {
    let options = ConvertOptions {
        synchronet_ctrl_a: true,
        renegade_pipe: false,
        utf8_input: false,
    };
    assert_eq!(
        convert_with_options(b"\x01h\x01hX", &options),
        convert_with_options(b"\x01hX", &options)
    );
    assert_eq!(
        convert_with_options(b"\x01i\x01iX", &options),
        convert_with_options(b"\x01iX", &options)
    );
}

#[test]
fn test_reset_from_rgb_gives_default_tag() {
    let out = convert(b"\x1b[38;2;10;20;30mcolored\x1b[0mplain");
    assert!(out.contains("</ans-rgb><ans-07>plain"));
}

#[test]
fn test_empty_input_frame() {
    let out = convert(b"");
    assert_eq!(out, "<pre class=\"ansi\"><ans-07></ans-07></pre>");
}

#[test]
fn test_single_char_exact_output() {
    let out = convert(b"A");
    assert_eq!(out, "<pre class=\"ansi\"><ans-07>A</ans-07></pre>");
}

#[test]
fn test_short_sauce_marker_ignored() {
    // A marker with fewer than 128 bytes after it yields no metadata.
    let mut input = b"Art\x1a".to_vec();
    input.extend_from_slice(b"SAUCE00too short");
    let out = convert(&input);
    assert!(out.contains("Art"));
    assert!(!out.contains("Title:"));
}

#[test]
fn test_sauce_nondigit_date_passthrough() {
    let mut input = b"x\x1a".to_vec();
    input.extend_from_slice(b"SAUCE00");
    input.extend_from_slice(&[b' '; 35]);
    input.extend_from_slice(&[b' '; 20]);
    input.extend_from_slice(&[b' '; 20]);
    input.extend_from_slice(b"2024011X");
    input.extend_from_slice(&[0u8; 4]);
    input.extend_from_slice(&[0, 0]);
    input.extend_from_slice(&[0u8; 8]);
    input.push(0);
    input.push(0);
    input.extend_from_slice(&[0u8; 22]);
    let out = convert(&input);
    assert!(out.contains("Date: 2024011X"));
    assert!(!out.contains("Date: 2024-01"));
}

#[test]
fn test_erase_display_other_param_ignored() {
    let out = convert(b"A\x1b[1JB");
    assert!(!out.contains("\n"));
    assert!(out.contains("AB"));
}

#[test]
fn test_unknown_sgr_param_ignored() {
    assert_eq!(convert(b"\x1b[999mX"), convert(b"\x1b[63mX"));
    assert!(convert(b"\x1b[999mX").contains("<ans-07>X"));
}

#[test]
fn test_unknown_escape_dropped() {
    let out = convert(b"A\x1bZB");
    assert!(out.contains("AB"));
}

#[test]
fn test_css_exact_rule() {
    let css = generate_css();
    assert!(css.contains("ans-07 { background-color: #000000; color: #AAAAAA; }\n"));
    assert!(css.contains("ans-f0 { background-color: #FFFFFF; color: #000000; }\n"));
}

#[test]
fn test_256_color_palette_zero() {
    let out = convert(b"\x1b[38;5;0mX");
    assert!(out.contains("<ans-256 fg=\"0\" bg=\"bg-0\">"));
}

#[test]
fn test_reverse_video_swaps_channels() {
    let out = convert(b"\x1b[31m\x1b[7mX");
    // Red foreground (4) and black background swap.
    assert!(out.contains("<ans-40>X"));
}

#[test]
fn test_utf8_invalid_bytes_replaced() {
    let options = ConvertOptions {
        synchronet_ctrl_a: false,
        renegade_pipe: false,
        utf8_input: true,
    };
    let out = convert_with_options(&[0xFF, 0xFE, b'A'], &options);
    assert!(out.contains('\u{FFFD}'));
    assert!(out.contains('A'));
}

#[test]
fn test_wrap_only_after_ansi_seen_midstream() {
    // 100 plain characters, then an escape, then 100 more: only the part
    // after the escape wraps.
    let mut input: Vec<u8> = (0..100).map(|_| b'a').collect();
    input.extend_from_slice(b"\x1b[31m");
    input.extend((0..100).map(|_| b'b'));
    let out = convert(&input);
    let plain_run: String = (0..100).map(|_| 'a').collect();
    assert!(out.contains(&plain_run));
    assert!(!out.contains(&format!("{}\n", &plain_run[..99])));
    // The colored part wraps: nowhere do more than 80 b's run unbroken.
    let long_b: String = (0..81).map(|_| 'b').collect();
    assert!(!out.contains(&long_b));
}

#[test]
fn test_utf8_soft_wrap_at_80() {
    let options = ConvertOptions {
        synchronet_ctrl_a: false,
        renegade_pipe: false,
        utf8_input: true,
    };
    let mut input = b"\x1b[31m".to_vec();
    input.extend((0..100).map(|_| b'x'));
    let out = convert_with_options(&input, &options);
    assert!(out.contains('\n'));
    let long_x: String = (0..81).map(|_| 'x').collect();
    assert!(!out.contains(&long_x));
}

#[test]
fn test_palette_foreground_keeps_rgb_background_mode() {
    // RGB background set first; a palette foreground afterwards keeps the
    // richer RGB mode, with the palette index as the fg attribute.
    let out = convert(b"\x1b[48;2;1;2;3m\x1b[38;5;9mX");
    assert!(out.contains("<ans-rgb fg=\"9\" bg=\"1,2,3\">X"));
}

#[test]
fn test_rgb_background_after_palette_foreground_one_sequence() {
    let out = convert(b"\x1b[38;5;7;48;2;1;2;3mX");
    assert!(out.contains("<ans-rgb fg=\"7\" bg=\"1,2,3\">X"));
}

#[test]
fn test_rgb_background_survives_later_palette_foreground() {
    // The background set in the same sequence stays RGB; only a channel
    // that is still CGA-tagged falls back.
    let out = convert(b"\x1b[48;2;1;2;3;38;5;9mX");
    assert!(out.contains("<ans-rgb fg=\"9\" bg=\"1,2,3\">X"));
}

#[test]
fn test_synchronet_unrecognized_code_no_state_change() {
    let options = ConvertOptions {
        synchronet_ctrl_a: true,
        renegade_pipe: false,
        utf8_input: false,
    };
    // An unrecognized code character leaves the colors and the output
    // alone, even while an extended-mode tag is open.
    assert_eq!(
        convert_with_options(b"\x01qX", &options),
        convert_with_options(b"X", &options)
    );
    assert_eq!(
        convert_with_options(b"\x1b[38;5;9m\x01qX", &options),
        convert_with_options(b"\x1b[38;5;9mX", &options)
    );
}

#[test]
fn test_carriage_return_at_full_column_no_wrap() {
    // A dropped carriage return never triggers the soft wrap, so the
    // newline that follows it is the only break.
    let mut input = b"\x1b[31m".to_vec();
    input.extend((0..80).map(|_| b'a'));
    input.extend_from_slice(b"\r\nb");
    let out = convert(&input);
    assert!(!out.contains("\n\n"));
    assert!(out.contains("a\nb"));
}
