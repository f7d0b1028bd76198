//! The conversion behavior, exercised through the public interface:
//! CP437 decoding, ANSI SGR and cursor sequences, Synchronet and Renegade
//! color codes, UTF-8 input, SAUCE metadata, and the generated CSS/JS.

use ansi_to_html_rs::{convert, convert_with_options, generate_css, generate_js, ConvertOptions};

#[test]
fn test_basic_text() {
    let result = convert(b"Hello");
    assert!(result.contains("<pre class=\"ansi\">"));
    assert!(result.contains("<ans-07>"));
    assert!(result.contains("Hello"));
    assert!(result.contains("</ans-07>"));
    assert!(result.contains("</pre>"));
}

#[test]
fn test_html_escaping() {
    let result = convert(b"<script>&</script>");
    assert!(result.contains("&lt;script&gt;&amp;&lt;/script&gt;"));
    // Test double quote
    let result = convert(b"\"quoted\"");
    assert!(result.contains("&quot;quoted&quot;"));
    // Test apostrophe
    let result = convert(b"it's here");
    assert!(result.contains("it&apos;s here"));
}

#[test]
fn test_color_change() {
    // ESC[31m sets red foreground
    let input = b"\x1b[31mRed";
    let result = convert(input);
    assert!(result.contains("<ans-04>")); // Red foreground on black
}

#[test]
fn test_clear_screen() {
    // ESC[2J clears screen
    let input = b"Before\x1b[2JAfter";
    let result = convert(input);
    // Should have three newlines for clear screen
    assert!(result.contains("\n\n\n"));
}

#[test]
fn test_newline_preserved() {
    let result = convert(b"Line1\nLine2");
    assert!(result.contains("Line1\nLine2"));
}

#[test]
fn test_carriage_return_suppressed() {
    let result = convert(b"Line1\r\nLine2");
    assert!(!result.contains('\r'));
    assert!(result.contains("Line1\nLine2"));
}

#[test]
fn test_generate_css() {
    let css = generate_css();
    assert!(css.contains("ans-07"));
    assert!(css.contains("#AAAAAA")); // Light gray
}

#[test]
fn test_generate_js() {
    let js = generate_js();
    assert!(js.contains("customElements.define"));
}

#[test]
fn test_soft_return_at_column_80() {
    // Create a line with ANSI escape that's longer than 80 chars
    let mut input = vec![0x1b, b'[', b'3', b'1', b'm']; // Red color
    // Add 85 'X' characters - should trigger soft return after 80
    for _ in 0..85 {
        input.push(b'X');
    }
    let result = convert(&input);
    // Should have a newline injected after column 80
    let x_count_before_newline = result
        .split('\n')
        .find(|s| s.contains("XXXX"))
        .map(|s| s.matches('X').count())
        .unwrap_or(0);
    assert_eq!(x_count_before_newline, 80);
}

#[test]
fn test_no_soft_return_without_ansi() {
    // Without ANSI, no soft return should happen
    let input: Vec<u8> = (0..85).map(|_| b'X').collect();
    let result = convert(&input);
    // Should NOT have a newline
    assert!(!result.contains('\n'));
}

#[test]
fn test_save_restore_position_collapse() {
    // ESC[s saves position, text should be collapsed, ESC[u restores
    let input = b"Before\x1b[sHidden\x1b[uAfter";
    let result = convert(input);
    assert!(result.contains("Before"));
    assert!(result.contains("After"));
    assert!(!result.contains("Hidden"));
}

#[test]
fn test_dec_save_restore_position() {
    // \e7 saves position, \e8 restores
    let input = b"Start\x1b7Collapsed\x1b8End";
    let result = convert(input);
    assert!(result.contains("Start"));
    assert!(result.contains("End"));
    assert!(!result.contains("Collapsed"));
}

#[test]
fn test_cp437_box_drawing() {
    // Test box drawing characters (0xDA = top-left corner)
    let input = [0xDA, 0xC4, 0xC4, 0xBF]; // ┌──┐
    let result = convert(&input);
    assert!(result.contains('┌'));
    assert!(result.contains('─'));
    assert!(result.contains('┐'));
}

#[test]
fn test_cp437_special_chars() {
    // Test smiley faces and hearts
    let input = [0x01, 0x02, 0x03]; // ☺☻♥
    let result = convert(&input);
    assert!(result.contains('☺'));
    assert!(result.contains('☻'));
    assert!(result.contains('♥'));
}

#[test]
fn test_bright_foreground_colors() {
    // ESC[91m = bright red
    let input = b"\x1b[91mBright Red";
    let result = convert(input);
    assert!(result.contains("<ans-0c>")); // Light Red on black
}

#[test]
fn test_bright_background_colors() {
    // ESC[101m = bright red background
    let input = b"\x1b[101mBright BG";
    let result = convert(input);
    assert!(result.contains("<ans-c7>")); // Light Red bg, Light Gray fg
}

#[test]
fn test_bold_makes_bright() {
    // ESC[1m makes foreground bright, ESC[34m blue -> light blue
    let input = b"\x1b[1;34mBold Blue";
    let result = convert(input);
    assert!(result.contains("<ans-09>")); // Light Blue (9) on black
}

#[test]
fn test_reset_colors() {
    // ESC[31m red, then ESC[0m reset
    let input = b"\x1b[31mRed\x1b[0mNormal";
    let result = convert(input);
    assert!(result.contains("<ans-04>Red</ans-04>"));
    assert!(result.contains("<ans-07>Normal"));
}

#[test]
fn test_multiple_sgr_params() {
    // ESC[1;31;44m = bold red on blue
    let input = b"\x1b[1;31;44mStyled";
    let result = convert(input);
    assert!(result.contains("<ans-1c>")); // Blue bg (1), Light Red fg (C)
}

#[test]
fn test_full_block_character() {
    // 0xDB = full block
    let input = [0xDB];
    let result = convert(&input);
    assert!(result.contains('█'));
}

#[test]
fn test_shade_characters() {
    // Test shade blocks
    let input = [0xB0, 0xB1, 0xB2]; // ░▒▓
    let result = convert(&input);
    assert!(result.contains('░'));
    assert!(result.contains('▒'));
    assert!(result.contains('▓'));
}

#[test]
fn test_cursor_forward_default() {
    // ESC[C moves cursor forward 1 position (emits 1 space)
    let input = b"A\x1b[CB";
    let result = convert(input);
    assert!(result.contains("A B"));
}

#[test]
fn test_cursor_forward_explicit_one() {
    // ESC[1C moves cursor forward 1 position
    let input = b"A\x1b[1CB";
    let result = convert(input);
    assert!(result.contains("A B"));
}

#[test]
fn test_cursor_forward_multiple() {
    // ESC[5C moves cursor forward 5 positions (emits 5 spaces)
    let input = b"A\x1b[5CB";
    let result = convert(input);
    assert!(result.contains("A     B"));
}

#[test]
fn test_cursor_forward_large() {
    // ESC[10C moves cursor forward 10 positions
    let input = b"X\x1b[10CY";
    let result = convert(input);
    assert!(result.contains("X          Y"));
}

#[test]
fn test_cursor_forward_zero_treated_as_one() {
    // ESC[0C should be treated as ESC[1C per ANSI spec
    let input = b"A\x1b[0CB";
    let result = convert(input);
    assert!(result.contains("A B"));
}

// ========== Synchronet Ctrl-A tests ==========

#[test]
fn test_synchronet_foreground_colors() {
    let options = ConvertOptions {
        synchronet_ctrl_a: true,
        ..Default::default()
    };
    // Ctrl-A + r (lowercase) = red foreground
    let input = b"\x01rRed Text";
    let result = convert_with_options(input, &options);
    assert!(result.contains("<ans-04>")); // Red on black
}

#[test]
fn test_synchronet_background_color_uppercase() {
    let options = ConvertOptions {
        synchronet_ctrl_a: true,
        ..Default::default()
    };
    // Ctrl-A + R (uppercase) = red background
    let input = b"\x01RRed BG";
    let result = convert_with_options(input, &options);
    assert!(result.contains("<ans-47>")); // Red bg (4), Light Gray fg (7)
}

#[test]
fn test_synchronet_background_color_digit() {
    let options = ConvertOptions {
        synchronet_ctrl_a: true,
        ..Default::default()
    };
    // Ctrl-A + 1 = blue background
    let input = b"\x011Blue BG";
    let result = convert_with_options(input, &options);
    assert!(result.contains("<ans-17>")); // Blue bg, Light Gray fg
}

#[test]
fn test_synchronet_high_intensity_foreground() {
    let options = ConvertOptions {
        synchronet_ctrl_a: true,
        ..Default::default()
    };
    // Ctrl-A + b (blue fg) + Ctrl-A + h (high intensity) = bright blue
    let input = b"\x01b\x01hBright Blue";
    let result = convert_with_options(input, &options);
    assert!(result.contains("<ans-09>")); // Light Blue on black
}

#[test]
fn test_synchronet_high_intensity_background() {
    let options = ConvertOptions {
        synchronet_ctrl_a: true,
        ..Default::default()
    };
    // Ctrl-A + B (blue bg) + Ctrl-A + i (blink/high intensity bg) = bright blue bg
    let input = b"\x01B\x01iBright Blue BG";
    let result = convert_with_options(input, &options);
    assert!(result.contains("<ans-97>")); // Light Blue bg (9), Light Gray fg (7)
}

#[test]
fn test_synchronet_normal_reset() {
    let options = ConvertOptions {
        synchronet_ctrl_a: true,
        ..Default::default()
    };
    // Ctrl-A + r (red fg) then Ctrl-A + n = reset to normal
    let input = b"\x01rRed\x01nNormal";
    let result = convert_with_options(input, &options);
    assert!(result.contains("<ans-04>Red</ans-04>"));
    assert!(result.contains("<ans-07>Normal"));
}

#[test]
fn test_synchronet_disabled_by_default() {
    // Without option, Ctrl-A should be treated as CP437 character (smiley)
    let input = b"\x01rText";
    let result = convert(input);
    assert!(result.contains('☺')); // CP437 0x01 = smiley face
    assert!(result.contains("rText"));
}

#[test]
fn test_synchronet_preserves_intensity() {
    let options = ConvertOptions {
        synchronet_ctrl_a: true,
        ..Default::default()
    };
    // Set high intensity first, then change color - intensity should be preserved
    let input = b"\x01h\x01bBright Blue";
    let result = convert_with_options(input, &options);
    assert!(result.contains("<ans-09>")); // Light Blue (high intensity preserved)
}

#[test]
fn test_synchronet_combined_fg_bg() {
    let options = ConvertOptions {
        synchronet_ctrl_a: true,
        ..Default::default()
    };
    // Ctrl-A + w (white fg) + Ctrl-A + B (blue bg)
    let input = b"\x01w\x01BWhite on Blue";
    let result = convert_with_options(input, &options);
    assert!(result.contains("<ans-17>")); // Blue bg (1), Light Gray fg (7)
}

#[test]
fn test_synchronet_intensity_idempotent() {
    let options = ConvertOptions {
        synchronet_ctrl_a: true,
        ..Default::default()
    };
    // Applying high intensity multiple times should have same effect as once
    let input = b"\x01b\x01h\x01hDouble High";
    let result = convert_with_options(input, &options);
    assert!(result.contains("<ans-09>")); // Light Blue (9), not something weird
}

#[test]
fn test_synchronet_blink_idempotent() {
    let options = ConvertOptions {
        synchronet_ctrl_a: true,
        ..Default::default()
    };
    // Applying blink/high bg multiple times should have same effect as once
    let input = b"\x01B\x01i\x01iDouble Blink BG";
    let result = convert_with_options(input, &options);
    assert!(result.contains("<ans-97>")); // Light Blue bg (9), Light Gray fg (7)
}

// ========== Renegade pipe code tests ==========

#[test]
fn test_renegade_foreground_colors() {
    let options = ConvertOptions {
        renegade_pipe: true,
        ..Default::default()
    };
    // |04 = red foreground
    let input = b"|04Red Text";
    let result = convert_with_options(input, &options);
    assert!(result.contains("<ans-04>")); // Red on black
}

#[test]
fn test_renegade_bright_foreground() {
    let options = ConvertOptions {
        renegade_pipe: true,
        ..Default::default()
    };
    // |12 = bright red (Light Red)
    let input = b"|12Bright Red";
    let result = convert_with_options(input, &options);
    assert!(result.contains("<ans-0c>")); // Light Red on black
}

#[test]
fn test_renegade_background_color() {
    let options = ConvertOptions {
        renegade_pipe: true,
        ..Default::default()
    };
    // |17 = blue background
    let input = b"|17Blue BG";
    let result = convert_with_options(input, &options);
    assert!(result.contains("<ans-17>")); // Blue bg, Light Gray fg
}

#[test]
fn test_renegade_combined_colors() {
    let options = ConvertOptions {
        renegade_pipe: true,
        ..Default::default()
    };
    // |15 = white fg, |20 = red bg
    let input = b"|15|20White on Red";
    let result = convert_with_options(input, &options);
    assert!(result.contains("<ans-4f>")); // Red bg, White fg
}

#[test]
fn test_renegade_disabled_by_default() {
    // Without option, pipe should be passed through
    let input = b"|04Text";
    let result = convert(input);
    assert!(result.contains("|04Text"));
}

#[test]
fn test_renegade_invalid_code_passthrough() {
    let options = ConvertOptions {
        renegade_pipe: true,
        ..Default::default()
    };
    // |99 is invalid (>23), should be ignored but not crash
    let input = b"|99Text";
    let result = convert_with_options(input, &options);
    assert!(result.contains("Text"));
}

#[test]
fn test_renegade_incomplete_code_passthrough() {
    let options = ConvertOptions {
        renegade_pipe: true,
        ..Default::default()
    };
    // |0X is not a valid code (X is not a digit)
    let input = b"|0XText";
    let result = convert_with_options(input, &options);
    assert!(result.contains("|0XText"));
}

#[test]
fn test_renegade_pipe_literal() {
    let options = ConvertOptions {
        renegade_pipe: true,
        ..Default::default()
    };
    // Single | followed by non-digit should be passed through
    let input = b"|Hello";
    let result = convert_with_options(input, &options);
    assert!(result.contains("|Hello"));
}

// ========== Combined options tests ==========

#[test]
fn test_both_formats_enabled() {
    let options = ConvertOptions {
        synchronet_ctrl_a: true,
        renegade_pipe: true,
        ..Default::default()
    };
    // Mix of both formats
    let input = b"\x01rSync |09Renegade";
    let result = convert_with_options(input, &options);
    assert!(result.contains("<ans-04>")); // Red from Synchronet
    assert!(result.contains("<ans-09>")); // Light Blue from Renegade
}

// ========== UTF-8 input mode tests ==========

#[test]
fn test_utf8_input_basic() {
    let options = ConvertOptions {
        utf8_input: true,
        ..Default::default()
    };
    // UTF-8 text with Unicode characters should pass through
    let input = "Hello, 世界!".as_bytes();
    let result = convert_with_options(input, &options);
    assert!(result.contains("Hello, 世界!"));
}

#[test]
fn test_utf8_input_control_chars() {
    let options = ConvertOptions {
        utf8_input: true,
        ..Default::default()
    };
    // Control char 0x01 (smiley in CP437) should still be converted
    let input = b"\x01 Hello";
    let result = convert_with_options(input, &options);
    assert!(result.contains('☺')); // CP437 0x01 = smiley
    assert!(result.contains("Hello"));
}

#[test]
fn test_utf8_input_ansi_codes() {
    let options = ConvertOptions {
        utf8_input: true,
        ..Default::default()
    };
    // ANSI codes should still work in UTF-8 mode
    let input = "\x1b[31mRed 日本語\x1b[0m".as_bytes();
    let result = convert_with_options(input, &options);
    assert!(result.contains("<ans-04>")); // Red
    assert!(result.contains("日本語"));
}

#[test]
fn test_utf8_input_with_renegade() {
    let options = ConvertOptions {
        utf8_input: true,
        renegade_pipe: true,
        ..Default::default()
    };
    // Renegade codes with UTF-8 text
    let input = "|04Red |02Grün".as_bytes();
    let result = convert_with_options(input, &options);
    assert!(result.contains("<ans-04>")); // Red
    assert!(result.contains("<ans-02>")); // Green
    assert!(result.contains("Grün")); // German umlaut preserved
}

// ========== SAUCE metadata parsing tests ==========

#[test]
fn test_sub_without_sauce_stops_processing() {
    // SUB without valid SAUCE record - content after SUB is ignored
    let input = b"Visible\x1aRandom garbage after SUB";
    let result = convert(input);
    assert!(result.contains("Visible"));
    assert!(!result.contains("Random"));
    assert!(!result.contains("garbage"));
}

#[test]
fn test_sauce_record_parsed_and_displayed() {
    // Create a minimal valid SAUCE record (128 bytes)
    let mut input = b"Content before SAUCE\x1a".to_vec();
    // SAUCE00 header
    input.extend_from_slice(b"SAUCE00");
    // Title (35 bytes) - "Test Title" padded with spaces
    input.extend_from_slice(b"Test Title                         ");
    // Author (20 bytes)
    input.extend_from_slice(b"Test Author         ");
    // Group (20 bytes)
    input.extend_from_slice(b"Test Group          ");
    // Date (8 bytes) - CCYYMMDD
    input.extend_from_slice(b"20240115");
    // FileSize (4 bytes) - little endian
    input.extend_from_slice(&[0, 0, 0, 0]);
    // DataType (1 byte)
    input.push(1);
    // FileType (1 byte)
    input.push(1);
    // TInfo1-4 (8 bytes) - width=80, height=25
    input.extend_from_slice(&[80, 0, 25, 0, 0, 0, 0, 0]);
    // Comments (1 byte)
    input.push(0);
    // TFlags (1 byte)
    input.push(0);
    // TInfoS (22 bytes) - font name
    input.extend_from_slice(b"IBM VGA\0\0\0\0\0\0\0\0\0\0\0\0\0\0\0");

    let result = convert(&input);
    assert!(result.contains("Content before SAUCE"));
    assert!(result.contains("Title: Test Title"));
    assert!(result.contains("Author: Test Author"));
    assert!(result.contains("Group: Test Group"));
    assert!(result.contains("Date: 2024-01-15"));
    assert!(result.contains("Size: 80x25"));
    assert!(result.contains("Font: IBM VGA"));
}

#[test]
fn test_sauce_with_comnt_block() {
    // Create input with COMNT block before SAUCE
    let mut input = b"Art content\x1a".to_vec();
    // COMNT header + one 64-byte comment line
    input.extend_from_slice(b"COMNT");
    input.extend_from_slice(b"This is a comment line for the ANSI art.                       ");
    // SAUCE00 header
    input.extend_from_slice(b"SAUCE00");
    // Title (35 bytes)
    input.extend_from_slice(b"Artwork Title                      ");
    // Author (20 bytes)
    input.extend_from_slice(b"Artist              ");
    // Group (20 bytes)
    input.extend_from_slice(b"                    ");
    // Date (8 bytes)
    input.extend_from_slice(b"20230701");
    // FileSize (4 bytes)
    input.extend_from_slice(&[0, 0, 0, 0]);
    // DataType, FileType
    input.extend_from_slice(&[1, 1]);
    // TInfo1-4 (8 bytes)
    input.extend_from_slice(&[0, 0, 0, 0, 0, 0, 0, 0]);
    // Comments count (1 byte) - 1 comment
    input.push(1);
    // TFlags (1 byte)
    input.push(0);
    // TInfoS (22 bytes)
    input.extend_from_slice(b"\0\0\0\0\0\0\0\0\0\0\0\0\0\0\0\0\0\0\0\0\0\0");

    let result = convert(&input);
    assert!(result.contains("Art content"));
    assert!(result.contains("Title: Artwork Title"));
    assert!(result.contains("Author: Artist"));
    assert!(result.contains("Comment: This is a comment line for the ANSI art."));
}

#[test]
fn test_content_after_sauce_continues() {
    // Create input with content after SAUCE record
    let mut input = b"Before SAUCE\x1a".to_vec();
    // Minimal SAUCE record (128 bytes)
    input.extend_from_slice(b"SAUCE00");
    input.extend_from_slice(b"Title                              "); // 35
    input.extend_from_slice(b"                    "); // 20 author
    input.extend_from_slice(b"                    "); // 20 group
    input.extend_from_slice(b"        "); // 8 date
    input.extend_from_slice(&[0u8; 4]); // filesize
    input.extend_from_slice(&[0, 0]); // datatype, filetype
    input.extend_from_slice(&[0u8; 8]); // tinfo1-4
    input.push(0); // comments
    input.push(0); // tflags
    input.extend_from_slice(&[0u8; 22]); // tinfos
    // Content after SAUCE
    input.extend_from_slice(b"Content after SAUCE record");

    let result = convert(&input);
    assert!(result.contains("Before SAUCE"));
    assert!(result.contains("Title: Title"));
    assert!(result.contains("Content after SAUCE record"));
}

#[test]
fn test_sauce_utf8_mode() {
    let options = ConvertOptions {
        utf8_input: true,
        ..Default::default()
    };
    // Create input with UTF-8 content and SAUCE
    let mut input = b"Hello UTF-8 \xc3\xa9\x1a".to_vec(); // é in UTF-8
    // Full SAUCE record (128 bytes total)
    // SAUCE00 (7) + Title (35) + Author (20) + Group (20) + Date (8) +
    // FileSize (4) + DataType (1) + FileType (1) + TInfo1-4 (8) +
    // Comments (1) + TFlags (1) + TInfoS (22) = 128
    input.extend_from_slice(b"SAUCE00");                           // 7 bytes
    input.extend_from_slice(b"UTF-8 Test                         "); // 35 bytes
    input.extend_from_slice(&[b' '; 20]);                          // 20 bytes author
    input.extend_from_slice(&[b' '; 20]);                          // 20 bytes group
    input.extend_from_slice(b"        ");                          // 8 bytes date
    input.extend_from_slice(&[0u8; 4]);                            // 4 bytes filesize
    input.extend_from_slice(&[1, 1]);                              // 2 bytes datatype, filetype
    input.extend_from_slice(&[0u8; 8]);                            // 8 bytes tinfo1-4
    input.push(0);                                                 // 1 byte comments
    input.push(0);                                                 // 1 byte tflags
    input.extend_from_slice(&[0u8; 22]);                           // 22 bytes tinfos

    let result = convert_with_options(&input, &options);
    assert!(result.contains("Hello UTF-8 é"));
    assert!(result.contains("Title: UTF-8 Test"));
}

// ========== 256-color and RGB support tests ==========

#[test]
fn test_256_color_foreground() {
    // ESC[38;5;196m = 256-color foreground, color 196 (bright red in cube)
    let input = b"\x1b[38;5;196mRed 256";
    let result = convert(input);
    assert!(result.contains("<ans-256 fg=\"196\" bg=\"bg-0\">"));
    assert!(result.contains("Red 256"));
    assert!(result.contains("</ans-256>"));
}

#[test]
fn test_256_color_background() {
    // ESC[48;5;21m = 256-color background, color 21 (blue in cube)
    let input = b"\x1b[48;5;21mBlue BG";
    let result = convert(input);
    assert!(result.contains("<ans-256 fg=\"fg-7\" bg=\"21\">"));
    assert!(result.contains("Blue BG"));
}

#[test]
fn test_256_color_both() {
    // ESC[38;5;226;48;5;21m = yellow fg (226) on blue bg (21)
    let input = b"\x1b[38;5;226;48;5;21mYellow on Blue";
    let result = convert(input);
    assert!(result.contains("<ans-256 fg=\"226\" bg=\"21\">"));
}

#[test]
fn test_rgb_foreground() {
    // ESC[38;2;255;128;0m = RGB foreground (orange)
    let input = b"\x1b[38;2;255;128;0mOrange";
    let result = convert(input);
    assert!(result.contains("<ans-rgb fg=\"255,128,0\" bg=\"bg-0\">"));
    assert!(result.contains("Orange"));
    assert!(result.contains("</ans-rgb>"));
}

#[test]
fn test_rgb_background() {
    // ESC[48;2;0;64;128m = RGB background (dark blue)
    let input = b"\x1b[48;2;0;64;128mDark Blue BG";
    let result = convert(input);
    assert!(result.contains("<ans-rgb fg=\"fg-7\" bg=\"0,64,128\">"));
    assert!(result.contains("Dark Blue BG"));
}

#[test]
fn test_rgb_both() {
    // ESC[38;2;255;255;0;48;2;128;0;128m = yellow fg on purple bg
    let input = b"\x1b[38;2;255;255;0;48;2;128;0;128mYellow on Purple";
    let result = convert(input);
    assert!(result.contains("<ans-rgb fg=\"255,255,0\" bg=\"128,0,128\">"));
}

#[test]
fn test_extended_color_reset() {
    // Start with 256-color, then reset to default
    let input = b"\x1b[38;5;196mRed\x1b[0mNormal";
    let result = convert(input);
    assert!(result.contains("<ans-256 fg=\"196\""));
    assert!(result.contains("Red"));
    assert!(result.contains("</ans-256>"));
    assert!(result.contains("<ans-07>Normal"));
}

#[test]
fn test_switch_cga_to_256() {
    // Start with CGA red, then switch to 256-color
    let input = b"\x1b[31mCGA Red\x1b[38;5;196m256 Red";
    let result = convert(input);
    assert!(result.contains("<ans-04>CGA Red</ans-04>"));
    assert!(result.contains("<ans-256 fg=\"196\""));
    assert!(result.contains("256 Red"));
}

#[test]
fn test_switch_256_to_rgb() {
    // Start with 256-color, then switch to RGB
    let input = b"\x1b[38;5;196m256\x1b[38;2;255;0;0mRGB";
    let result = convert(input);
    assert!(result.contains("<ans-256"));
    assert!(result.contains("256"));
    assert!(result.contains("<ans-rgb fg=\"255,0,0\""));
    assert!(result.contains("RGB"));
}

#[test]
fn test_256_color_cga_range() {
    // 256-color palette indices 0-15 are the standard CGA colors
    // Test index 4 (red in 256-color, which maps to CGA red)
    let input = b"\x1b[38;5;4mBlue";
    let result = convert(input);
    assert!(result.contains("<ans-256 fg=\"4\""));
}

#[test]
fn test_256_color_grayscale() {
    // Test grayscale colors (232-255)
    let input = b"\x1b[38;5;240mGray";
    let result = convert(input);
    assert!(result.contains("<ans-256 fg=\"240\""));
}

// ========== Renegade escaped pipe tests ==========

#[test]
fn test_renegade_escaped_pipe() {
    let options = ConvertOptions {
        renegade_pipe: true,
        ..Default::default()
    };
    // || should output a single | and continue
    let input = b"||Hello";
    let result = convert_with_options(input, &options);
    assert!(result.contains("|Hello"));
}

#[test]
fn test_renegade_escaped_pipe_followed_by_digits() {
    let options = ConvertOptions {
        renegade_pipe: true,
        ..Default::default()
    };
    // ||04 should output |04 (literal pipe followed by 04)
    let input = b"||04Red";
    let result = convert_with_options(input, &options);
    assert!(result.contains("|04Red"));
}

#[test]
fn test_renegade_high_intensity_background() {
    let options = ConvertOptions {
        renegade_pipe: true,
        ..Default::default()
    };
    // |24 = dark gray background (high intensity black)
    let input = b"|24Dark Gray BG";
    let result = convert_with_options(input, &options);
    assert!(result.contains("<ans-87>")); // Dark Gray bg (8), Light Gray fg (7)
}

#[test]
fn test_renegade_high_intensity_background_range() {
    let options = ConvertOptions {
        renegade_pipe: true,
        ..Default::default()
    };
    // |31 = white background (high intensity)
    let input = b"|31White BG";
    let result = convert_with_options(input, &options);
    assert!(result.contains("<ans-f7>")); // White bg (f), Light Gray fg (7)
}

#[test]
fn test_renegade_combined_high_intensity_bg_with_fg() {
    let options = ConvertOptions {
        renegade_pipe: true,
        ..Default::default()
    };
    // |00 = black fg, |28 = light red background
    let input = b"|00|28Black on Light Red";
    let result = convert_with_options(input, &options);
    assert!(result.contains("<ans-c0>")); // Light Red bg (c), Black fg (0)
}
