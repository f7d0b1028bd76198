//! The IBM Code Page 437 character table: every byte value 0x00-0xFF has a
//! Unicode counterpart, including the control-picture glyphs below 0x20, the
//! box-drawing and shading characters, and the extended Latin/Greek/math range.

use vstd::prelude::*;

verus! {

/// The CP437 mapping as a mathematical function from byte to character.
pub open spec fn cp437_char(b: u8) -> char {
    match b {
        0u8 => '\u{0000}',
        1u8 => '\u{263A}',
        2u8 => '\u{263B}',
        3u8 => '\u{2665}',
        4u8 => '\u{2666}',
        5u8 => '\u{2663}',
        6u8 => '\u{2660}',
        7u8 => '\u{2022}',
        8u8 => '\u{25D8}',
        9u8 => '\u{25CB}',
        10u8 => '\u{25D9}',
        11u8 => '\u{2642}',
        12u8 => '\u{2640}',
        13u8 => '\u{266A}',
        14u8 => '\u{266B}',
        15u8 => '\u{263C}',
        16u8 => '\u{25BA}',
        17u8 => '\u{25C4}',
        18u8 => '\u{2195}',
        19u8 => '\u{203C}',
        20u8 => '\u{00B6}',
        21u8 => '\u{00A7}',
        22u8 => '\u{25AC}',
        23u8 => '\u{21A8}',
        24u8 => '\u{2191}',
        25u8 => '\u{2193}',
        26u8 => '\u{2192}',
        27u8 => '\u{2190}',
        28u8 => '\u{221F}',
        29u8 => '\u{2194}',
        30u8 => '\u{25B2}',
        31u8 => '\u{25BC}',
        32u8 => ' ',
        33u8 => '!',
        34u8 => '"',
        35u8 => '#',
        36u8 => '$',
        37u8 => '%',
        38u8 => '&',
        39u8 => '\'',
        40u8 => '(',
        41u8 => ')',
        42u8 => '*',
        43u8 => '+',
        44u8 => ',',
        45u8 => '-',
        46u8 => '.',
        47u8 => '/',
        48u8 => '0',
        49u8 => '1',
        50u8 => '2',
        51u8 => '3',
        52u8 => '4',
        53u8 => '5',
        54u8 => '6',
        55u8 => '7',
        56u8 => '8',
        57u8 => '9',
        58u8 => ':',
        59u8 => ';',
        60u8 => '<',
        61u8 => '=',
        62u8 => '>',
        63u8 => '?',
        64u8 => '@',
        65u8 => 'A',
        66u8 => 'B',
        67u8 => 'C',
        68u8 => 'D',
        69u8 => 'E',
        70u8 => 'F',
        71u8 => 'G',
        72u8 => 'H',
        73u8 => 'I',
        74u8 => 'J',
        75u8 => 'K',
        76u8 => 'L',
        77u8 => 'M',
        78u8 => 'N',
        79u8 => 'O',
        80u8 => 'P',
        81u8 => 'Q',
        82u8 => 'R',
        83u8 => 'S',
        84u8 => 'T',
        85u8 => 'U',
        86u8 => 'V',
        87u8 => 'W',
        88u8 => 'X',
        89u8 => 'Y',
        90u8 => 'Z',
        91u8 => '[',
        92u8 => '\\',
        93u8 => ']',
        94u8 => '^',
        95u8 => '_',
        96u8 => '`',
        97u8 => 'a',
        98u8 => 'b',
        99u8 => 'c',
        100u8 => 'd',
        101u8 => 'e',
        102u8 => 'f',
        103u8 => 'g',
        104u8 => 'h',
        105u8 => 'i',
        106u8 => 'j',
        107u8 => 'k',
        108u8 => 'l',
        109u8 => 'm',
        110u8 => 'n',
        111u8 => 'o',
        112u8 => 'p',
        113u8 => 'q',
        114u8 => 'r',
        115u8 => 's',
        116u8 => 't',
        117u8 => 'u',
        118u8 => 'v',
        119u8 => 'w',
        120u8 => 'x',
        121u8 => 'y',
        122u8 => 'z',
        123u8 => '{',
        124u8 => '|',
        125u8 => '}',
        126u8 => '~',
        127u8 => '\u{2302}',
        128u8 => '\u{00C7}',
        129u8 => '\u{00FC}',
        130u8 => '\u{00E9}',
        131u8 => '\u{00E2}',
        132u8 => '\u{00E4}',
        133u8 => '\u{00E0}',
        134u8 => '\u{00E5}',
        135u8 => '\u{00E7}',
        136u8 => '\u{00EA}',
        137u8 => '\u{00EB}',
        138u8 => '\u{00E8}',
        139u8 => '\u{00EF}',
        140u8 => '\u{00EE}',
        141u8 => '\u{00EC}',
        142u8 => '\u{00C4}',
        143u8 => '\u{00C5}',
        144u8 => '\u{00C9}',
        145u8 => '\u{00E6}',
        146u8 => '\u{00C6}',
        147u8 => '\u{00F4}',
        148u8 => '\u{00F6}',
        149u8 => '\u{00F2}',
        150u8 => '\u{00FB}',
        151u8 => '\u{00F9}',
        152u8 => '\u{00FF}',
        153u8 => '\u{00D6}',
        154u8 => '\u{00DC}',
        155u8 => '\u{00A2}',
        156u8 => '\u{00A3}',
        157u8 => '\u{00A5}',
        158u8 => '\u{20A7}',
        159u8 => '\u{0192}',
        160u8 => '\u{00E1}',
        161u8 => '\u{00ED}',
        162u8 => '\u{00F3}',
        163u8 => '\u{00FA}',
        164u8 => '\u{00F1}',
        165u8 => '\u{00D1}',
        166u8 => '\u{00AA}',
        167u8 => '\u{00BA}',
        168u8 => '\u{00BF}',
        169u8 => '\u{2310}',
        170u8 => '\u{00AC}',
        171u8 => '\u{00BD}',
        172u8 => '\u{00BC}',
        173u8 => '\u{00A1}',
        174u8 => '\u{00AB}',
        175u8 => '\u{00BB}',
        176u8 => '\u{2591}',
        177u8 => '\u{2592}',
        178u8 => '\u{2593}',
        179u8 => '\u{2502}',
        180u8 => '\u{2524}',
        181u8 => '\u{2561}',
        182u8 => '\u{2562}',
        183u8 => '\u{2556}',
        184u8 => '\u{2555}',
        185u8 => '\u{2563}',
        186u8 => '\u{2551}',
        187u8 => '\u{2557}',
        188u8 => '\u{255D}',
        189u8 => '\u{255C}',
        190u8 => '\u{255B}',
        191u8 => '\u{2510}',
        192u8 => '\u{2514}',
        193u8 => '\u{2534}',
        194u8 => '\u{252C}',
        195u8 => '\u{251C}',
        196u8 => '\u{2500}',
        197u8 => '\u{253C}',
        198u8 => '\u{255E}',
        199u8 => '\u{255F}',
        200u8 => '\u{255A}',
        201u8 => '\u{2554}',
        202u8 => '\u{2569}',
        203u8 => '\u{2566}',
        204u8 => '\u{2560}',
        205u8 => '\u{2550}',
        206u8 => '\u{256C}',
        207u8 => '\u{2567}',
        208u8 => '\u{2568}',
        209u8 => '\u{2564}',
        210u8 => '\u{2565}',
        211u8 => '\u{2559}',
        212u8 => '\u{2558}',
        213u8 => '\u{2552}',
        214u8 => '\u{2553}',
        215u8 => '\u{256B}',
        216u8 => '\u{256A}',
        217u8 => '\u{2518}',
        218u8 => '\u{250C}',
        219u8 => '\u{2588}',
        220u8 => '\u{2584}',
        221u8 => '\u{258C}',
        222u8 => '\u{2590}',
        223u8 => '\u{2580}',
        224u8 => '\u{03B1}',
        225u8 => '\u{00DF}',
        226u8 => '\u{0393}',
        227u8 => '\u{03C0}',
        228u8 => '\u{03A3}',
        229u8 => '\u{03C3}',
        230u8 => '\u{00B5}',
        231u8 => '\u{03C4}',
        232u8 => '\u{03A6}',
        233u8 => '\u{0398}',
        234u8 => '\u{03A9}',
        235u8 => '\u{03B4}',
        236u8 => '\u{221E}',
        237u8 => '\u{03C6}',
        238u8 => '\u{03B5}',
        239u8 => '\u{2229}',
        240u8 => '\u{2261}',
        241u8 => '\u{00B1}',
        242u8 => '\u{2265}',
        243u8 => '\u{2264}',
        244u8 => '\u{2320}',
        245u8 => '\u{2321}',
        246u8 => '\u{00F7}',
        247u8 => '\u{2248}',
        248u8 => '\u{00B0}',
        249u8 => '\u{2219}',
        250u8 => '\u{00B7}',
        251u8 => '\u{221A}',
        252u8 => '\u{207F}',
        253u8 => '\u{00B2}',
        254u8 => '\u{25A0}',
        255u8 => '\u{00A0}',
    }
}

/// Look up the Unicode character for a CP437 byte. Total: every byte maps to
/// exactly one character.
pub fn cp437_to_unicode(b: u8) -> (c: char)
    ensures
        c == cp437_char(b),
{
    match b {
        0u8 => '\u{0000}',
        1u8 => '\u{263A}',
        2u8 => '\u{263B}',
        3u8 => '\u{2665}',
        4u8 => '\u{2666}',
        5u8 => '\u{2663}',
        6u8 => '\u{2660}',
        7u8 => '\u{2022}',
        8u8 => '\u{25D8}',
        9u8 => '\u{25CB}',
        10u8 => '\u{25D9}',
        11u8 => '\u{2642}',
        12u8 => '\u{2640}',
        13u8 => '\u{266A}',
        14u8 => '\u{266B}',
        15u8 => '\u{263C}',
        16u8 => '\u{25BA}',
        17u8 => '\u{25C4}',
        18u8 => '\u{2195}',
        19u8 => '\u{203C}',
        20u8 => '\u{00B6}',
        21u8 => '\u{00A7}',
        22u8 => '\u{25AC}',
        23u8 => '\u{21A8}',
        24u8 => '\u{2191}',
        25u8 => '\u{2193}',
        26u8 => '\u{2192}',
        27u8 => '\u{2190}',
        28u8 => '\u{221F}',
        29u8 => '\u{2194}',
        30u8 => '\u{25B2}',
        31u8 => '\u{25BC}',
        32u8 => ' ',
        33u8 => '!',
        34u8 => '"',
        35u8 => '#',
        36u8 => '$',
        37u8 => '%',
        38u8 => '&',
        39u8 => '\'',
        40u8 => '(',
        41u8 => ')',
        42u8 => '*',
        43u8 => '+',
        44u8 => ',',
        45u8 => '-',
        46u8 => '.',
        47u8 => '/',
        48u8 => '0',
        49u8 => '1',
        50u8 => '2',
        51u8 => '3',
        52u8 => '4',
        53u8 => '5',
        54u8 => '6',
        55u8 => '7',
        56u8 => '8',
        57u8 => '9',
        58u8 => ':',
        59u8 => ';',
        60u8 => '<',
        61u8 => '=',
        62u8 => '>',
        63u8 => '?',
        64u8 => '@',
        65u8 => 'A',
        66u8 => 'B',
        67u8 => 'C',
        68u8 => 'D',
        69u8 => 'E',
        70u8 => 'F',
        71u8 => 'G',
        72u8 => 'H',
        73u8 => 'I',
        74u8 => 'J',
        75u8 => 'K',
        76u8 => 'L',
        77u8 => 'M',
        78u8 => 'N',
        79u8 => 'O',
        80u8 => 'P',
        81u8 => 'Q',
        82u8 => 'R',
        83u8 => 'S',
        84u8 => 'T',
        85u8 => 'U',
        86u8 => 'V',
        87u8 => 'W',
        88u8 => 'X',
        89u8 => 'Y',
        90u8 => 'Z',
        91u8 => '[',
        92u8 => '\\',
        93u8 => ']',
        94u8 => '^',
        95u8 => '_',
        96u8 => '`',
        97u8 => 'a',
        98u8 => 'b',
        99u8 => 'c',
        100u8 => 'd',
        101u8 => 'e',
        102u8 => 'f',
        103u8 => 'g',
        104u8 => 'h',
        105u8 => 'i',
        106u8 => 'j',
        107u8 => 'k',
        108u8 => 'l',
        109u8 => 'm',
        110u8 => 'n',
        111u8 => 'o',
        112u8 => 'p',
        113u8 => 'q',
        114u8 => 'r',
        115u8 => 's',
        116u8 => 't',
        117u8 => 'u',
        118u8 => 'v',
        119u8 => 'w',
        120u8 => 'x',
        121u8 => 'y',
        122u8 => 'z',
        123u8 => '{',
        124u8 => '|',
        125u8 => '}',
        126u8 => '~',
        127u8 => '\u{2302}',
        128u8 => '\u{00C7}',
        129u8 => '\u{00FC}',
        130u8 => '\u{00E9}',
        131u8 => '\u{00E2}',
        132u8 => '\u{00E4}',
        133u8 => '\u{00E0}',
        134u8 => '\u{00E5}',
        135u8 => '\u{00E7}',
        136u8 => '\u{00EA}',
        137u8 => '\u{00EB}',
        138u8 => '\u{00E8}',
        139u8 => '\u{00EF}',
        140u8 => '\u{00EE}',
        141u8 => '\u{00EC}',
        142u8 => '\u{00C4}',
        143u8 => '\u{00C5}',
        144u8 => '\u{00C9}',
        145u8 => '\u{00E6}',
        146u8 => '\u{00C6}',
        147u8 => '\u{00F4}',
        148u8 => '\u{00F6}',
        149u8 => '\u{00F2}',
        150u8 => '\u{00FB}',
        151u8 => '\u{00F9}',
        152u8 => '\u{00FF}',
        153u8 => '\u{00D6}',
        154u8 => '\u{00DC}',
        155u8 => '\u{00A2}',
        156u8 => '\u{00A3}',
        157u8 => '\u{00A5}',
        158u8 => '\u{20A7}',
        159u8 => '\u{0192}',
        160u8 => '\u{00E1}',
        161u8 => '\u{00ED}',
        162u8 => '\u{00F3}',
        163u8 => '\u{00FA}',
        164u8 => '\u{00F1}',
        165u8 => '\u{00D1}',
        166u8 => '\u{00AA}',
        167u8 => '\u{00BA}',
        168u8 => '\u{00BF}',
        169u8 => '\u{2310}',
        170u8 => '\u{00AC}',
        171u8 => '\u{00BD}',
        172u8 => '\u{00BC}',
        173u8 => '\u{00A1}',
        174u8 => '\u{00AB}',
        175u8 => '\u{00BB}',
        176u8 => '\u{2591}',
        177u8 => '\u{2592}',
        178u8 => '\u{2593}',
        179u8 => '\u{2502}',
        180u8 => '\u{2524}',
        181u8 => '\u{2561}',
        182u8 => '\u{2562}',
        183u8 => '\u{2556}',
        184u8 => '\u{2555}',
        185u8 => '\u{2563}',
        186u8 => '\u{2551}',
        187u8 => '\u{2557}',
        188u8 => '\u{255D}',
        189u8 => '\u{255C}',
        190u8 => '\u{255B}',
        191u8 => '\u{2510}',
        192u8 => '\u{2514}',
        193u8 => '\u{2534}',
        194u8 => '\u{252C}',
        195u8 => '\u{251C}',
        196u8 => '\u{2500}',
        197u8 => '\u{253C}',
        198u8 => '\u{255E}',
        199u8 => '\u{255F}',
        200u8 => '\u{255A}',
        201u8 => '\u{2554}',
        202u8 => '\u{2569}',
        203u8 => '\u{2566}',
        204u8 => '\u{2560}',
        205u8 => '\u{2550}',
        206u8 => '\u{256C}',
        207u8 => '\u{2567}',
        208u8 => '\u{2568}',
        209u8 => '\u{2564}',
        210u8 => '\u{2565}',
        211u8 => '\u{2559}',
        212u8 => '\u{2558}',
        213u8 => '\u{2552}',
        214u8 => '\u{2553}',
        215u8 => '\u{256B}',
        216u8 => '\u{256A}',
        217u8 => '\u{2518}',
        218u8 => '\u{250C}',
        219u8 => '\u{2588}',
        220u8 => '\u{2584}',
        221u8 => '\u{258C}',
        222u8 => '\u{2590}',
        223u8 => '\u{2580}',
        224u8 => '\u{03B1}',
        225u8 => '\u{00DF}',
        226u8 => '\u{0393}',
        227u8 => '\u{03C0}',
        228u8 => '\u{03A3}',
        229u8 => '\u{03C3}',
        230u8 => '\u{00B5}',
        231u8 => '\u{03C4}',
        232u8 => '\u{03A6}',
        233u8 => '\u{0398}',
        234u8 => '\u{03A9}',
        235u8 => '\u{03B4}',
        236u8 => '\u{221E}',
        237u8 => '\u{03C6}',
        238u8 => '\u{03B5}',
        239u8 => '\u{2229}',
        240u8 => '\u{2261}',
        241u8 => '\u{00B1}',
        242u8 => '\u{2265}',
        243u8 => '\u{2264}',
        244u8 => '\u{2320}',
        245u8 => '\u{2321}',
        246u8 => '\u{00F7}',
        247u8 => '\u{2248}',
        248u8 => '\u{00B0}',
        249u8 => '\u{2219}',
        250u8 => '\u{00B7}',
        251u8 => '\u{221A}',
        252u8 => '\u{207F}',
        253u8 => '\u{00B2}',
        254u8 => '\u{25A0}',
        255u8 => '\u{00A0}',
    }
}

} // verus!
