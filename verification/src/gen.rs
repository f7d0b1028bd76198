//! The generated style sheet and script: one CSS rule and one custom
//! element per background-foreground pair of the 16-color CGA palette.

use vstd::prelude::*;
use vstd::string::StringExecFns;
use crate::color::{hex_digit, color_to_hex};
use crate::text::push_char;

verus! {

/// The CGA palette entry for a 4-bit color, as a CSS hex color.
pub open spec fn cga_hex(n: u8) -> Seq<char> {
    if n == 0 { "#000000"@ }
    else if n == 1 { "#0000AA"@ }
    else if n == 2 { "#00AA00"@ }
    else if n == 3 { "#00AAAA"@ }
    else if n == 4 { "#AA0000"@ }
    else if n == 5 { "#AA00AA"@ }
    else if n == 6 { "#AA5500"@ }
    else if n == 7 { "#AAAAAA"@ }
    else if n == 8 { "#555555"@ }
    else if n == 9 { "#5555FF"@ }
    else if n == 10 { "#55FF55"@ }
    else if n == 11 { "#55FFFF"@ }
    else if n == 12 { "#FF5555"@ }
    else if n == 13 { "#FF55FF"@ }
    else if n == 14 { "#FFFF55"@ }
    else if n == 15 { "#FFFFFF"@ }
    else { "#000000"@ }
}

/// The CGA palette entry as executable text.
pub fn cga_color_hex(n: u8) -> (r: &'static str)
    ensures
        r@ == cga_hex(n),
{
    if n == 0 { "#000000" }
    else if n == 1 { "#0000AA" }
    else if n == 2 { "#00AA00" }
    else if n == 3 { "#00AAAA" }
    else if n == 4 { "#AA0000" }
    else if n == 5 { "#AA00AA" }
    else if n == 6 { "#AA5500" }
    else if n == 7 { "#AAAAAA" }
    else if n == 8 { "#555555" }
    else if n == 9 { "#5555FF" }
    else if n == 10 { "#55FF55" }
    else if n == 11 { "#55FFFF" }
    else if n == 12 { "#FF5555" }
    else if n == 13 { "#FF55FF" }
    else if n == 14 { "#FFFF55" }
    else if n == 15 { "#FFFFFF" }
    else { "#000000" }
}

/// The fixed preamble of the style sheet.
pub open spec fn css_header() -> Seq<char> {
    ":root {\n  --ans-font-family: \"IBM VGA 8x16\", \"Perfect DOS VGA 437\", \"Px437 IBM VGA8\", monospace;\n  --ans-font-size: 16px;\n  --ans-line-height: 1;\n}\n\npre.ansi {\n  font-family: var(--ans-font-family);\n  font-size: var(--ans-font-size);\n  line-height: var(--ans-line-height);\n  background-color: #000000;\n  padding: 0;\n  margin: 0;\n  white-space: pre;\n}\n\n"@
}

/// One rule, setting the colors of the element for one pair.
pub open spec fn css_rule(bg: u8, fg: u8) -> Seq<char> {
    "ans-"@ + seq![hex_digit(bg), hex_digit(fg)] + " { background-color: "@ + cga_hex(bg)
        + "; color: "@ + cga_hex(fg) + "; }\n"@
}

/// The first `k` rules of one background's row.
pub open spec fn css_row(bg: u8, k: int) -> Seq<char>
    decreases k,
{
    if k <= 0 {
        Seq::empty()
    } else {
        css_row(bg, k - 1) + css_rule(bg, (k - 1) as u8)
    }
}

/// The rows of the first `k` backgrounds.
pub open spec fn css_rows(k: int) -> Seq<char>
    decreases k,
{
    if k <= 0 {
        Seq::empty()
    } else {
        css_rows(k - 1) + css_row((k - 1) as u8, 16)
    }
}

/// The whole style sheet: the preamble and all 256 rules.
pub open spec fn css_text() -> Seq<char> {
    css_header() + css_rows(16)
}

/// Generate the style sheet for the color elements.
pub fn generate_css() -> (r: String)
    ensures
        r@ == css_text(),
{
    let mut css = String::new();
    css.append(
        ":root {\n  --ans-font-family: \"IBM VGA 8x16\", \"Perfect DOS VGA 437\", \"Px437 IBM VGA8\", monospace;\n  --ans-font-size: 16px;\n  --ans-line-height: 1;\n}\n\npre.ansi {\n  font-family: var(--ans-font-family);\n  font-size: var(--ans-font-size);\n  line-height: var(--ans-line-height);\n  background-color: #000000;\n  padding: 0;\n  margin: 0;\n  white-space: pre;\n}\n\n",
    );
    let mut bg: u8 = 0;
    proof {
        assert(css@ =~= css_header() + css_rows(0));
    }
    while bg < 16
        invariant
            0 <= bg <= 16,
            css@ == css_header() + css_rows(bg as int),
        decreases 16 - bg,
    {
        let mut fg: u8 = 0;
        let ghost row_base = css@;
        while fg < 16
            invariant
                0 <= fg <= 16,
                bg < 16,
                row_base == css_header() + css_rows(bg as int),
                css@ == row_base + css_row(bg, fg as int),
            decreases 16 - fg,
        {
            css.append("ans-");
            let hb = color_to_hex(bg);
            push_char(&mut css, hb);
            let hf = color_to_hex(fg);
            push_char(&mut css, hf);
            css.append(" { background-color: ");
            css.append(cga_color_hex(bg));
            css.append("; color: ");
            css.append(cga_color_hex(fg));
            css.append("; }\n");
            proof {
                assert(css@ =~= row_base + css_row(bg, fg + 1));
            }
            fg = fg + 1;
        }
        proof {
            assert(css@ =~= css_header() + css_rows(bg + 1));
        }
        bg = bg + 1;
    }
    css
}

/// The script defining one custom element per color pair.
pub open spec fn js_text() -> Seq<char> {
    "// ANSI color web components\n(function() {\n  const colors = [\n    \"#000000\", \"#0000AA\", \"#00AA00\", \"#00AAAA\",\n    \"#AA0000\", \"#AA00AA\", \"#AA5500\", \"#AAAAAA\",\n    \"#555555\", \"#5555FF\", \"#55FF55\", \"#55FFFF\",\n    \"#FF5555\", \"#FF55FF\", \"#FFFF55\", \"#FFFFFF\"\n  ];\n\n  const hexChars = \"0123456789ABCDEF\";\n\n  for (let bg = 0; bg < 16; bg++) {\n    for (let fg = 0; fg < 16; fg++) {\n      const tagName = `ans-${hexChars[bg]}${hexChars[fg]}`;\n\n      if (!customElements.get(tagName.toLowerCase())) {\n        const bgColor = colors[bg];\n        const fgColor = colors[fg];\n\n        class AnsElement extends HTMLElement {\n          constructor() {\n            super();\n          }\n\n          connectedCallback() {\n            this.style.backgroundColor = bgColor;\n            this.style.color = fgColor;\n            this.style.display = \"inline\";\n          }\n        }\n\n        customElements.define(tagName.toLowerCase(), AnsElement);\n      }\n    }\n  }\n})();\n"@
}

/// Generate the script that defines the color elements.
pub fn generate_js() -> (r: String)
    ensures
        r@ == js_text(),
{
    String::from_str(
        "// ANSI color web components\n(function() {\n  const colors = [\n    \"#000000\", \"#0000AA\", \"#00AA00\", \"#00AAAA\",\n    \"#AA0000\", \"#AA00AA\", \"#AA5500\", \"#AAAAAA\",\n    \"#555555\", \"#5555FF\", \"#55FF55\", \"#55FFFF\",\n    \"#FF5555\", \"#FF55FF\", \"#FFFF55\", \"#FFFFFF\"\n  ];\n\n  const hexChars = \"0123456789ABCDEF\";\n\n  for (let bg = 0; bg < 16; bg++) {\n    for (let fg = 0; fg < 16; fg++) {\n      const tagName = `ans-${hexChars[bg]}${hexChars[fg]}`;\n\n      if (!customElements.get(tagName.toLowerCase())) {\n        const bgColor = colors[bg];\n        const fgColor = colors[fg];\n\n        class AnsElement extends HTMLElement {\n          constructor() {\n            super();\n          }\n\n          connectedCallback() {\n            this.style.backgroundColor = bgColor;\n            this.style.color = fgColor;\n            this.style.display = \"inline\";\n          }\n        }\n\n        customElements.define(tagName.toLowerCase(), AnsElement);\n      }\n    }\n  }\n})();\n",
    )
}

} // verus!
