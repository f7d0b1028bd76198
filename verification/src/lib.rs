//! Convert CP437-encoded BBS text art with ANSI escape sequences and BBS
//! color codes (Synchronet Ctrl-A, Renegade pipe) into an HTML fragment that
//! uses custom `<ans-..>` color elements, including SAUCE/COMNT metadata
//! extraction, 256-color and 24-bit RGB SGR modes, HTML escaping and
//! 80-column soft wrapping.

pub mod color;
pub mod convert;
pub mod cp437;
pub mod gen;
pub mod laws;
pub mod numfmt;
pub mod params;
pub mod sauce;
pub mod state;
pub mod text;

pub use convert::{convert, convert_with_options, ConvertOptions};
pub use cp437::cp437_to_unicode;
pub use gen::{generate_css, generate_js};
