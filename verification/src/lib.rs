//! Word pacing and navigation for a rapid-serial-visual-presentation reader:
//! a text is split into words at whitespace and shown one word at a time, at a
//! pace that the user controls.

pub mod byte_index;
pub mod category;
pub mod context;
pub mod playback;
pub mod reader;
pub mod sanitize;
pub mod scan;

pub use byte_index::{char_at, char_at_end, len_utf8};
pub use category::{get_category, CharCategory};
pub use playback::{Command, Notice, Reaction};
pub use reader::App;
pub use sanitize::sanitize_string;
