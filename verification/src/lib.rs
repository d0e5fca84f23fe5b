//! Turning raw command-line path arguments into structured locations.
//!
//! A command-line argument such as `src/main.rs:10:4` is ambiguous: the
//! colons may separate a path from a line/column suffix, or they may be
//! literal characters of a filename.  This library decides between the
//! interpretations, using existence on disk as the oracle, and prepares the
//! "open these paths" notification that is sent to an already-running
//! instance of the host application.

pub mod join;
pub mod location;
pub mod notify;
pub mod num;
mod probe;
pub mod resolve;
pub mod split;

pub use join::write_text_with_sep_to;
pub use location::LineCol;
pub use location::Loc;
pub use location::PathObject;
pub use notify::OpenPathsNotification;
pub use notify::PathKind;
pub use notify::build_open_paths;
pub use notify::open_paths_notification;
pub use num::parse_usize;
pub use num::parse_vi_like_syntax;
pub use resolve::parse_file_line_column;
pub use resolve::resolve_against;
pub use resolve::resolve_candidates;
