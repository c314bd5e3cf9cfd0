//! Browsing, filtering and trashing of recorded assistant sessions: the
//! record parser, session metadata, the list/reader state machine and the
//! text layout that the terminal front end draws.
pub mod json;
pub mod parser;
pub mod reader;
pub mod resume;
pub mod scan;
pub mod session;
pub mod text;
pub mod time;
pub mod trash;
pub mod ui;
pub mod util;
