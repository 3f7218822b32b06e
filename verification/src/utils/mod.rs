//! Small pieces the rest of the program shares.
pub mod slashcmd;
pub mod string;
pub mod diff;
pub mod frontmatter;
pub mod media_tags;
pub mod path;
pub mod environment;
pub mod aioqueue;
