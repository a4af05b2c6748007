//! Verified core of the paperback command-line interface: the argument
//! rules, the interactive line-reading rules, and the text the command line
//! shows and the files it names.

pub mod codewords;
pub mod commands;
pub mod counts;
pub mod echo;
pub mod lines;
pub mod number;
pub mod prompts;
pub mod text;

pub use counts::validate_shard_counts;
pub use lines::read_lines_until_blank;
