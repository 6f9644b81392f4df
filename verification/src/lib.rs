//! Looks up, for packaged Rust crates, the development package that a
//! distribution's package site lists, and tells which ones are missing.
//!
//! The library holds every decision of that lookup and leaves reading the
//! input, sending the requests and writing the log to its caller:
//!
//! - [`text`] trims and splits strings;
//! - [`table`] reads the records off the version table of a page;
//! - [`client`] knows where the page of a package stands and what an
//!   answer of the server means;
//! - [`survey`] goes through the input line by line and counts the
//!   packages that are missing;
//! - [`error`] names what can end a survey.
//!
//! What the library takes from the crates `scraper` and `url`, and from
//! `char::is_whitespace`, it takes as given: `table::select_rows`,
//! `client::push_segments` and the specification of `char::is_whitespace`
//! in [`text`] say what is assumed of them. Everything else is proved.

pub mod client;
pub mod error;
pub mod survey;
pub mod table;
pub mod text;

pub use client::Answer;
pub use client::Client;
pub use error::Error;
pub use survey::Outcome;
pub use survey::Survey;
pub use table::Version;
