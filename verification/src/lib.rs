//! Release planning for a repository that holds several packages.
//!
//! For each package the library works out, from the commits since the
//! package's latest release tag, the size of the next version step, the next
//! version, and the section that the version adds to the changelog. It then
//! finds the packages that have to follow because a package they depend on
//! was given a new version. It reads no file and runs no command: whoever
//! drives a release hands it text and carries out what it decides.
//!
//! # Modules
//!
//! - [`text`], [`pieces`], [`number`]: text as sequences of characters;
//!   searching, splitting, lines, decimal numbers.
//! - [`version`]: the next version of a package.
//! - [`compare`]: the order of versions.
//! - [`tags`]: release tags and the latest tag of a package.
//! - [`commits`]: commit lines, their changelog entries and the step they ask for.
//! - [`changelog`]: the section of a version and its place in the changelog.
//! - [`markers`]: version markers in further files of a package.
//! - [`metadata`]: name and version in the metadata of a package.
//! - [`package`]: packages, the record of what changed, and what follows.
//! - [`release`]: the course of the work on one package, tags, the release commit.
//! - [`cli`]: what a run is asked to do.
//! - [`pattern`]: regular expressions.
//!
//! # What is proved and what is not
//!
//! Every function states in its contract what it returns, over the views of
//! its arguments, and Verus proves the contract from the body. Five functions
//! are the exception. Their bodies call code that Verus does not read, and
//! their contracts are believed:
//!
//! - `text::push_char` calls `String::push`.
//! - `pattern::capture_pair` and `pattern::find_match` call the crate `regex`.
//! - `metadata::read_member` and `metadata::write_member` call the crate
//!   `serde_json`.
//!
//! The last four say nothing about what the outside code computes. They only
//! give its result a name, [`pattern::captured_pair`], [`pattern::first_match`],
//! [`metadata::member_text`] and [`metadata::with_member`], and the contracts
//! that depend on it speak of that name.

pub mod changelog;
pub mod cli;
pub mod commits;
pub mod compare;
pub mod markers;
pub mod metadata;
pub mod number;
pub mod package;
pub mod pattern;
pub mod pieces;
pub mod release;
pub mod tags;
pub mod text;
pub mod version;
