//! Pins and restores the commits of a set of sibling checkouts.
//!
//! A directory holds a number of independent repository checkouts. Taking a
//! snapshot resolves each checkout to the commit it is at and writes the
//! pairs of name and commit identifier to a pin file. Restoring reads a pin
//! file and points each named checkout at its recorded commit again.
//!
//! - [`pin_file`] is the format of the pin file: writing it, cutting it
//!   into lines, reading a line, and the proof that what is written is
//!   read back.
//! - [`recorder`] takes the pins of the checkouts beneath a directory.
//! - [`restorer`] applies a pin file to the checkouts beneath a directory.
//! - [`git`] is the access to repositories that both of them use.
//! - [`identifier`] says what text is a commit identifier.
//! - [`error`] holds the failures.
//! - [`text`] searches text for a character.
//!
//! The library touches no file but the repositories themselves. Listing
//! the directory of checkouts, and reading and writing the pin file, is
//! left to the caller, who hands over the entries and the text.

pub mod error;
pub mod git;
pub mod identifier;
pub mod pin_file;
pub mod recorder;
pub mod restorer;
pub mod text;
