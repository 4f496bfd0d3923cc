//! Declarations of the outside types that values of this library carry.
use vstd::prelude::*;

verus! {

/// `ratatui::style::Color`: the colour a headline's category is drawn in.
/// Carried through unchanged; nothing inside it is read here.
#[verifier::external_type_specification]
#[verifier::external_body]
pub struct ExColor(ratatui::style::Color);

/// `log::LevelFilter`: the log level given on the command line, carried
/// opaquely.
#[verifier::external_type_specification]
#[verifier::external_body]
pub struct ExLevelFilter(log::LevelFilter);

/// `std::path::PathBuf`: an OPML file path given on the command line,
/// carried opaquely.
#[verifier::external_type_specification]
#[verifier::external_body]
pub struct ExPathBuf(std::path::PathBuf);

} // verus!
