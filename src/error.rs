//! Why a report could not be read.
use vstd::prelude::*;

verus! {

/// A literal marker of the report layout.
#[derive(Clone, Copy, Debug, PartialEq, Eq, Structural)]
pub enum Anchor {
    /// `" - "`, after the header and after the runner.
    Dash,
    /// `" in "`, before the real-time duration.
    In,
    /// `" by "`, before the runner.
    By,
    /// `" place"`, after the placing.
    Place,
    /// `"In-game time:"`, the only text allowed between the placing and the version.
    InGameTime,
    /// `"Version: "`.
    Version,
    /// The space between the version number and its release date.
    ReleaseDate,
    /// `"Submitted by:"`.
    SubmittedBy,
    /// `" on "`, before the submission date and before the run date.
    On,
    /// `"Played on:"`.
    PlayedOn,
}

/// Which duration of a report failed.
#[derive(Clone, Copy, Debug, PartialEq, Eq, Structural)]
pub enum TimeField {
    Rta,
    Igt,
}

/// Which date of a report failed.
#[derive(Clone, Copy, Debug, PartialEq, Eq, Structural)]
pub enum DateField {
    Release,
    Submission,
    Run,
}

/// The first failure met while reading a report, in the order of its fields.
#[derive(Clone, Copy, Debug, PartialEq, Eq, Structural)]
pub enum ParseError {
    MissingAnchor(Anchor),
    InvalidDifficulty,
    InvalidSeeding,
    InvalidCharacter,
    InvalidGlitching,
    InvalidDuration(TimeField),
    InvalidVersion,
    InvalidDate(DateField),
    InvalidPlacing,
    MissingSeed,
}

} // verus!
