use vstd::prelude::*;

verus! {

/// A rule of the telegram format that a stream broke.
#[derive(Debug, Clone, Copy, PartialEq, Eq, Structural)]
pub enum ParseError {
    /// The header does not announce the one supported format version.
    UnknownTelegramVersion,
    /// A telegram ended without a date field.
    NoDate,
    /// The information-type marker came twice in one telegram.
    DuplicateFieldId,
    /// A telegram ended without an electricity field, or an electricity
    /// field came before the information-type marker.
    MissingElectricity,
    /// A marker of a nested telegram was met.
    ChildTelegramNotSupported,
}

/// Why parsing a stream stopped. Every failure is final: no telegram of the
/// stream is handed out.
#[derive(Debug, Clone, Copy, PartialEq, Eq, Structural)]
pub enum Failure {
    /// The stream broke a rule of the format.
    Rejected(ParseError),
    /// A line with a known tag does not have the shape of that tag.
    MalformedLine,
    /// A date field is well shaped but names no moment in time.
    InvalidDate,
    /// At the end of a telegram the severities, dates and messages of its
    /// events do not pair up one to one by event id.
    UncorrelatedEventLog,
}

} // verus!
