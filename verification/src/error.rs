//! Why an inspection stops.

use vstd::prelude::*;
use vstd::string::StringExecFns;

verus! {

/// Every failure is fatal for the inspection that meets it: no partial report
/// is ever produced.
#[derive(Debug)]
pub enum InspectError {
    /// The bytes are not a structurally valid PE/COFF image.
    MalformedImage,
    /// The `.osrel` section is present but is not `KEY=VALUE` text.
    MalformedOsRelease,
    /// A required section is absent; carries the section's name.
    SectionNotFound(String),
    /// The section table claims a range outside the file; carries the
    /// section's name.
    InvalidSectionBounds(String),
}

/// `InspectError` with its strings as character sequences.
pub enum InspectFailure {
    MalformedImage,
    MalformedOsRelease,
    SectionNotFound(Seq<char>),
    InvalidSectionBounds(Seq<char>),
}

impl View for InspectError {
    type V = InspectFailure;

    open spec fn view(&self) -> InspectFailure {
        match self {
            InspectError::MalformedImage => InspectFailure::MalformedImage,
            InspectError::MalformedOsRelease => InspectFailure::MalformedOsRelease,
            InspectError::SectionNotFound(name) => InspectFailure::SectionNotFound(name@),
            InspectError::InvalidSectionBounds(name) => InspectFailure::InvalidSectionBounds(
                name@,
            ),
        }
    }
}

/// The text `InspectError::message` gives for a failure.
pub open spec fn failure_text(failure: InspectFailure) -> Seq<char> {
    match failure {
        InspectFailure::MalformedImage => "not a valid PE/EFI image"@,
        InspectFailure::MalformedOsRelease => "malformed os-release text in the UKI"@,
        InspectFailure::SectionNotFound(name) => "no "@ + name + " section found in the UKI"@,
        InspectFailure::InvalidSectionBounds(name) => "section "@ + name
            + " lies outside the UKI file"@,
    }
}

impl InspectError {
    /// A one-line description that names the section concerned, if any.
    pub fn message(&self) -> (text: String)
        ensures
            text@ == failure_text(self@),
    {
        match self {
            InspectError::MalformedImage => String::from_str("not a valid PE/EFI image"),
            InspectError::MalformedOsRelease => String::from_str(
                "malformed os-release text in the UKI",
            ),
            InspectError::SectionNotFound(name) => {
                let mut text = String::from_str("no ");
                text.append(name.as_str());
                text.append(" section found in the UKI");
                text
            },
            InspectError::InvalidSectionBounds(name) => {
                let mut text = String::from_str("section ");
                text.append(name.as_str());
                text.append(" lies outside the UKI file");
                text
            },
        }
    }
}

} // verus!
