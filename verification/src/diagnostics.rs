//! Fatal conditions of the pipeline, as values.
//!
//! The library never terminates the process: every fatal condition the
//! pipeline can meet is returned as a `Diagnostic`, and the caller decides
//! how to report it. `message` renders the single line the design asks
//! for, with the source line number when one is available.

use vstd::prelude::*;

use crate::strutil::{dec_str, push_char, u32_dec_string};

verus! {

/// A fatal condition, with the source line it came from when known.
#[derive(Debug)]
pub enum Diagnostic {
    /// A metadata key outside the recognized schema.
    UnknownKey { key: String, line: Option<u32> },
    /// A `Date` value that is neither `now` nor a real `YYYY-MM-DD` date.
    BadDate { line: Option<u32> },
    /// A line inside the metadata block that is not a `Key: Value` pair.
    MalformedMetadataLine { line: u32 },
    /// A `Status` short code missing from the status table.
    UnknownStatus { code: String },
    /// No recognized metadata key was provided at all.
    NoMetadata,
}

/// The mathematical shape of a `Diagnostic`.
pub enum DiagnosticV {
    UnknownKey { key: Seq<char>, line: Option<u32> },
    BadDate { line: Option<u32> },
    MalformedMetadataLine { line: u32 },
    UnknownStatus { code: Seq<char> },
    NoMetadata,
}

impl View for Diagnostic {
    type V = DiagnosticV;

    open spec fn view(&self) -> DiagnosticV {
        match self {
            Diagnostic::UnknownKey { key, line } => DiagnosticV::UnknownKey {
                key: key@,
                line: *line,
            },
            Diagnostic::BadDate { line } => DiagnosticV::BadDate { line: *line },
            Diagnostic::MalformedMetadataLine { line } => DiagnosticV::MalformedMetadataLine {
                line: *line,
            },
            Diagnostic::UnknownStatus { code } => DiagnosticV::UnknownStatus { code: code@ },
            Diagnostic::NoMetadata => DiagnosticV::NoMetadata,
        }
    }
}

/// ` at line N`, or nothing where no line is known.
pub open spec fn line_suffix(line: Option<u32>) -> Seq<char> {
    match line {
        Some(n) => " at line "@ + dec_str(n as nat),
        None => Seq::empty(),
    }
}

pub open spec fn message_of(d: DiagnosticV) -> Seq<char> {
    match d {
        DiagnosticV::UnknownKey { key, line } => "Unknown metadata key \""@ + key + "\""@
            + line_suffix(line),
        DiagnosticV::BadDate { line } => "The \"Date\" field must be in the format YYYY-MM-DD"@
            + line_suffix(line),
        DiagnosticV::MalformedMetadataLine { line } => "Incorrectly formatted metadata"@
            + line_suffix(Some(line)),
        DiagnosticV::UnknownStatus { code } => "Unknown status \""@ + code + "\""@,
        DiagnosticV::NoMetadata => "No metadata provided"@,
    }
}

fn append_line_suffix(out: &mut String, line: &Option<u32>)
    ensures
        final(out)@ == old(out)@ + line_suffix(*line),
{
    match line {
        Some(n) => {
            out.append(" at line ");
            let num = u32_dec_string(*n);
            out.append(num.as_str());
        },
        None => {
            assert(old(out)@ + line_suffix(*line) =~= old(out)@);
        },
    }
}

impl Diagnostic {
    /// The single reporting line for this condition.
    pub fn message(&self) -> (r: String)
        ensures
            r@ == message_of(self@),
    {
        match self {
            Diagnostic::UnknownKey { key, line } => {
                let mut out = String::from_str("Unknown metadata key \"");
                out.append(key.as_str());
                out.append("\"");
                append_line_suffix(&mut out, line);
                out
            },
            Diagnostic::BadDate { line } => {
                let mut out = String::from_str(
                    "The \"Date\" field must be in the format YYYY-MM-DD",
                );
                append_line_suffix(&mut out, line);
                out
            },
            Diagnostic::MalformedMetadataLine { line } => {
                let mut out = String::from_str("Incorrectly formatted metadata");
                append_line_suffix(&mut out, &Some(*line));
                out
            },
            Diagnostic::UnknownStatus { code } => {
                let mut out = String::from_str("Unknown status \"");
                out.append(code.as_str());
                out.append("\"");
                out
            },
            Diagnostic::NoMetadata => String::from_str("No metadata provided"),
        }
    }
}

} // verus!
