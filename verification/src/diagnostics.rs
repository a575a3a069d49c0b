//! Reports of malformed lexemes.
//!
//! The scanner never stops at a malformed lexeme. It skips it and appends a
//! report to its list; what becomes of the reports is the caller's decision.

use vstd::prelude::*;

verus! {

/// One complaint about the text: the line, a location label and a message.
#[derive(Debug, PartialEq, Eq)]
pub struct ErrorReport {
    pub line: i32,
    pub location: String,
    pub message: String,
}

/// What an [`ErrorReport`] is, with texts as sequences of characters.
pub struct ReportView {
    pub line: int,
    pub location: Seq<char>,
    pub message: Seq<char>,
}

impl View for ErrorReport {
    type V = ReportView;

    open spec fn view(&self) -> ReportView {
        ReportView { line: self.line as int, location: self.location@, message: self.message@ }
    }
}

impl Clone for ErrorReport {
    fn clone(&self) -> (res: Self)
        ensures
            res == *self,
    {
        ErrorReport {
            line: self.line,
            location: self.location.clone(),
            message: self.message.clone(),
        }
    }
}

/// The views of a sequence of reports, in order.
pub open spec fn report_views(reports: Seq<ErrorReport>) -> Seq<ReportView> {
    Seq::new(reports.len(), |i: int| reports[i]@)
}

/// The message for a string literal that the text ends in.
pub open spec fn unterminated_string_message() -> Seq<char> {
    "Unterminated string."@
}

/// The message for a character that begins no token.
pub open spec fn unexpected_character_message() -> Seq<char> {
    "Unexpected character."@
}

/// A report at `line` with the given message and an empty location label.
///
/// The scanner labels no location: the label is there for later stages.
pub fn error(line: i32, message: String) -> (report: ErrorReport)
    ensures
        report@ == (ReportView { line: line as int, location: Seq::<char>::empty(), message: message@ }),
{
    ErrorReport { line, location: String::new(), message }
}

} // verus!
