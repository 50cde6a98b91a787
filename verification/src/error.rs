use vstd::prelude::*;

verus! {

/// Why a response from the programmer or a database record could not be decoded.
#[derive(Debug, Clone, PartialEq, Eq)]
pub enum EzpError {
    /// The response does not start with the header that the command expects.
    UnexpectedResponse,
    /// The text bytes are not valid UTF-8; holds std's message for the error.
    InvalidUtf8(String),
    /// A fixed-size text field holds no NUL terminator.
    NoTerminator,
}

/// An error, with its message as characters.
pub enum EzpErrorView {
    UnexpectedResponse,
    InvalidUtf8(Seq<char>),
    NoTerminator,
}

impl View for EzpError {
    type V = EzpErrorView;

    open spec fn view(&self) -> EzpErrorView {
        match self {
            EzpError::UnexpectedResponse => EzpErrorView::UnexpectedResponse,
            EzpError::InvalidUtf8(m) => EzpErrorView::InvalidUtf8(m@),
            EzpError::NoTerminator => EzpErrorView::NoTerminator,
        }
    }
}

/// The text by which an error is reported.
pub open spec fn error_text(e: EzpErrorView) -> Seq<char> {
    match e {
        EzpErrorView::UnexpectedResponse => "No"@,
        EzpErrorView::InvalidUtf8(m) => m,
        EzpErrorView::NoTerminator => "No terminator"@,
    }
}

impl EzpError {
    /// The text by which this error is reported: "No" for an unexpected
    /// response, "No terminator" for a field without terminator, and std's
    /// UTF-8 error message for invalid text.
    pub fn to_string(&self) -> (s: String)
        ensures
            s@ == error_text(self@),
    {
        match self {
            EzpError::UnexpectedResponse => "No".to_owned(),
            EzpError::InvalidUtf8(m) => m.clone(),
            EzpError::NoTerminator => "No terminator".to_owned(),
        }
    }
}

/// An error's view keeps its kind and, for invalid text, its message; an
/// unexpected response reads "No" and a missing terminator "No terminator".
pub proof fn error_views_and_texts(m: String)
    ensures
        EzpError::UnexpectedResponse@ == EzpErrorView::UnexpectedResponse,
        EzpError::NoTerminator@ == EzpErrorView::NoTerminator,
        EzpError::InvalidUtf8(m)@ == EzpErrorView::InvalidUtf8(m@),
        error_text(EzpErrorView::UnexpectedResponse) == "No"@,
        error_text(EzpErrorView::NoTerminator) == "No terminator"@,
        error_text(EzpErrorView::InvalidUtf8(m@)) == m@,
{
}

} // verus!
