//! The failures of a conversion job.

use vstd::prelude::*;

verus! {

/// What went wrong in a job. Every failure is local to the job it occurred
/// in.
#[derive(Clone, Copy, Debug, PartialEq, Eq, Structural)]
pub enum ErrorKind {
    /// The input path does not lead to a regular file.
    NotAFile,
    /// The image data could not be decoded.
    DecodeFailure,
    /// The image has dimensions no derivative can be planned for.
    InvalidImage,
    /// The output directory could not be created.
    OutputDirectoryFailure,
    /// An encoded derivative could not be written.
    WriteFailure,
    /// Anything that none of the other kinds covers.
    UnexpectedFault,
}

/// A failure of one job: its kind and a message for the operator.
#[derive(Clone, Debug, PartialEq, Eq)]
pub struct ProcessingError {
    pub kind: ErrorKind,
    pub message: String,
}

/// A failure as the contracts speak of it.
pub struct Failure {
    pub kind: ErrorKind,
    pub message: Seq<char>,
}

impl View for ProcessingError {
    type V = Failure;

    open spec fn view(&self) -> Failure {
        Failure { kind: self.kind, message: self.message@ }
    }
}

/// The name under which a kind of failure is reported.
pub open spec fn kind_label(kind: ErrorKind) -> Seq<char> {
    match kind {
        ErrorKind::NotAFile => "NotAFile"@,
        ErrorKind::DecodeFailure => "DecodeFailure"@,
        ErrorKind::InvalidImage => "InvalidImage"@,
        ErrorKind::OutputDirectoryFailure => "OutputDirectoryFailure"@,
        ErrorKind::WriteFailure => "WriteFailure"@,
        ErrorKind::UnexpectedFault => "UnexpectedFault"@,
    }
}

impl ErrorKind {
    /// The name under which this kind of failure is reported.
    pub fn label(self) -> (r: &'static str)
        ensures
            r@ == kind_label(self),
    {
        match self {
            ErrorKind::NotAFile => "NotAFile",
            ErrorKind::DecodeFailure => "DecodeFailure",
            ErrorKind::InvalidImage => "InvalidImage",
            ErrorKind::OutputDirectoryFailure => "OutputDirectoryFailure",
            ErrorKind::WriteFailure => "WriteFailure",
            ErrorKind::UnexpectedFault => "UnexpectedFault",
        }
    }
}

impl ProcessingError {
    /// A failure of the given kind with the given message.
    pub fn new(kind: ErrorKind, message: &str) -> (r: Self)
        ensures
            r.kind == kind,
            r.message@ == message@,
    {
        ProcessingError { kind, message: message.to_owned() }
    }

    /// The text of the report: the kind's label, a colon and the message.
    pub open spec fn report(&self) -> Seq<char> {
        kind_label(self.kind) + ": "@ + self.message@
    }

    /// Renders the failure for a log line or a progress message.
    pub fn describe(&self) -> (r: String)
        ensures
            r@ == self.report(),
    {
        let mut text = self.kind.label().to_owned();
        text.append(": ");
        text.append(self.message.as_str());
        text
    }

    /// A copy of this failure.
    pub fn duplicate(&self) -> (r: Self)
        ensures
            r == *self,
    {
        ProcessingError { kind: self.kind, message: self.message.clone() }
    }
}

} // verus!
