use vstd::prelude::*;

verus! {

/// The text nix writes for an operating-system error number: its symbolic
/// name and its description.
pub uninterp spec fn errno_text(code: i32) -> Seq<char>;

/// Relies on nix's `Errno::from_raw` and its `Display` impl, which writes the
/// symbolic name of the error number followed by its description. The text
/// depends on the number alone.
#[verifier::external_body]
fn errno_message(code: i32) -> (r: String)
    ensures
        r@ == errno_text(code),
{
    nix::errno::Errno::from_raw(code).to_string()
}

/// Every failure the library reports. Each kind carries what describes it:
/// the error number of a failed system call, or a message.
#[derive(Debug, Clone, PartialEq, Eq)]
pub enum Error {
    /// A system call failed with this error number (never EAGAIN or EINTR).
    Io(i32),
    /// A socket could not be established.
    Connect(String),
    /// Bytes or a message did not have the shape of the wire schema.
    SerDe(String),
    /// A peer address could not be resolved.
    GetAddr(String),
    /// A peer address could not be parsed.
    ParseAddr(String),
    /// A message broke what the protocol expects at this point.
    ProtocolError(String),
    /// The transport used to obtain credentials failed.
    HttpError(String),
    /// A streaming handler got an event it did not expect in its state.
    StreamError(String),
    /// Anything else a collaborator reports.
    OtherError(String),
}

impl Error {
    /// The text that describes this error.
    pub open spec fn message_spec(&self) -> Seq<char> {
        match self {
            Error::Io(code) => errno_text(*code),
            Error::Connect(s) => s@,
            Error::SerDe(s) => s@,
            Error::GetAddr(s) => s@,
            Error::ParseAddr(s) => s@,
            Error::ProtocolError(s) => s@,
            Error::HttpError(s) => s@,
            Error::StreamError(s) => s@,
            Error::OtherError(s) => s@,
        }
    }

    /// Renders the error as text: the description of the error number for a
    /// failed system call, the carried message for every other kind.
    pub fn message(&self) -> (r: String)
        ensures
            r@ == self.message_spec(),
    {
        match self {
            Error::Io(code) => errno_message(*code),
            Error::Connect(s) => s.clone(),
            Error::SerDe(s) => s.clone(),
            Error::GetAddr(s) => s.clone(),
            Error::ParseAddr(s) => s.clone(),
            Error::ProtocolError(s) => s.clone(),
            Error::HttpError(s) => s.clone(),
            Error::StreamError(s) => s.clone(),
            Error::OtherError(s) => s.clone(),
        }
    }
}

} // verus!
