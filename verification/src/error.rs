use vstd::prelude::*;
use vstd::string::StringExecFns;

verus! {

/// Which of the two flakes of a sync a failed lookup belongs to.
#[derive(Clone, Debug, PartialEq, Eq, Structural)]
pub enum Side {
    Source,
    Destination,
}

/// Every failure the library reports.
///
/// Expected bad input (a malformed lock document, an unknown input name,
/// incompatible sources) is always recovered into one of these; no verified
/// function of the crate panics.
#[derive(Clone, Debug, PartialEq, Eq)]
pub enum Error {
    /// The lock document is malformed or misses a required attribute.
    InvalidFlakeLock { reason: String },
    /// An input named by a sync has no `original` or `locked` descriptor.
    MissingOriginalOrLocked { side: Side, name: String },
    /// Source and destination declare distinct source kinds or repositories.
    IncompatibleSources,
    /// The source kind has no override-URL form yet.
    UnsupportedSourceKind { kind: String },
    /// The flake definition holds no `inputs.<name>.url` attribute.
    PathNotFound,
    /// The located value is not a plain, non-interpolated string literal.
    NotAStringLiteral,
    /// The flake definition text does not fit the recognised grammar subset.
    NixParserError(String),
    /// A sync could not be planned or applied.
    SyncError(String),
    /// An opaque repository or transport failure.
    Error(String),
}

impl Error {
    /// The message a caller prints for this error.
    pub fn message(&self) -> (r: String)
        ensures
            r@ == self.message_spec(),
    {
        match self {
            Error::InvalidFlakeLock { reason } => concat2("flake.lock invalid: ", reason.as_str()),
            Error::MissingOriginalOrLocked { side, name } => match side {
                Side::Source => concat3("Couldn't find ", name.as_str(), "'s Original or Locked at source."),
                Side::Destination => concat3(
                    "Couldn't find ",
                    name.as_str(),
                    "'s Original or Locked at destination.",
                ),
            },
            Error::IncompatibleSources => lit(
                "Cannot sync inputs with different type or from different git repository",
            ),
            Error::UnsupportedSourceKind { kind } => concat3("an error happened: \"", kind.as_str(), " is not supported yet\""),
            Error::PathNotFound => lit("nix parser error: \"Couldn't find path\""),
            Error::NotAStringLiteral => lit(
                "nix parser error: \"Input url is not a plain string literal\"",
            ),
            Error::NixParserError(s) => concat3("nix parser error: \"", s.as_str(), "\""),
            Error::SyncError(s) => concat3("sync error: \"", s.as_str(), "\""),
            Error::Error(s) => concat3("an error happened: \"", s.as_str(), "\""),
        }
    }

    /// What `message` returns, spelled over sequences of characters.
    pub open spec fn message_spec(&self) -> Seq<char> {
        match self {
            Error::InvalidFlakeLock { reason } => "flake.lock invalid: "@ + reason@,
            Error::MissingOriginalOrLocked { side, name } => match side {
                Side::Source => "Couldn't find "@ + name@ + "'s Original or Locked at source."@,
                Side::Destination => "Couldn't find "@ + name@
                    + "'s Original or Locked at destination."@,
            },
            Error::IncompatibleSources => "Cannot sync inputs with different type or from different git repository"@,
            Error::UnsupportedSourceKind { kind } => "an error happened: \""@ + kind@
                + " is not supported yet\""@,
            Error::PathNotFound => "nix parser error: \"Couldn't find path\""@,
            Error::NotAStringLiteral => "nix parser error: \"Input url is not a plain string literal\""@,
            Error::NixParserError(s) => "nix parser error: \""@ + s@ + "\""@,
            Error::SyncError(s) => "sync error: \""@ + s@ + "\""@,
            Error::Error(s) => "an error happened: \""@ + s@ + "\""@,
        }
    }
}

/// Copies one piece of text into an owned string.
pub fn lit(a: &str) -> (r: String)
    ensures
        r@ == a@,
{
    a.to_owned()
}

/// Joins two pieces of text into one owned string.
pub fn concat2(a: &str, b: &str) -> (r: String)
    ensures
        r@ == a@ + b@,
{
    let mut s = a.to_owned();
    s.append(b);
    s
}

/// Joins three pieces of text into one owned string.
pub fn concat3(a: &str, b: &str, c: &str) -> (r: String)
    ensures
        r@ == a@ + b@ + c@,
{
    let mut s = a.to_owned();
    s.append(b);
    s.append(c);
    s
}

} // verus!
