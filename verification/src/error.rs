use vstd::prelude::*;
use vstd::string::StringExecFns;

verus! {

/// The ways in which an operation of the store can fail.
#[derive(Clone, Copy, Debug, PartialEq, Eq, Structural)]
pub enum ErrorKind {
    /// The host could not name the application's data directory.
    AppDataDirUnavailable,
    /// The directory that holds the document could not be created.
    DbDirCreateFailed,
    /// The document's file exists but could not be read.
    DbReadFailed,
    /// The document's file does not hold JSON.
    DbParseFailed,
    /// The document could not be written out as JSON.
    DbSerializeFailed,
    /// The document's file could not be written.
    DbWriteFailed,
    /// The document lacks `people` or `tasks`, or one of them is no array.
    DbInvalidShape,
    /// A person cannot be created without a name.
    NameRequired,
    /// A person of that name exists already.
    DuplicateName,
    /// The data directory could not be opened in a file browser.
    OpenDirFailed,
}

/// A failure: its kind and, for the kinds that carry one, a detail for a
/// human reader.
#[derive(Clone, Debug, PartialEq, Eq)]
pub struct StoreError {
    pub kind: ErrorKind,
    pub detail: String,
}

/// What a [`StoreError`] holds.
pub struct StoreErrorView {
    pub kind: ErrorKind,
    pub detail: Seq<char>,
}

impl View for StoreError {
    type V = StoreErrorView;

    open spec fn view(&self) -> StoreErrorView {
        StoreErrorView { kind: self.kind, detail: self.detail@ }
    }
}

/// A failure of `kind` without a detail.
pub open spec fn failure(kind: ErrorKind) -> StoreErrorView {
    StoreErrorView { kind, detail: Seq::empty() }
}

/// The stable code of each kind of failure.
pub open spec fn code_text(kind: ErrorKind) -> Seq<char> {
    match kind {
        ErrorKind::AppDataDirUnavailable => "AppDataDirUnavailable"@,
        ErrorKind::DbDirCreateFailed => "DbDirCreateFailed"@,
        ErrorKind::DbReadFailed => "DbReadFailed"@,
        ErrorKind::DbParseFailed => "DbParseFailed"@,
        ErrorKind::DbSerializeFailed => "DbSerializeFailed"@,
        ErrorKind::DbWriteFailed => "DbWriteFailed"@,
        ErrorKind::DbInvalidShape => "DbInvalidShape"@,
        ErrorKind::NameRequired => "NameRequired"@,
        ErrorKind::DuplicateName => "DuplicateName"@,
        ErrorKind::OpenDirFailed => "OpenDirFailed"@,
    }
}

/// Whether failures of `kind` carry a detail.
pub open spec fn carries_detail(kind: ErrorKind) -> bool {
    !(kind is DbInvalidShape || kind is NameRequired || kind is DuplicateName)
}

/// What the caller is told of a failure: the code and, for the kinds that
/// carry one, a colon, a space and the detail.
pub open spec fn message_text(e: StoreErrorView) -> Seq<char> {
    if carries_detail(e.kind) {
        code_text(e.kind) + ": "@ + e.detail
    } else {
        code_text(e.kind)
    }
}

impl ErrorKind {
    /// The stable code of this kind of failure.
    pub fn code(self) -> (r: &'static str)
        ensures
            r@ == code_text(self),
    {
        match self {
            ErrorKind::AppDataDirUnavailable => "AppDataDirUnavailable",
            ErrorKind::DbDirCreateFailed => "DbDirCreateFailed",
            ErrorKind::DbReadFailed => "DbReadFailed",
            ErrorKind::DbParseFailed => "DbParseFailed",
            ErrorKind::DbSerializeFailed => "DbSerializeFailed",
            ErrorKind::DbWriteFailed => "DbWriteFailed",
            ErrorKind::DbInvalidShape => "DbInvalidShape",
            ErrorKind::NameRequired => "NameRequired",
            ErrorKind::DuplicateName => "DuplicateName",
            ErrorKind::OpenDirFailed => "OpenDirFailed",
        }
    }

    /// Whether failures of this kind carry a detail.
    pub fn has_detail(self) -> (r: bool)
        ensures
            r == carries_detail(self),
    {
        match self {
            ErrorKind::DbInvalidShape | ErrorKind::NameRequired | ErrorKind::DuplicateName => false,
            _ => true,
        }
    }
}

impl StoreError {
    /// A failure of `kind` without a detail.
    pub fn plain(kind: ErrorKind) -> (r: StoreError)
        ensures
            r@ == failure(kind),
    {
        StoreError { kind, detail: String::new() }
    }

    /// A failure of `kind` with the detail `detail`.
    pub fn with_detail(kind: ErrorKind, detail: String) -> (r: StoreError)
        ensures
            r@ == (StoreErrorView { kind, detail: detail@ }),
    {
        StoreError { kind, detail }
    }

    /// What the caller is told of this failure.
    pub fn message(&self) -> (r: String)
        ensures
            r@ == message_text(self@),
    {
        let mut out = String::from_str(self.kind.code());
        if self.kind.has_detail() {
            out.append(": ");
            out.append(self.detail.as_str());
        }
        out
    }
}

} // verus!
