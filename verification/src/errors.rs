use vstd::prelude::*;

verus! {

/// Why a unit of work, or a whole batch, could not proceed.
///
/// `Transient` and `EmptyBody` faults are retried by the page fetcher up to
/// its fixed retry budget; the identity faults (`InvalidIdentity`,
/// `MissingExtension`), the consistency fault (`KindMismatch`) and
/// `Pagination` are never retried; `Closed` marks work refused because the
/// process is shutting down.
#[derive(Debug, Clone, PartialEq, Eq)]
pub enum SyncError {
    /// The work item's id is not a well-formed UUID.
    InvalidIdentity,
    /// The expected path exists but is a directory where a file was expected,
    /// or the reverse.
    KindMismatch,
    /// A page fetch wrote zero bytes; treated as a transient upstream fault.
    EmptyBody,
    /// A chapter that is not externally hosted reported no pages at all.
    NoPages,
    /// A page locator carries no filename extension.
    MissingExtension,
    /// The process is shutting down; no new work is started.
    Closed,
    /// The upstream catalog contradicted its own declared total page count.
    Pagination,
    /// A chapter has no associated containing work.
    MissingManga,
    /// A work has no title in any language.
    MissingTitle,
    /// A network-level failure, carried with its description.
    Transient(String),
    /// A local filesystem failure, carried with its description.
    Io(String),
}

/// The fixed description of each error, with the carried detail appended
/// where one is carried.
pub open spec fn message_spec(e: SyncError) -> Seq<char> {
    match e {
        SyncError::InvalidIdentity => "id is not a well-formed UUID"@,
        SyncError::KindMismatch => "existing path has the wrong kind"@,
        SyncError::EmptyBody => "response body was empty"@,
        SyncError::NoPages => "chapter has no pages"@,
        SyncError::MissingExtension => "page locator has no extension"@,
        SyncError::Closed => "closed"@,
        SyncError::Pagination => "chapter pagination contradicts its declared total"@,
        SyncError::MissingManga => "chapter has no associated manga"@,
        SyncError::MissingTitle => "no title present"@,
        SyncError::Transient(m) => "network failure: "@ + m@,
        SyncError::Io(m) => "filesystem failure: "@ + m@,
    }
}

impl SyncError {
    /// A human-readable description of the error.
    pub fn message(&self) -> (r: String)
        ensures
            r@ == message_spec(*self),
    {
        match self {
            SyncError::InvalidIdentity => String::from_str("id is not a well-formed UUID"),
            SyncError::KindMismatch => String::from_str("existing path has the wrong kind"),
            SyncError::EmptyBody => String::from_str("response body was empty"),
            SyncError::NoPages => String::from_str("chapter has no pages"),
            SyncError::MissingExtension => String::from_str("page locator has no extension"),
            SyncError::Closed => String::from_str("closed"),
            SyncError::Pagination => String::from_str(
                "chapter pagination contradicts its declared total",
            ),
            SyncError::MissingManga => String::from_str("chapter has no associated manga"),
            SyncError::MissingTitle => String::from_str("no title present"),
            SyncError::Transient(m) => {
                let mut out = String::from_str("network failure: ");
                out.append(m.as_str());
                out
            },
            SyncError::Io(m) => {
                let mut out = String::from_str("filesystem failure: ");
                out.append(m.as_str());
                out
            },
        }
    }

    /// An identical copy of the error.
    pub fn duplicate(&self) -> (r: SyncError)
        ensures
            r == *self,
    {
        match self {
            SyncError::InvalidIdentity => SyncError::InvalidIdentity,
            SyncError::KindMismatch => SyncError::KindMismatch,
            SyncError::EmptyBody => SyncError::EmptyBody,
            SyncError::NoPages => SyncError::NoPages,
            SyncError::MissingExtension => SyncError::MissingExtension,
            SyncError::Closed => SyncError::Closed,
            SyncError::Pagination => SyncError::Pagination,
            SyncError::MissingManga => SyncError::MissingManga,
            SyncError::MissingTitle => SyncError::MissingTitle,
            SyncError::Transient(m) => SyncError::Transient(m.clone()),
            SyncError::Io(m) => SyncError::Io(m.clone()),
        }
    }
}

} // verus!
