//! The failures a synchronisation operation reports.

use vstd::prelude::*;

verus! {

/// Why an operation failed. Every failure ends the operation it occurs in.
#[derive(Clone, Debug, PartialEq, Eq)]
pub enum SyncError {
    /// The local file system refused a read or a write.
    Io(String),
    /// The remote store could not be reached, answered with a failure
    /// status, or answered with a document that does not have the expected
    /// shape. Rejected credentials are reported this way too.
    Remote(String),
    /// The caller passed a value the operation does not accept.
    InvalidArgument(String),
}

pub ghost enum SyncErrorView {
    Io(Seq<char>),
    Remote(Seq<char>),
    InvalidArgument(Seq<char>),
}

impl View for SyncError {
    type V = SyncErrorView;

    open spec fn view(&self) -> SyncErrorView {
        match self {
            SyncError::Io(m) => SyncErrorView::Io(m@),
            SyncError::Remote(m) => SyncErrorView::Remote(m@),
            SyncError::InvalidArgument(m) => SyncErrorView::InvalidArgument(m@),
        }
    }
}

impl SyncErrorView {
    /// The text carried by the failure.
    pub open spec fn message(self) -> Seq<char> {
        match self {
            SyncErrorView::Io(m) => m,
            SyncErrorView::Remote(m) => m,
            SyncErrorView::InvalidArgument(m) => m,
        }
    }
}

impl SyncError {
    /// The text carried by the failure.
    pub fn message(&self) -> (text: String)
        ensures
            text@ == self@.message(),
    {
        match self {
            SyncError::Io(m) => m.clone(),
            SyncError::Remote(m) => m.clone(),
            SyncError::InvalidArgument(m) => m.clone(),
        }
    }

    /// A copy of the failure.
    pub fn duplicate(&self) -> (copy: SyncError)
        ensures
            copy@ == self@,
    {
        match self {
            SyncError::Io(m) => SyncError::Io(m.clone()),
            SyncError::Remote(m) => SyncError::Remote(m.clone()),
            SyncError::InvalidArgument(m) => SyncError::InvalidArgument(m.clone()),
        }
    }
}

} // verus!
