//! The launcher's error type.
use vstd::prelude::*;

verus! {

/// What went wrong, by the part of the launcher that failed, with a message.
#[derive(Debug, PartialEq, Eq)]
pub enum LauncherError {
    /// The operating system refused an operation (a window, a process).
    System(String),
    /// The Windows registry did not hold what was looked up.
    Registry(String),
    /// A request or a download did not pass the launcher's checks.
    Validation(String),
    /// A file-system operation failed.
    Io(String),
    /// An HTTP request failed.
    Reqwest(String),
}

/// The kind and message of an error.
#[verifier::ext_equal]
pub enum ErrorView {
    System(Seq<char>),
    Registry(Seq<char>),
    Validation(Seq<char>),
    Io(Seq<char>),
    Reqwest(Seq<char>),
}

impl View for LauncherError {
    type V = ErrorView;

    open spec fn view(&self) -> ErrorView {
        match self {
            LauncherError::System(m) => ErrorView::System(m@),
            LauncherError::Registry(m) => ErrorView::Registry(m@),
            LauncherError::Validation(m) => ErrorView::Validation(m@),
            LauncherError::Io(m) => ErrorView::Io(m@),
            LauncherError::Reqwest(m) => ErrorView::Reqwest(m@),
        }
    }
}

impl LauncherError {
    /// A copy of the error.
    pub fn duplicate(&self) -> (r: LauncherError)
        ensures
            r@ == self@,
    {
        match self {
            LauncherError::System(m) => LauncherError::System(m.clone()),
            LauncherError::Registry(m) => LauncherError::Registry(m.clone()),
            LauncherError::Validation(m) => LauncherError::Validation(m.clone()),
            LauncherError::Io(m) => LauncherError::Io(m.clone()),
            LauncherError::Reqwest(m) => LauncherError::Reqwest(m.clone()),
        }
    }

    /// The message carried by the error.
    pub open spec fn message_view(&self) -> Seq<char> {
        match self {
            LauncherError::System(m) => m@,
            LauncherError::Registry(m) => m@,
            LauncherError::Validation(m) => m@,
            LauncherError::Io(m) => m@,
            LauncherError::Reqwest(m) => m@,
        }
    }

    /// The message carried by the error.
    pub fn message(&self) -> (r: &String)
        ensures
            r@ == self.message_view(),
    {
        match self {
            LauncherError::System(m) => m,
            LauncherError::Registry(m) => m,
            LauncherError::Validation(m) => m,
            LauncherError::Io(m) => m,
            LauncherError::Reqwest(m) => m,
        }
    }
}

} // verus!
