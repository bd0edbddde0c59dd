use vstd::prelude::*;

verus! {

/// Every failure that the compositor core reports.
#[derive(Debug, PartialEq, Eq)]
pub enum CompError {
    /// An event named a window that the tracker does not know.
    UntrackedWindow(u32),
    /// A `ConfigureNotify` named an `above_sibling` that the tracker does not know.
    SiblingNotFound(u32),
    /// A GL program lacks something it needs (a compile or link log, or a missing uniform).
    Shader(String),
    /// The draw description was given unusable geometry.
    Config(String),
    /// An ad-hoc diagnostic.
    Str(String),
}

} // verus!
