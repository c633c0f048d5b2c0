use vstd::prelude::*;

verus! {

/// Why an add or refresh pass did not complete. None of them is fatal: the
/// stored state stays as it was before the failing step.
#[derive(Debug, Clone, Copy, PartialEq, Eq, Structural)]
pub enum SyncError {
    /// The address given is not a well-formed absolute URL.
    InvalidUrl,
    /// No feed document could be fetched and parsed, fallbacks included.
    FeedNotFound,
    /// A feed with this address is already stored.
    DuplicateFeed,
    /// The feed asked for is not among the stored feeds.
    MissingFeed,
    /// The store failed for another reason than a uniqueness conflict.
    Store,
}

} // verus!
