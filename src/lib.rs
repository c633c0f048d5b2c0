//! A feed reader's core: the records it stores, the articles it shows, how the
//! "all feeds" view is merged, sorted and deduplicated, how a feed is fetched
//! with retries and a fallback address, and how add and refresh passes decide
//! their outcome from what the store answers.
pub mod article;
pub mod records;
pub mod channel;
pub mod error;
pub mod fetch;
pub mod sync;
pub mod laws;
