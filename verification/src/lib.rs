//! The candidate filters, author classifiers, feed-policy decisions and ad-placement rules of the
//! For You feed, each stated by its contract and proved.

pub mod ads;
pub mod candidate;
pub mod candidate_pipeline;
pub mod filters;
pub mod scorers;
pub mod template;
pub mod text;
pub mod unicode;
