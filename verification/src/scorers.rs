pub mod affiliated_authors;
pub mod feed_policy_scorer;
pub mod government_authors;
