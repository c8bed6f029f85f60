pub mod suppressed_authors_filter;
pub mod template_spam_filter;
pub mod feed_quality_filter;
pub mod previously_served_posts_filter;
pub mod previously_seen_posts_backup_filter;
