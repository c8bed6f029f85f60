//! The hydrated records a candidate is built from. Their wire form (camelCase JSON) is given to
//! copies of these types outside the library.

use vstd::prelude::*;
use crate::text::{chars_of, normalize_handle, normalize_handle_chars};
use crate::unicode::string_from_chars;

verus! {

#[derive(Debug, Clone, PartialEq, Default)]
pub struct PureCoreData {
    pub author_id: u64,
    pub text: String,
    pub source_tweet_id: Option<u64>,
    pub source_user_id: Option<u64>,
    pub in_reply_to_tweet_id: Option<u64>,
    pub in_reply_to_user_id: Option<u64>,
}

#[derive(Debug, Clone, PartialEq, Default)]
pub struct ExclusiveTweetControl {
    pub conversation_author_id: i64,
}

pub type MediaEntities = Vec<MediaEntity>;

#[derive(Debug, Clone, PartialEq, Default)]
pub struct MediaEntity {
    pub media_info: Option<MediaInfo>,
}

#[derive(Debug, Clone, PartialEq)]
pub enum MediaInfo {
    VideoInfo(VideoInfo),
}

#[derive(Debug, Clone, PartialEq, Default)]
pub struct VideoInfo {
    pub duration_millis: i32,
}

#[derive(Debug, Clone, PartialEq, Default)]
pub struct Share {
    pub source_tweet_id: u64,
    pub source_user_id: u64,
}

#[derive(Debug, Clone, PartialEq, Default)]
pub struct Reply {
    pub in_reply_to_tweet_id: Option<u64>,
    pub in_reply_to_user_id: u64,
}

#[derive(Debug, Clone, PartialEq, Default)]
pub struct GizmoduckUserCounts {
    pub followers_count: u32,
}

#[derive(Debug, Clone, PartialEq, Default)]
pub struct GizmoduckUserProfile {
    pub screen_name: String,
}

/// The affiliate badge: the parent-organization mark beside a handle, granted and revoked by that
/// organization through Verified Organizations. Only the parent handle is named, and only as a
/// string; a payload that carries the handle elsewhere leaves it `None`.
#[derive(Debug, Clone, PartialEq, Default)]
pub struct GizmoduckAffiliateLabel {
    pub screen_name: Option<String>,
}

/// The parent handle a label yields: normalized, and only when something is left.
pub open spec fn label_parent_handle(screen_name: Option<Seq<char>>) -> Option<Seq<char>> {
    match screen_name {
        Some(s) => if normalize_handle(s).len() > 0 {
            Some(normalize_handle(s))
        } else {
            None
        },
        None => None,
    }
}

pub open spec fn opt_string_chars(o: Option<String>) -> Option<Seq<char>> {
    match o {
        Some(s) => Some(s@),
        None => None,
    }
}

impl GizmoduckAffiliateLabel {
    /// The parent organization's handle, normalized: lowercase, no leading '@'.
    pub fn parent_handle(&self) -> (r: Option<String>)
        ensures
            opt_string_chars(r) == label_parent_handle(opt_string_chars(self.screen_name)),
    {
        match &self.screen_name {
            Some(handle) => {
                let normalized = normalize_handle_chars(&chars_of(handle.as_str()));
                if normalized.len() > 0 {
                    Some(string_from_chars(&normalized))
                } else {
                    None
                }
            },
            None => None,
        }
    }
}

#[derive(Debug, Clone, PartialEq, Default)]
pub struct GizmoduckUser {
    pub user_id: u64,
    pub profile: GizmoduckUserProfile,
    pub counts: GizmoduckUserCounts,
    pub affiliate_label: Option<GizmoduckAffiliateLabel>,
}

#[derive(Debug, Clone, PartialEq, Default)]
pub struct GizmoduckUserResult {
    pub user: Option<GizmoduckUser>,
}

} // verus!
