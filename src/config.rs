use vstd::prelude::*;

use crate::types::ScoringAction;

verus! {

pub const DEFAULT_SLUG_MIN_LEN: u32 = 5;
pub const DEFAULT_SLUG_MAX_LEN: u32 = 50;
pub const DEFAULT_IPFS_HASH_LEN: u32 = 46;
pub const DEFAULT_USERNAME_MIN_LEN: u32 = 3;
pub const DEFAULT_USERNAME_MAX_LEN: u32 = 50;

pub const DEFAULT_UPVOTE_POST_ACTION_WEIGHT: i16 = 5;
pub const DEFAULT_DOWNVOTE_POST_ACTION_WEIGHT: i16 = -3;
pub const DEFAULT_SHARE_POST_ACTION_WEIGHT: i16 = 5;
pub const DEFAULT_CREATE_COMMENT_ACTION_WEIGHT: i16 = 5;
pub const DEFAULT_UPVOTE_COMMENT_ACTION_WEIGHT: i16 = 4;
pub const DEFAULT_DOWNVOTE_COMMENT_ACTION_WEIGHT: i16 = -2;
pub const DEFAULT_SHARE_COMMENT_ACTION_WEIGHT: i16 = 3;
pub const DEFAULT_FOLLOW_BLOG_ACTION_WEIGHT: i16 = 7;
pub const DEFAULT_FOLLOW_ACCOUNT_ACTION_WEIGHT: i16 = 3;

/// Length bounds for validated fields and the weight of each scoring action.
#[derive(Clone, Copy, Debug, PartialEq, Eq, Structural)]
pub struct Config {
    pub slug_min_len: u32,
    pub slug_max_len: u32,
    pub ipfs_hash_len: u32,
    pub username_min_len: u32,
    pub username_max_len: u32,
    pub upvote_post_action_weight: i16,
    pub downvote_post_action_weight: i16,
    pub share_post_action_weight: i16,
    pub create_comment_action_weight: i16,
    pub upvote_comment_action_weight: i16,
    pub downvote_comment_action_weight: i16,
    pub share_comment_action_weight: i16,
    pub follow_blog_action_weight: i16,
    pub follow_account_action_weight: i16,
}

impl Config {
    pub open spec fn weight_of(&self, action: ScoringAction) -> i16 {
        match action {
            ScoringAction::UpvotePost => self.upvote_post_action_weight,
            ScoringAction::DownvotePost => self.downvote_post_action_weight,
            ScoringAction::SharePost => self.share_post_action_weight,
            ScoringAction::CreateComment => self.create_comment_action_weight,
            ScoringAction::UpvoteComment => self.upvote_comment_action_weight,
            ScoringAction::DownvoteComment => self.downvote_comment_action_weight,
            ScoringAction::ShareComment => self.share_comment_action_weight,
            ScoringAction::FollowBlog => self.follow_blog_action_weight,
            ScoringAction::FollowAccount => self.follow_account_action_weight,
        }
    }

    /// The configured weight of `action`.
    pub fn weight(&self, action: ScoringAction) -> (r: i16)
        ensures
            r == self.weight_of(action),
    {
        match action {
            ScoringAction::UpvotePost => self.upvote_post_action_weight,
            ScoringAction::DownvotePost => self.downvote_post_action_weight,
            ScoringAction::SharePost => self.share_post_action_weight,
            ScoringAction::CreateComment => self.create_comment_action_weight,
            ScoringAction::UpvoteComment => self.upvote_comment_action_weight,
            ScoringAction::DownvoteComment => self.downvote_comment_action_weight,
            ScoringAction::ShareComment => self.share_comment_action_weight,
            ScoringAction::FollowBlog => self.follow_blog_action_weight,
            ScoringAction::FollowAccount => self.follow_account_action_weight,
        }
    }
}

impl Default for Config {
    fn default() -> (r: Config)
        ensures
            r.slug_min_len == DEFAULT_SLUG_MIN_LEN,
            r.slug_max_len == DEFAULT_SLUG_MAX_LEN,
            r.ipfs_hash_len == DEFAULT_IPFS_HASH_LEN,
            r.username_min_len == DEFAULT_USERNAME_MIN_LEN,
            r.username_max_len == DEFAULT_USERNAME_MAX_LEN,
            r.upvote_post_action_weight == DEFAULT_UPVOTE_POST_ACTION_WEIGHT,
            r.downvote_post_action_weight == DEFAULT_DOWNVOTE_POST_ACTION_WEIGHT,
            r.share_post_action_weight == DEFAULT_SHARE_POST_ACTION_WEIGHT,
            r.create_comment_action_weight == DEFAULT_CREATE_COMMENT_ACTION_WEIGHT,
            r.upvote_comment_action_weight == DEFAULT_UPVOTE_COMMENT_ACTION_WEIGHT,
            r.downvote_comment_action_weight == DEFAULT_DOWNVOTE_COMMENT_ACTION_WEIGHT,
            r.share_comment_action_weight == DEFAULT_SHARE_COMMENT_ACTION_WEIGHT,
            r.follow_blog_action_weight == DEFAULT_FOLLOW_BLOG_ACTION_WEIGHT,
            r.follow_account_action_weight == DEFAULT_FOLLOW_ACCOUNT_ACTION_WEIGHT,
    {
        Config {
            slug_min_len: DEFAULT_SLUG_MIN_LEN,
            slug_max_len: DEFAULT_SLUG_MAX_LEN,
            ipfs_hash_len: DEFAULT_IPFS_HASH_LEN,
            username_min_len: DEFAULT_USERNAME_MIN_LEN,
            username_max_len: DEFAULT_USERNAME_MAX_LEN,
            upvote_post_action_weight: DEFAULT_UPVOTE_POST_ACTION_WEIGHT,
            downvote_post_action_weight: DEFAULT_DOWNVOTE_POST_ACTION_WEIGHT,
            share_post_action_weight: DEFAULT_SHARE_POST_ACTION_WEIGHT,
            create_comment_action_weight: DEFAULT_CREATE_COMMENT_ACTION_WEIGHT,
            upvote_comment_action_weight: DEFAULT_UPVOTE_COMMENT_ACTION_WEIGHT,
            downvote_comment_action_weight: DEFAULT_DOWNVOTE_COMMENT_ACTION_WEIGHT,
            share_comment_action_weight: DEFAULT_SHARE_COMMENT_ACTION_WEIGHT,
            follow_blog_action_weight: DEFAULT_FOLLOW_BLOG_ACTION_WEIGHT,
            follow_account_action_weight: DEFAULT_FOLLOW_ACCOUNT_ACTION_WEIGHT,
        }
    }
}

} // verus!
