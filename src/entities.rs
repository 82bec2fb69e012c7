use vstd::prelude::*;

use crate::types::{Change, PostExtension, ReactionKind};

verus! {

#[derive(Clone, Debug, PartialEq, Eq)]
pub struct BlogUpdate {
    pub writers: Option<Vec<u64>>,
    pub slug: Option<Vec<u8>>,
    pub ipfs_hash: Option<Vec<u8>>,
}

#[derive(Clone, Debug, PartialEq, Eq)]
pub struct BlogHistoryRecord {
    pub edited: Change,
    pub old_data: BlogUpdate,
}

#[derive(Clone, Debug, PartialEq, Eq)]
pub struct Blog {
    pub id: u64,
    pub created: Change,
    pub updated: Option<Change>,
    pub writers: Vec<u64>,
    pub slug: Vec<u8>,
    pub ipfs_hash: Vec<u8>,
    pub posts_count: u16,
    pub followers_count: u32,
    pub edit_history: Vec<BlogHistoryRecord>,
    pub score: i32,
}

#[derive(Clone, Debug, PartialEq, Eq)]
pub struct PostUpdate {
    pub blog_id: Option<u64>,
    pub ipfs_hash: Option<Vec<u8>>,
}

#[derive(Clone, Debug, PartialEq, Eq)]
pub struct PostHistoryRecord {
    pub edited: Change,
    pub old_data: PostUpdate,
}

#[derive(Clone, Debug, PartialEq, Eq)]
pub struct Post {
    pub id: u64,
    pub blog_id: u64,
    pub created: Change,
    pub updated: Option<Change>,
    pub extension: PostExtension,
    pub ipfs_hash: Vec<u8>,
    pub comments_count: u16,
    pub upvotes_count: u16,
    pub downvotes_count: u16,
    pub shares_count: u16,
    pub edit_history: Vec<PostHistoryRecord>,
    pub score: i32,
}

#[derive(Clone, Debug, PartialEq, Eq)]
pub struct CommentUpdate {
    pub ipfs_hash: Vec<u8>,
}

#[derive(Clone, Debug, PartialEq, Eq)]
pub struct CommentHistoryRecord {
    pub edited: Change,
    pub old_data: CommentUpdate,
}

#[derive(Clone, Debug, PartialEq, Eq)]
pub struct Comment {
    pub id: u64,
    pub parent_id: Option<u64>,
    pub post_id: u64,
    pub created: Change,
    pub updated: Option<Change>,
    pub ipfs_hash: Vec<u8>,
    pub upvotes_count: u16,
    pub downvotes_count: u16,
    pub shares_count: u16,
    pub direct_replies_count: u16,
    pub edit_history: Vec<CommentHistoryRecord>,
    pub score: i32,
}

#[derive(Clone, Copy, Debug, PartialEq, Eq, Structural)]
pub struct Reaction {
    pub id: u64,
    pub created: Change,
    pub updated: Option<Change>,
    pub kind: ReactionKind,
}

#[derive(Clone, Debug, PartialEq, Eq)]
pub struct ProfileUpdate {
    pub username: Option<Vec<u8>>,
    pub ipfs_hash: Option<Vec<u8>>,
}

#[derive(Clone, Debug, PartialEq, Eq)]
pub struct ProfileHistoryRecord {
    pub edited: Change,
    pub old_data: ProfileUpdate,
}

#[derive(Clone, Debug, PartialEq, Eq)]
pub struct Profile {
    pub created: Change,
    pub updated: Option<Change>,
    pub username: Vec<u8>,
    pub ipfs_hash: Vec<u8>,
    pub edit_history: Vec<ProfileHistoryRecord>,
}

#[derive(Clone, Debug, PartialEq, Eq)]
pub struct SocialAccount {
    pub followers_count: u32,
    pub following_accounts_count: u16,
    pub following_blogs_count: u16,
    pub reputation: u32,
    pub profile: Option<Profile>,
}

} // verus!
