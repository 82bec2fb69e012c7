use vstd::prelude::*;

verus! {

/// Who caused a creation or an edit, and when.
#[derive(Clone, Copy, Debug, PartialEq, Eq, Structural)]
pub struct Change {
    pub account: u64,
    pub block: u64,
    pub time: u64,
}

/// The closed set of actions that carry a configured weight.
#[derive(Clone, Copy, Debug, PartialEq, Eq, Structural)]
pub enum ScoringAction {
    UpvotePost,
    DownvotePost,
    SharePost,
    CreateComment,
    UpvoteComment,
    DownvoteComment,
    ShareComment,
    FollowBlog,
    FollowAccount,
}

impl Default for ScoringAction {
    fn default() -> (r: Self)
        ensures
            r == ScoringAction::FollowAccount,
    {
        ScoringAction::FollowAccount
    }
}

#[derive(Clone, Copy, Debug, PartialEq, Eq, Structural)]
pub enum ReactionKind {
    Upvote,
    Downvote,
}

impl Default for ReactionKind {
    fn default() -> (r: Self)
        ensures
            r == ReactionKind::Upvote,
    {
        ReactionKind::Upvote
    }
}

/// A post is either a regular post or a share of another post or comment.
#[derive(Clone, Copy, Debug, PartialEq, Eq, Structural)]
pub enum PostExtension {
    RegularPost,
    SharedPost(u64),
    SharedComment(u64),
}

impl Default for PostExtension {
    fn default() -> (r: Self)
        ensures
            r == PostExtension::RegularPost,
    {
        PostExtension::RegularPost
    }
}

/// The input field that failed validation.
#[derive(Clone, Copy, Debug, PartialEq, Eq, Structural)]
pub enum Field {
    Slug,
    Username,
    IpfsHash,
}

/// Why a field failed validation.
#[derive(Clone, Copy, Debug, PartialEq, Eq, Structural)]
pub enum Reason {
    TooShort,
    TooLong,
    WrongLength,
}

/// The kind of record that was looked up and not found.
#[derive(Clone, Copy, Debug, PartialEq, Eq, Structural)]
pub enum Entity {
    Blog,
    Post,
    Comment,
    Reaction,
    Account,
    Profile,
}

/// Which uniqueness or membership constraint an operation would break.
#[derive(Clone, Copy, Debug, PartialEq, Eq, Structural)]
pub enum ConflictReason {
    SlugTaken,
    UsernameTaken,
    AlreadyFollowing,
    NotFollowing,
    ReactionExists,
    ReactionMismatch,
    SameReactionKind,
    ProfileExists,
    CounterOverflow,
}

/// Why the scoring ledger refused a change.
#[derive(Clone, Copy, Debug, PartialEq, Eq, Structural)]
pub enum LedgerFault {
    AlreadyApplied,
    NotApplied,
}

#[derive(Clone, Copy, Debug, PartialEq, Eq, Structural)]
pub enum Error {
    ValidationFailed(Field, Reason),
    NotFound(Entity),
    Unauthorized,
    Conflict(ConflictReason),
    LedgerConflict(LedgerFault),
}

} // verus!
