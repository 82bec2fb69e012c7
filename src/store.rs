use vstd::prelude::*;

use crate::config::Config;
use crate::entities::{Blog, BlogHistoryRecord, BlogUpdate, Comment, Post, Reaction, SocialAccount};
use crate::ledger::{LedgerKey, ScoreLedger};
use crate::types::{Change, ConflictReason, Entity, Error, Field, Reason, ScoringAction};

verus! {

/// What a successful operation reports, for delivery by the host.
#[derive(Clone, Copy, Debug, PartialEq, Eq, Structural)]
pub enum Event {
    BlogCreated(u64, u64),
    BlogUpdated(u64, u64),
    BlogFollowed(u64, u64),
    BlogUnfollowed(u64, u64),
    AccountReputationChanged(u64, ScoringAction, u32),
    AccountFollowed(u64, u64),
    AccountUnfollowed(u64, u64),
    PostCreated(u64, u64),
    PostUpdated(u64, u64),
    PostShared(u64, u64),
    CommentCreated(u64, u64),
    CommentUpdated(u64, u64),
    CommentShared(u64, u64),
    PostReactionCreated(u64, u64, u64),
    PostReactionUpdated(u64, u64, u64),
    PostReactionDeleted(u64, u64, u64),
    CommentReactionCreated(u64, u64, u64),
    CommentReactionUpdated(u64, u64, u64),
    CommentReactionDeleted(u64, u64, u64),
    ProfileCreated(u64),
    ProfileUpdated(u64),
}

/// An account's counters and profile, with its side of the follow graph.
#[derive(Debug)]
pub struct AccountRecord {
    pub account: u64,
    pub social: SocialAccount,
    pub followed_blogs: Vec<u64>,
    pub followers: Vec<u64>,
    pub followed_accounts: Vec<u64>,
}

/// Ties a reaction to the post or comment it is on and to its author.
#[derive(Clone, Copy, Debug, PartialEq, Eq, Structural)]
pub struct ReactionLink {
    pub account: u64,
    pub target: u64,
    pub reaction_id: u64,
}

/// The whole content graph: entities, their indexes and the scoring ledgers.
///
/// Blog, post, comment and reaction ids are dense: the record with id `k`
/// stands at index `k - 1` of its vector.
#[derive(Debug)]
pub struct Module {
    pub config: Config,
    pub block: u64,
    pub time: u64,
    pub next_blog_id: u64,
    pub next_post_id: u64,
    pub next_comment_id: u64,
    pub next_reaction_id: u64,
    pub blogs: Vec<Blog>,
    pub blog_followers: Vec<Vec<u64>>,
    pub posts: Vec<Post>,
    pub comments: Vec<Comment>,
    pub reactions: Vec<Reaction>,
    pub post_reactions: Vec<ReactionLink>,
    pub comment_reactions: Vec<ReactionLink>,
    pub accounts: Vec<AccountRecord>,
    pub reputation_ledger: ScoreLedger,
    pub score_ledger: ScoreLedger,
    pub events: Vec<Event>,
}

/// Byte strings compared element by element.
pub fn bytes_eq(a: &Vec<u8>, b: &Vec<u8>) -> (r: bool)
    ensures
        r == (a@ == b@),
{
    if a.len() != b.len() {
        return false;
    }
    let mut i: usize = 0;
    while i < a.len()
        invariant
            a@.len() == b@.len(),
            i <= a@.len(),
            forall|j: int| 0 <= j < i ==> a@[j] == b@[j],
        decreases a@.len() - i,
    {
        if a[i] != b[i] {
            return false;
        }
        i = i + 1;
    }
    assert(a@ =~= b@);
    true
}

/// A copy of a byte string.
pub fn copy_bytes(a: &Vec<u8>) -> (r: Vec<u8>)
    ensures
        r@ == a@,
{
    let mut r: Vec<u8> = Vec::new();
    let mut i: usize = 0;
    while i < a.len()
        invariant
            i <= a@.len(),
            r@ == a@.subrange(0, i as int),
        decreases a@.len() - i,
    {
        r.push(a[i]);
        i = i + 1;
    }
    assert(r@ =~= a@);
    r
}

pub open spec fn slug_error(cfg: Config, len: int) -> Option<Error> {
    if len < cfg.slug_min_len {
        Some(Error::ValidationFailed(Field::Slug, Reason::TooShort))
    } else if len > cfg.slug_max_len {
        Some(Error::ValidationFailed(Field::Slug, Reason::TooLong))
    } else {
        None
    }
}

pub open spec fn username_error(cfg: Config, len: int) -> Option<Error> {
    if len < cfg.username_min_len {
        Some(Error::ValidationFailed(Field::Username, Reason::TooShort))
    } else if len > cfg.username_max_len {
        Some(Error::ValidationFailed(Field::Username, Reason::TooLong))
    } else {
        None
    }
}

pub open spec fn hash_error(cfg: Config, len: int) -> Option<Error> {
    if len != cfg.ipfs_hash_len {
        Some(Error::ValidationFailed(Field::IpfsHash, Reason::WrongLength))
    } else {
        None
    }
}

fn check_slug(cfg: &Config, s: &Vec<u8>) -> (r: Result<(), Error>)
    ensures
        r == (match slug_error(*cfg, s@.len() as int) {
            Some(e) => Err::<(), Error>(e),
            None => Ok(()),
        }),
{
    if s.len() < cfg.slug_min_len as usize {
        Err(Error::ValidationFailed(Field::Slug, Reason::TooShort))
    } else if s.len() > cfg.slug_max_len as usize {
        Err(Error::ValidationFailed(Field::Slug, Reason::TooLong))
    } else {
        Ok(())
    }
}

fn check_username(cfg: &Config, s: &Vec<u8>) -> (r: Result<(), Error>)
    ensures
        r == (match username_error(*cfg, s@.len() as int) {
            Some(e) => Err::<(), Error>(e),
            None => Ok(()),
        }),
{
    if s.len() < cfg.username_min_len as usize {
        Err(Error::ValidationFailed(Field::Username, Reason::TooShort))
    } else if s.len() > cfg.username_max_len as usize {
        Err(Error::ValidationFailed(Field::Username, Reason::TooLong))
    } else {
        Ok(())
    }
}

fn check_hash(cfg: &Config, s: &Vec<u8>) -> (r: Result<(), Error>)
    ensures
        r == (match hash_error(*cfg, s@.len() as int) {
            Some(e) => Err::<(), Error>(e),
            None => Ok(()),
        }),
{
    if s.len() != cfg.ipfs_hash_len as usize {
        Err(Error::ValidationFailed(Field::IpfsHash, Reason::WrongLength))
    } else {
        Ok(())
    }
}

/// At most one link per account and target, each to a target and a
/// reaction that exist.
pub open spec fn links_wf(l: Seq<ReactionLink>, n_targets: int, n_reactions: int) -> bool {
    &&& forall|i: int, j: int| 0 <= i < j < l.len() ==>
        !((#[trigger] l[i]).account == (#[trigger] l[j]).account && l[i].target == l[j].target)
    &&& forall|i: int| 0 <= i < l.len() ==> 1 <= (#[trigger] l[i]).target <= n_targets
        && 1 <= l[i].reaction_id <= n_reactions
}

/// Each reaction id sits in at most one link, and a link's account is the
/// one that created its reaction.
pub open spec fn links_own(l: Seq<ReactionLink>, rs: Seq<Reaction>) -> bool {
    &&& forall|i: int, j: int| 0 <= i < j < l.len() ==> (#[trigger] l[i]).reaction_id != (#[trigger] l[j]).reaction_id
    &&& forall|i: int| 0 <= i < l.len() ==> rs[(#[trigger] l[i]).reaction_id - 1].created.account == l[i].account
}

/// Whether a link ties reaction `rid` to target `t`.
pub open spec fn has_reaction_link(l: Seq<ReactionLink>, t: u64, rid: u64) -> bool {
    exists|i: int| 0 <= i < l.len() && (#[trigger] l[i]).target == t && l[i].reaction_id == rid
}

pub open spec fn has_link(l: Seq<ReactionLink>, a: u64, t: u64) -> bool {
    exists|i: int| 0 <= i < l.len() && (#[trigger] l[i]).account == a && l[i].target == t
}

/// The reaction of `a` on `t`, if there is one.
pub open spec fn reaction_on(l: Seq<ReactionLink>, a: u64, t: u64) -> Option<u64> {
    if has_link(l, a, t) {
        Some(l[choose|i: int| 0 <= i < l.len() && (#[trigger] l[i]).account == a && l[i].target == t].reaction_id)
    } else {
        None
    }
}

impl Module {
    /// The stamp that an action by `who` gets now.
    pub open spec fn stamp(&self, who: u64) -> Change {
        Change { account: who, block: self.block, time: self.time }
    }

    pub open spec fn blogs_wf(&self) -> bool {
        &&& self.next_blog_id == self.blogs@.len() + 1
        &&& self.blog_followers@.len() == self.blogs@.len()
        &&& forall|i: int| 0 <= i < self.blogs@.len() ==> #[trigger] self.blogs@[i].id == i + 1
        &&& forall|i: int|
            0 <= i < self.blogs@.len() ==> #[trigger] self.blogs@[i].followers_count
                == self.blog_followers@[i]@.len()
        &&& forall|i: int|
            0 <= i < self.blogs@.len() ==> (#[trigger] self.blog_followers@[i])@.no_duplicates()
        &&& forall|i: int, j: int|
            0 <= i < self.blogs@.len() && 0 <= j < self.blogs@.len() && i != j
                ==> #[trigger] self.blogs@[i].slug@ != #[trigger] self.blogs@[j].slug@
    }

    pub open spec fn has_account(&self, a: u64) -> bool {
        exists|k: int| 0 <= k < self.accounts@.len() && #[trigger] self.accounts@[k].account == a
    }

    /// Where the record of account `a` stands; meaningful when `has_account(a)`.
    pub open spec fn account_index(&self, a: u64) -> int {
        choose|k: int| 0 <= k < self.accounts@.len() && #[trigger] self.accounts@[k].account == a
    }

    pub open spec fn account(&self, a: u64) -> AccountRecord {
        self.accounts@[self.account_index(a)]
    }

    /// The blogs that `a` follows; empty for an account never seen.
    pub open spec fn blogs_followed_by(&self, a: u64) -> Seq<u64> {
        if self.has_account(a) {
            self.account(a).followed_blogs@
        } else {
            Seq::empty()
        }
    }

    /// The accounts that follow `a`.
    pub open spec fn followers_of_account(&self, a: u64) -> Seq<u64> {
        if self.has_account(a) {
            self.account(a).followers@
        } else {
            Seq::empty()
        }
    }

    /// The accounts that `a` follows.
    pub open spec fn accounts_followed_by(&self, a: u64) -> Seq<u64> {
        if self.has_account(a) {
            self.account(a).followed_accounts@
        } else {
            Seq::empty()
        }
    }

    /// The reputation of `a`; zero for an account never seen.
    pub open spec fn reputation_of(&self, a: u64) -> u32 {
        if self.has_account(a) {
            self.account(a).social.reputation
        } else {
            0
        }
    }

    pub open spec fn record_wf(r: AccountRecord) -> bool {
        &&& r.social.following_blogs_count == r.followed_blogs@.len()
        &&& r.social.followers_count == r.followers@.len()
        &&& r.social.following_accounts_count == r.followed_accounts@.len()
        &&& r.followed_blogs@.no_duplicates()
        &&& r.followers@.no_duplicates()
        &&& r.followed_accounts@.no_duplicates()
    }

    pub open spec fn accounts_wf(&self) -> bool {
        &&& forall|k1: int, k2: int|
            0 <= k1 < self.accounts@.len() && 0 <= k2 < self.accounts@.len() && k1 != k2
                ==> #[trigger] self.accounts@[k1].account != #[trigger] self.accounts@[k2].account
        &&& forall|k: int| 0 <= k < self.accounts@.len() ==> Self::record_wf(#[trigger] self.accounts@[k])
        &&& forall|i: int, k: int|
            0 <= i < self.blogs@.len() && 0 <= k < self.accounts@.len() ==> (
            (#[trigger] self.blog_followers@[i])@.contains((#[trigger] self.accounts@[k]).account)
                <==> self.accounts@[k].followed_blogs@.contains((i + 1) as u64))
        &&& forall|i: int, x: u64|
            0 <= i < self.blogs@.len() && #[trigger] self.blog_followers@[i]@.contains(x)
                ==> self.has_account(x)
        &&& forall|k: int, b: u64|
            0 <= k < self.accounts@.len() && #[trigger] self.accounts@[k].followed_blogs@.contains(b)
                ==> 1 <= b <= self.blogs@.len()
        &&& forall|k1: int, k2: int|
            0 <= k1 < self.accounts@.len() && 0 <= k2 < self.accounts@.len() ==> (
            (#[trigger] self.accounts@[k2]).followers@.contains((#[trigger] self.accounts@[k1]).account)
                <==> self.accounts@[k1].followed_accounts@.contains(self.accounts@[k2].account))
        &&& forall|k: int, x: u64|
            0 <= k < self.accounts@.len() && #[trigger] self.accounts@[k].followers@.contains(x)
                ==> self.has_account(x)
        &&& forall|k: int, x: u64|
            0 <= k < self.accounts@.len() && #[trigger] self.accounts@[k].followed_accounts@.contains(x)
                ==> self.has_account(x)
    }

    pub open spec fn content_wf(&self) -> bool {
        &&& self.next_post_id == self.posts@.len() + 1
        &&& forall|i: int| 0 <= i < self.posts@.len() ==> #[trigger] self.posts@[i].id == i + 1
        &&& forall|i: int| 0 <= i < self.posts@.len() ==> 1 <= #[trigger] self.posts@[i].blog_id <= self.blogs@.len()
        &&& self.next_comment_id == self.comments@.len() + 1
        &&& forall|i: int| 0 <= i < self.comments@.len() ==> #[trigger] self.comments@[i].id == i + 1
        &&& forall|i: int| 0 <= i < self.comments@.len() ==> 1 <= #[trigger] self.comments@[i].post_id <= self.posts@.len()
        &&& forall|i: int| 0 <= i < self.comments@.len() ==> match #[trigger] self.comments@[i].parent_id {
            Some(p) => 1 <= p <= i,
            None => true,
        }
        &&& self.next_reaction_id == self.reactions@.len() + 1
        &&& forall|i: int| 0 <= i < self.reactions@.len() ==> #[trigger] self.reactions@[i].id == i + 1
        &&& links_wf(self.post_reactions@, self.posts@.len() as int, self.reactions@.len() as int)
        &&& links_wf(self.comment_reactions@, self.comments@.len() as int, self.reactions@.len() as int)
        &&& links_own(self.post_reactions@, self.reactions@)
        &&& links_own(self.comment_reactions@, self.reactions@)
        &&& forall|i: int, j: int| 0 <= i < self.post_reactions@.len() && 0 <= j < self.comment_reactions@.len()
            ==> (#[trigger] self.post_reactions@[i]).reaction_id != (#[trigger] self.comment_reactions@[j]).reaction_id
    }

    /// No two profiles share a username.
    pub open spec fn profiles_wf(&self) -> bool {
        forall|k1: int, k2: int|
            0 <= k1 < self.accounts@.len() && 0 <= k2 < self.accounts@.len() && k1 != k2
                && (#[trigger] self.accounts@[k1]).social.profile is Some
                && (#[trigger] self.accounts@[k2]).social.profile is Some
                ==> self.accounts@[k1].social.profile->Some_0.username@
                    != self.accounts@[k2].social.profile->Some_0.username@
    }

    /// `profiles_wf` reads the profiles only.
    pub proof fn lemma_profiles_frame(pre: Module, post: Module)
        requires
            pre.profiles_wf(),
            post.accounts@.len() == pre.accounts@.len(),
            forall|k: int| 0 <= k < pre.accounts@.len() ==>
                (#[trigger] post.accounts@[k]).social.profile == pre.accounts@[k].social.profile,
        ensures
            post.profiles_wf(),
    {
        assert forall|k1: int, k2: int|
            0 <= k1 < post.accounts@.len() && 0 <= k2 < post.accounts@.len() && k1 != k2
                && (#[trigger] post.accounts@[k1]).social.profile is Some
                && (#[trigger] post.accounts@[k2]).social.profile is Some
                implies post.accounts@[k1].social.profile->Some_0.username@
                    != post.accounts@[k2].social.profile->Some_0.username@ by {
            assert(pre.accounts@[k1].social.profile == post.accounts@[k1].social.profile);
            assert(pre.accounts@[k2].social.profile == post.accounts@[k2].social.profile);
        }
    }

    /// Every comment's history is in time order and none of it is later
    /// than the clock.
    pub open spec fn history_wf(&self) -> bool {
        &&& forall|i: int, j: int| 0 <= i < self.comments@.len() && 0 <= j < self.comments@[i].edit_history@.len()
            ==> (#[trigger] self.comments@[i].edit_history@[j]).edited.time <= self.time
        &&& forall|i: int, j: int| 0 <= i < self.comments@.len() && 0 < j < self.comments@[i].edit_history@.len()
            ==> self.comments@[i].edit_history@[j - 1].edited.time
                <= (#[trigger] self.comments@[i].edit_history@[j]).edited.time
    }

    pub open spec fn wf(&self) -> bool {
        &&& self.blogs_wf()
        &&& self.accounts_wf()
        &&& self.content_wf()
        &&& self.profiles_wf()
        &&& self.history_wf()
        &&& self.reputation_ledger.wf()
        &&& self.score_ledger.wf()
    }

    pub open spec fn has_blog(&self, id: u64) -> bool {
        1 <= id <= self.blogs@.len()
    }

    /// The blog with id `id`; meaningful when `has_blog(id)`.
    pub open spec fn blog(&self, id: u64) -> Blog {
        self.blogs@[id - 1]
    }

    /// The accounts that follow blog `id`.
    pub open spec fn followers_of_blog(&self, id: u64) -> Seq<u64> {
        self.blog_followers@[id - 1]@
    }

    pub open spec fn slug_taken(&self, s: Seq<u8>) -> bool {
        exists|i: int| 0 <= i < self.blogs@.len() && #[trigger] self.blogs@[i].slug@ == s
    }

    pub open spec fn create_blog_error(&self, slug: Seq<u8>, hash: Seq<u8>) -> Option<Error> {
        if slug_error(self.config, slug.len() as int) is Some {
            slug_error(self.config, slug.len() as int)
        } else if hash_error(self.config, hash.len() as int) is Some {
            hash_error(self.config, hash.len() as int)
        } else if self.slug_taken(slug) {
            Some(Error::Conflict(ConflictReason::SlugTaken))
        } else if self.next_blog_id == u64::MAX {
            Some(Error::Conflict(ConflictReason::CounterOverflow))
        } else {
            None
        }
    }

    /// The configuration and the clock, which only the host moves.
    pub open spec fn same_settings(&self, other: Module) -> bool {
        self.config == other.config && self.block == other.block && self.time == other.time
    }

    /// Account records other than those of `a` and `b` are as they were,
    /// every record keeps its account, and a record added on the way belongs
    /// to `a` or `b`.
    pub open spec fn accounts_framed(&self, old: Module, a: u64, b: u64) -> bool {
        &&& self.accounts@.len() >= old.accounts@.len()
        &&& forall|k: int| 0 <= k < old.accounts@.len() && old.accounts@[k].account != a && old.accounts@[k].account != b
            ==> #[trigger] self.accounts@[k] == old.accounts@[k]
        &&& forall|k: int| 0 <= k < old.accounts@.len() ==> (#[trigger] self.accounts@[k]).account == old.accounts@[k].account
        &&& forall|k: int| old.accounts@.len() <= k < self.accounts@.len()
            ==> (#[trigger] self.accounts@[k]).account == a || self.accounts@[k].account == b
    }

    /// Every profile is as it was, and a record added on the way has none.
    pub open spec fn profiles_kept(&self, old: Module) -> bool {
        &&& forall|k: int| 0 <= k < old.accounts@.len() && k < self.accounts@.len()
            ==> (#[trigger] self.accounts@[k]).social.profile == old.accounts@[k].social.profile
        &&& forall|k: int| old.accounts@.len() <= k < self.accounts@.len() ==> (#[trigger] self.accounts@[k]).social.profile is None
    }

    /// The follow lists of `a` are as they were.
    pub open spec fn follows_kept(&self, old: Module, a: u64) -> bool {
        &&& self.blogs_followed_by(a) == old.blogs_followed_by(a)
        &&& self.followers_of_account(a) == old.followers_of_account(a)
        &&& self.accounts_followed_by(a) == old.accounts_followed_by(a)
    }

    /// Neither reaction index moved.
    pub open spec fn same_links(&self, other: Module) -> bool {
        self.post_reactions == other.post_reactions && self.comment_reactions == other.comment_reactions
    }

    /// `blogs_wf` reads only the ids, slugs and followers counts of blogs.
    pub proof fn lemma_blogs_wf_frame(pre: Module, post: Module)
        requires
            pre.blogs_wf(),
            post.next_blog_id == pre.next_blog_id,
            post.blogs@.len() == pre.blogs@.len(),
            post.blog_followers == pre.blog_followers,
            forall|i: int| 0 <= i < pre.blogs@.len() ==> (#[trigger] post.blogs@[i]).id == pre.blogs@[i].id
                && post.blogs@[i].slug == pre.blogs@[i].slug
                && post.blogs@[i].followers_count == pre.blogs@[i].followers_count,
        ensures
            post.blogs_wf(),
    {
        assert forall|i: int| 0 <= i < post.blogs@.len() implies #[trigger] post.blogs@[i].id == i + 1 by {
            assert(pre.blogs@[i].id == i + 1);
        }
        assert forall|i: int| 0 <= i < post.blogs@.len() implies #[trigger] post.blogs@[i].followers_count
            == post.blog_followers@[i]@.len() by {
            assert(pre.blogs@[i].followers_count == pre.blog_followers@[i]@.len());
        }
        assert forall|i: int| 0 <= i < post.blogs@.len() implies (#[trigger] post.blog_followers@[i])@.no_duplicates() by {
            assert(pre.blog_followers@[i]@.no_duplicates());
        }
        assert forall|i: int, j: int|
            0 <= i < post.blogs@.len() && 0 <= j < post.blogs@.len() && i != j
                implies #[trigger] post.blogs@[i].slug@ != #[trigger] post.blogs@[j].slug@ by {
            assert(pre.blogs@[i].slug@ != pre.blogs@[j].slug@);
        }
    }

    /// `accounts_wf` reads the account records, the blog followers and the
    /// number of blogs only.
    pub proof fn lemma_accounts_wf_frame(pre: Module, post: Module)
        requires
            pre.accounts_wf(),
            post.accounts == pre.accounts,
            post.blog_followers == pre.blog_followers,
            post.blogs@.len() == pre.blogs@.len(),
        ensures
            post.accounts_wf(),
    {
        assert forall|x: u64| pre.has_account(x) implies post.has_account(x) by {
            let j = choose|j: int| 0 <= j < pre.accounts@.len() && #[trigger] pre.accounts@[j].account == x;
            assert(post.accounts@[j].account == x);
        }
    }

    /// `accounts_wf` does not read reputations or profiles.
    pub proof fn lemma_accounts_wf_graph_frame(pre: Module, post: Module)
        requires
            pre.accounts_wf(),
            post.accounts@.len() == pre.accounts@.len(),
            forall|k: int| 0 <= k < pre.accounts@.len() ==> {
                let a = #[trigger] post.accounts@[k];
                let b = pre.accounts@[k];
                &&& a.account == b.account
                &&& a.followed_blogs == b.followed_blogs
                &&& a.followers == b.followers
                &&& a.followed_accounts == b.followed_accounts
                &&& a.social.followers_count == b.social.followers_count
                &&& a.social.following_accounts_count == b.social.following_accounts_count
                &&& a.social.following_blogs_count == b.social.following_blogs_count
            },
            post.blog_followers == pre.blog_followers,
            post.blogs@.len() == pre.blogs@.len(),
        ensures
            post.accounts_wf(),
            forall|x: u64| post.has_account(x) == pre.has_account(x),
    {
        assert forall|x: u64| post.has_account(x) == pre.has_account(x) by {
            if pre.has_account(x) {
                let j = choose|j: int| 0 <= j < pre.accounts@.len() && #[trigger] pre.accounts@[j].account == x;
                assert(post.accounts@[j].account == x);
            }
            if post.has_account(x) {
                let j = choose|j: int| 0 <= j < post.accounts@.len() && #[trigger] post.accounts@[j].account == x;
                assert(pre.accounts@[j].account == x);
            }
        }
        let n = pre.accounts@.len();
        assert forall|k1: int, k2: int|
            0 <= k1 < n && 0 <= k2 < n && k1 != k2
                implies #[trigger] post.accounts@[k1].account != #[trigger] post.accounts@[k2].account by {
            assert(pre.accounts@[k1].account != pre.accounts@[k2].account);
        }
        assert forall|k: int| 0 <= k < n implies Module::record_wf(#[trigger] post.accounts@[k]) by {
            assert(Module::record_wf(pre.accounts@[k]));
        }
        assert forall|i: int, k: int|
            0 <= i < post.blogs@.len() && 0 <= k < n implies (
            (#[trigger] post.blog_followers@[i])@.contains((#[trigger] post.accounts@[k]).account)
                <==> post.accounts@[k].followed_blogs@.contains((i + 1) as u64)) by {
            assert(pre.blog_followers@[i]@.contains(pre.accounts@[k].account)
                <==> pre.accounts@[k].followed_blogs@.contains((i + 1) as u64));
        }
        assert forall|i: int, x: u64|
            0 <= i < post.blogs@.len() && #[trigger] post.blog_followers@[i]@.contains(x)
                implies post.has_account(x) by {
            assert(pre.blog_followers@[i]@.contains(x));
        }
        assert forall|k: int, bb: u64|
            0 <= k < n && #[trigger] post.accounts@[k].followed_blogs@.contains(bb)
                implies 1 <= bb <= post.blogs@.len() by {
            assert(pre.accounts@[k].followed_blogs@.contains(bb));
        }
        assert forall|k1: int, k2: int|
            0 <= k1 < n && 0 <= k2 < n implies (
            (#[trigger] post.accounts@[k2]).followers@.contains((#[trigger] post.accounts@[k1]).account)
                <==> post.accounts@[k1].followed_accounts@.contains(post.accounts@[k2].account)) by {
            assert(pre.accounts@[k2].followers@.contains(pre.accounts@[k1].account)
                <==> pre.accounts@[k1].followed_accounts@.contains(pre.accounts@[k2].account));
        }
        assert forall|k: int, x: u64|
            0 <= k < n && #[trigger] post.accounts@[k].followers@.contains(x) implies post.has_account(x) by {
            assert(pre.accounts@[k].followers@.contains(x));
        }
        assert forall|k: int, x: u64|
            0 <= k < n && #[trigger] post.accounts@[k].followed_accounts@.contains(x) implies post.has_account(x) by {
            assert(pre.accounts@[k].followed_accounts@.contains(x));
        }
    }

    /// An empty store with the given configuration, its clock at zero and
    /// every id counter at one.
    pub fn new(config: Config) -> (r: Module)
        ensures
            r.wf(),
            r.config == config,
            r.block == 0 && r.time == 0,
            r.next_blog_id == 1 && r.next_post_id == 1,
            r.next_comment_id == 1 && r.next_reaction_id == 1,
            r.blogs@.len() == 0 && r.posts@.len() == 0 && r.comments@.len() == 0,
            r.reactions@.len() == 0 && r.accounts@.len() == 0 && r.events@.len() == 0,
            r.post_reactions@.len() == 0 && r.comment_reactions@.len() == 0,
            r.reputation_ledger.view() == Map::<LedgerKey, i16>::empty(),
            r.score_ledger.view() == Map::<LedgerKey, i16>::empty(),
    {
        Module {
            config,
            block: 0,
            time: 0,
            next_blog_id: 1,
            next_post_id: 1,
            next_comment_id: 1,
            next_reaction_id: 1,
            blogs: Vec::new(),
            blog_followers: Vec::new(),
            posts: Vec::new(),
            comments: Vec::new(),
            reactions: Vec::new(),
            post_reactions: Vec::new(),
            comment_reactions: Vec::new(),
            accounts: Vec::new(),
            reputation_ledger: ScoreLedger::new(),
            score_ledger: ScoreLedger::new(),
            events: Vec::new(),
        }
    }

    /// Moves the logical clock forward; a move backwards is refused and
    /// leaves the clock as it was.
    pub fn set_clock(&mut self, block: u64, time: u64) -> (r: bool)
        requires
            old(self).wf(),
        ensures
            final(self).wf(),
            r == (block >= old(self).block && time >= old(self).time),
            r ==> final(self).block == block && final(self).time == time,
            !r ==> final(self).block == old(self).block && final(self).time == old(self).time,
            final(self).config == old(self).config,
            final(self).blogs == old(self).blogs,
            final(self).blog_followers == old(self).blog_followers,
            final(self).posts == old(self).posts,
            final(self).comments == old(self).comments,
            final(self).reactions == old(self).reactions,
            final(self).post_reactions == old(self).post_reactions,
            final(self).comment_reactions == old(self).comment_reactions,
            final(self).accounts == old(self).accounts,
            final(self).reputation_ledger == old(self).reputation_ledger,
            final(self).score_ledger == old(self).score_ledger,
            final(self).events == old(self).events,
            final(self).next_blog_id == old(self).next_blog_id,
            final(self).next_post_id == old(self).next_post_id,
            final(self).next_comment_id == old(self).next_comment_id,
            final(self).next_reaction_id == old(self).next_reaction_id,
    {
        if block >= self.block && time >= self.time {
            self.block = block;
            self.time = time;
            true
        } else {
            false
        }
    }

    fn stamp_now(&self, who: u64) -> (r: Change)
        ensures
            r == self.stamp(who),
    {
        Change { account: who, block: self.block, time: self.time }
    }

    /// The id of the blog that holds `slug`, if one does.
    pub fn blog_id_by_slug(&self, slug: &Vec<u8>) -> (r: Option<u64>)
        requires
            self.wf(),
        ensures
            match r {
                Some(id) => self.has_blog(id) && self.blog(id).slug@ == slug@,
                None => !self.slug_taken(slug@),
            },
    {
        let mut i: usize = 0;
        while i < self.blogs.len()
            invariant
                self.wf(),
                i <= self.blogs@.len(),
                forall|j: int| 0 <= j < i ==> self.blogs@[j].slug@ != slug@,
            decreases self.blogs@.len() - i,
        {
            if bytes_eq(&self.blogs[i].slug, slug) {
                assert(self.blogs@[i as int].id == i + 1);
                return Some(self.blogs[i].id);
            }
            i = i + 1;
        }
        None
    }

    /// Creates a blog owned by `who`, with a fresh id, no writers, no
    /// followers, no posts and a zero score.
    pub fn create_blog(&mut self, who: u64, slug: Vec<u8>, ipfs_hash: Vec<u8>) -> (r: Result<u64, Error>)
        requires
            old(self).wf(),
        ensures
            final(self).wf(),
            match old(self).create_blog_error(slug@, ipfs_hash@) {
                Some(e) => r == Err::<u64, Error>(e) && *final(self) == *old(self),
                None => {
                    let id = old(self).next_blog_id;
                    let b = final(self).blog(id);
                    &&& r == Ok::<u64, Error>(id)
                    &&& final(self).same_settings(*old(self))
                    &&& final(self).next_blog_id == id + 1
                    &&& final(self).blogs@.len() == old(self).blogs@.len() + 1
                    &&& final(self).blogs@.take(old(self).blogs@.len() as int) == old(self).blogs@
                    &&& final(self).blog_followers@.take(old(self).blogs@.len() as int) == old(self).blog_followers@
                    &&& b.id == id && b.created == old(self).stamp(who) && b.updated is None
                    &&& b.writers@.len() == 0 && b.slug@ == slug@ && b.ipfs_hash@ == ipfs_hash@
                    &&& b.posts_count == 0 && b.followers_count == 0 && b.score == 0
                    &&& b.edit_history@.len() == 0
                    &&& final(self).followers_of_blog(id).len() == 0
                    &&& final(self).events@ == old(self).events@.push(Event::BlogCreated(who, id))
                    &&& final(self).posts == old(self).posts
                    &&& final(self).comments == old(self).comments
                    &&& final(self).reactions == old(self).reactions
                    &&& final(self).accounts == old(self).accounts
                    &&& final(self).score_ledger == old(self).score_ledger
                    &&& final(self).reputation_ledger == old(self).reputation_ledger
                    &&& final(self).same_links(*old(self))
                },
            },
    {
        check_slug(&self.config, &slug)?;
        check_hash(&self.config, &ipfs_hash)?;
        if self.blog_id_by_slug(&slug).is_some() {
            return Err(Error::Conflict(ConflictReason::SlugTaken));
        }
        if self.next_blog_id == u64::MAX {
            return Err(Error::Conflict(ConflictReason::CounterOverflow));
        }
        let id = self.next_blog_id;
        let blog = Blog {
            id,
            created: self.stamp_now(who),
            updated: None,
            writers: Vec::new(),
            slug,
            ipfs_hash,
            posts_count: 0,
            followers_count: 0,
            edit_history: Vec::new(),
            score: 0,
        };
        let ghost old_blogs = self.blogs@;
        self.blogs.push(blog);
        self.blog_followers.push(Vec::new());
        self.next_blog_id = id + 1;
        self.events.push(Event::BlogCreated(who, id));
        assert(self.blogs@.take(old_blogs.len() as int) =~= old_blogs);
        assert forall|i: int, j: int|
            0 <= i < self.blogs@.len() && 0 <= j < self.blogs@.len() && i != j
                implies #[trigger] self.blogs@[i].slug@ != #[trigger] self.blogs@[j].slug@ by {
            if i < old_blogs.len() && j < old_blogs.len() {
                assert(old_blogs[i] == self.blogs@[i]);
                assert(old_blogs[j] == self.blogs@[j]);
            } else if i < old_blogs.len() {
                assert(old_blogs[i] == self.blogs@[i]);
            } else {
                assert(old_blogs[j] == self.blogs@[j]);
            }
        }
        Ok(id)
    }

    /// Whether a blog other than `blog_id` holds slug `s`.
    fn slug_held_by_other(&self, s: &Vec<u8>, blog_id: u64) -> (r: bool)
        requires
            self.wf(),
        ensures
            r == exists|j: u64| #[trigger] self.has_blog(j) && j != blog_id && self.blog(j).slug@ == s@,
    {
        let mut i: usize = 0;
        while i < self.blogs.len()
            invariant
                self.wf(),
                i <= self.blogs@.len(),
                forall|j: int| 0 <= j < i && self.blogs@[j].id != blog_id ==> self.blogs@[j].slug@ != s@,
            decreases self.blogs@.len() - i,
        {
            if self.blogs[i].id != blog_id && bytes_eq(&self.blogs[i].slug, s) {
                proof {
                    let j = self.blogs@[i as int].id;
                    assert(self.blogs@[j - 1] == self.blogs@[i as int]);
                    assert(self.has_blog(j) && j != blog_id && self.blog(j).slug@ == s@);
                }
                return true;
            }
            i = i + 1;
        }
        proof {
            assert forall|j: u64| #[trigger] self.has_blog(j) && j != blog_id implies self.blog(j).slug@ != s@ by {
                assert(self.blogs@[j - 1].id == j);
            }
        }
        false
    }

    pub open spec fn update_blog_error(&self, who: u64, id: u64, update: BlogUpdate) -> Option<Error> {
        if !self.has_blog(id) {
            Some(Error::NotFound(Entity::Blog))
        } else if who != self.blog(id).created.account && !self.blog(id).writers@.contains(who) {
            Some(Error::Unauthorized)
        } else if update.slug is Some && slug_error(self.config, update.slug->Some_0@.len() as int) is Some {
            slug_error(self.config, update.slug->Some_0@.len() as int)
        } else if update.ipfs_hash is Some && hash_error(self.config, update.ipfs_hash->Some_0@.len() as int) is Some {
            hash_error(self.config, update.ipfs_hash->Some_0@.len() as int)
        } else if update.slug is Some && exists|j: u64| #[trigger] self.has_blog(j) && j != id
            && self.blog(j).slug@ == update.slug->Some_0@ {
            Some(Error::Conflict(ConflictReason::SlugTaken))
        } else {
            None
        }
    }

    /// The owner or a writer of blog `blog_id` changes the fields given in
    /// `update`; the values they replace are appended to the blog's history,
    /// stamped with this edit. A new slug must be free.
    pub fn update_blog(&mut self, who: u64, blog_id: u64, update: BlogUpdate) -> (r: Result<(), Error>)
        requires
            old(self).wf(),
        ensures
            final(self).wf(),
            match old(self).update_blog_error(who, blog_id, update) {
                Some(e) => r == Err::<(), Error>(e) && *final(self) == *old(self),
                None => {
                    let o = old(self).blog(blog_id);
                    let b = final(self).blog(blog_id);
                    let rec = b.edit_history@.last();
                    &&& r == Ok::<(), Error>(())
                    &&& final(self).same_settings(*old(self))
                    &&& b.edit_history@.len() == o.edit_history@.len() + 1
                    &&& b.edit_history@.take(o.edit_history@.len() as int) == o.edit_history@
                    &&& rec.edited == old(self).stamp(who)
                    &&& (rec.old_data.writers is Some <==> update.writers is Some)
                    &&& (rec.old_data.writers is Some ==> rec.old_data.writers->Some_0@ == o.writers@)
                    &&& (rec.old_data.slug is Some <==> update.slug is Some)
                    &&& (rec.old_data.slug is Some ==> rec.old_data.slug->Some_0@ == o.slug@)
                    &&& (rec.old_data.ipfs_hash is Some <==> update.ipfs_hash is Some)
                    &&& (rec.old_data.ipfs_hash is Some ==> rec.old_data.ipfs_hash->Some_0@ == o.ipfs_hash@)
                    &&& b.writers@ == (if update.writers is Some { update.writers->Some_0@ } else { o.writers@ })
                    &&& b.slug@ == (if update.slug is Some { update.slug->Some_0@ } else { o.slug@ })
                    &&& b.ipfs_hash@ == (if update.ipfs_hash is Some { update.ipfs_hash->Some_0@ } else { o.ipfs_hash@ })
                    &&& b.updated == Some(old(self).stamp(who))
                    &&& b.id == o.id && b.created == o.created && b.posts_count == o.posts_count
                    &&& b.followers_count == o.followers_count && b.score == o.score
                    &&& final(self).blogs@.len() == old(self).blogs@.len()
                    &&& forall|j: u64| #![auto] old(self).has_blog(j) && j != blog_id ==> final(self).blog(j) == old(self).blog(j)
                    &&& final(self).events@ == old(self).events@.push(Event::BlogUpdated(who, blog_id))
                    &&& final(self).blog_followers == old(self).blog_followers
                    &&& final(self).posts == old(self).posts
                    &&& final(self).comments == old(self).comments
                    &&& final(self).reactions == old(self).reactions
                    &&& final(self).accounts == old(self).accounts
                    &&& final(self).score_ledger == old(self).score_ledger
                    &&& final(self).reputation_ledger == old(self).reputation_ledger
                    &&& final(self).same_links(*old(self))
                },
            },
    {
        if blog_id == 0 || blog_id > self.blogs.len() as u64 {
            return Err(Error::NotFound(Entity::Blog));
        }
        let b = (blog_id - 1) as usize;
        if who != self.blogs[b].created.account && !crate::social::vec_contains(&self.blogs[b].writers, who) {
            return Err(Error::Unauthorized);
        }
        if let Some(s) = &update.slug {
            check_slug(&self.config, s)?;
        }
        if let Some(h) = &update.ipfs_hash {
            check_hash(&self.config, h)?;
        }
        if let Some(s) = &update.slug {
            if self.slug_held_by_other(s, blog_id) {
                return Err(Error::Conflict(ConflictReason::SlugTaken));
            }
        }
        let ghost pre = *self;
        let stamp = Change { account: who, block: self.block, time: self.time };
        let old_writers = match &update.writers {
            Some(_) => Some(copy_ids(&self.blogs[b].writers)),
            None => None,
        };
        let old_slug = match &update.slug {
            Some(_) => Some(copy_bytes(&self.blogs[b].slug)),
            None => None,
        };
        let old_hash = match &update.ipfs_hash {
            Some(_) => Some(copy_bytes(&self.blogs[b].ipfs_hash)),
            None => None,
        };
        let ghost oh = self.blogs@[b as int].edit_history@;
        self.blogs[b].edit_history.push(BlogHistoryRecord {
            edited: stamp,
            old_data: BlogUpdate { writers: old_writers, slug: old_slug, ipfs_hash: old_hash },
        });
        if let Some(w) = update.writers {
            self.blogs[b].writers = w;
        }
        if let Some(s) = update.slug {
            self.blogs[b].slug = s;
        }
        if let Some(h) = update.ipfs_hash {
            self.blogs[b].ipfs_hash = h;
        }
        self.blogs[b].updated = Some(stamp);
        self.events.push(Event::BlogUpdated(who, blog_id));
        proof {
            assert(self.blogs@[b as int].edit_history@.take(oh.len() as int) =~= oh);
            assert forall|i: int| 0 <= i < self.blogs@.len() implies #[trigger] self.blogs@[i].id == i + 1 by {
                assert(pre.blogs@[i].id == i + 1);
            }
            assert forall|i: int| 0 <= i < self.blogs@.len() implies #[trigger] self.blogs@[i].followers_count
                == self.blog_followers@[i]@.len() by {
                assert(pre.blogs@[i].followers_count == pre.blog_followers@[i]@.len());
            }
            assert forall|i: int, j: int|
                0 <= i < self.blogs@.len() && 0 <= j < self.blogs@.len() && i != j
                    implies #[trigger] self.blogs@[i].slug@ != #[trigger] self.blogs@[j].slug@ by {
                if i != b && j != b {
                    assert(pre.blogs@[i].slug@ != pre.blogs@[j].slug@);
                } else if update.slug is None {
                    assert(pre.blogs@[i].slug@ != pre.blogs@[j].slug@);
                } else if i == b {
                    let jj = (j + 1) as u64;
                    assert(pre.blogs@[jj - 1] == pre.blogs@[j]);
                    assert(pre.has_blog(jj) && jj != blog_id);
                } else {
                    let ii = (i + 1) as u64;
                    assert(pre.blogs@[ii - 1] == pre.blogs@[i]);
                    assert(pre.has_blog(ii) && ii != blog_id);
                }
            }
            Module::lemma_accounts_wf_frame(pre, *self);
        }
        Ok(())
    }
}

/// Once a blog holds slug `s`, a second `create_blog` with `s` is refused
/// with a conflict (when its other input is valid), and that blog stays the
/// only one with `s`, so a lookup by `s` still finds it.
pub proof fn lemma_slug_stays_unique(m: Module, id: u64, s: Seq<u8>, hash: Seq<u8>)
    requires
        m.wf(),
        m.has_blog(id),
        m.blog(id).slug@ == s,
        slug_error(m.config, s.len() as int) is None,
        hash_error(m.config, hash.len() as int) is None,
    ensures
        m.create_blog_error(s, hash) == Some(Error::Conflict(ConflictReason::SlugTaken)),
        forall|j: u64| #[trigger] m.has_blog(j) && m.blog(j).slug@ == s ==> j == id,
{
    assert(m.blogs@[id - 1].slug@ == s);
    assert forall|j: u64| #[trigger] m.has_blog(j) && m.blog(j).slug@ == s implies j == id by {
        if j != id {
            assert(m.blogs@[j - 1].slug@ != m.blogs@[id - 1].slug@);
        }
    }
}

/// A copy of a sequence of ids.
pub fn copy_ids(a: &Vec<u64>) -> (r: Vec<u64>)
    ensures
        r@ == a@,
{
    let mut r: Vec<u64> = Vec::new();
    let mut i: usize = 0;
    while i < a.len()
        invariant
            i <= a@.len(),
            r@ == a@.subrange(0, i as int),
        decreases a@.len() - i,
    {
        r.push(a[i]);
        i = i + 1;
    }
    assert(r@ =~= a@);
    r
}

} // verus!
