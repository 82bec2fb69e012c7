use vstd::prelude::*;

use crate::social::lemma_frame_trans;

use crate::entities::{Blog, Comment, CommentHistoryRecord, CommentUpdate, Post, PostHistoryRecord, PostUpdate};
use crate::ledger::{ledger_apply, scored_once, LedgerKey};
use crate::social::vec_contains;
use crate::store::{copy_bytes, hash_error, Event, Module, ReactionLink};
use crate::types::{ConflictReason, Entity, Error, PostExtension, ScoringAction};

verus! {

/// Blog `b` with its posts count set aside.
pub open spec fn same_blog_but_posts_count(a: Blog, b: Blog) -> bool {
    &&& a.id == b.id
    &&& a.created == b.created
    &&& a.updated == b.updated
    &&& a.writers == b.writers
    &&& a.slug == b.slug
    &&& a.ipfs_hash == b.ipfs_hash
    &&& a.followers_count == b.followers_count
    &&& a.edit_history == b.edit_history
    &&& a.score == b.score
}

/// The ids of the blogs that `a` created, in order of creation.
pub open spec fn blogs_of_owner(blogs: Seq<Blog>, a: u64) -> Seq<u64>
    decreases blogs.len(),
{
    if blogs.len() == 0 {
        Seq::empty()
    } else if blogs.last().created.account == a {
        blogs_of_owner(blogs.drop_last(), a).push(blogs.last().id)
    } else {
        blogs_of_owner(blogs.drop_last(), a)
    }
}

/// The ids of the comments on post `p`, in order of creation.
pub open spec fn comments_on_post(comments: Seq<Comment>, p: u64) -> Seq<u64>
    decreases comments.len(),
{
    if comments.len() == 0 {
        Seq::empty()
    } else if comments.last().post_id == p {
        comments_on_post(comments.drop_last(), p).push(comments.last().id)
    } else {
        comments_on_post(comments.drop_last(), p)
    }
}

/// The ids of the reactions linked to target `t`, in index order.
pub open spec fn reactions_on(links: Seq<ReactionLink>, t: u64) -> Seq<u64>
    decreases links.len(),
{
    if links.len() == 0 {
        Seq::empty()
    } else if links.last().target == t {
        reactions_on(links.drop_last(), t).push(links.last().reaction_id)
    } else {
        reactions_on(links.drop_last(), t)
    }
}

fn reaction_ids_on(links: &Vec<ReactionLink>, t: u64) -> (r: Vec<u64>)
    ensures
        r@ == reactions_on(links@, t),
{
    let mut r: Vec<u64> = Vec::new();
    let mut i: usize = 0;
    while i < links.len()
        invariant
            i <= links@.len(),
            r@ == reactions_on(links@.take(i as int), t),
        decreases links@.len() - i,
    {
        assert(links@.take(i + 1).drop_last() == links@.take(i as int));
        if links[i].target == t {
            r.push(links[i].reaction_id);
        }
        i = i + 1;
    }
    assert(links@.take(i as int) == links@);
    r
}

/// The ids of the posts of blog `b`, in order of creation.
pub open spec fn posts_in_blog(posts: Seq<Post>, b: u64) -> Seq<u64>
    decreases posts.len(),
{
    if posts.len() == 0 {
        Seq::empty()
    } else if posts.last().blog_id == b {
        posts_in_blog(posts.drop_last(), b).push(posts.last().id)
    } else {
        posts_in_blog(posts.drop_last(), b)
    }
}

/// The hashes a comment has had, oldest first, ending with its current one.
pub open spec fn hash_versions(c: Comment) -> Seq<Seq<u8>> {
    Seq::new(c.edit_history@.len(), |i: int| c.edit_history@[i].old_data.ipfs_hash@).push(c.ipfs_hash@)
}

/// `c2` is `c1` after one edit that set its hash to `h`: one history
/// record is appended, holding the hash from before the edit.
pub open spec fn is_hash_edit(c1: Comment, c2: Comment, h: Seq<u8>) -> bool {
    &&& c2.edit_history@.len() == c1.edit_history@.len() + 1
    &&& c2.edit_history@.take(c1.edit_history@.len() as int) == c1.edit_history@
    &&& c2.edit_history@.last().old_data.ipfs_hash@ == c1.ipfs_hash@
    &&& c2.ipfs_hash@ == h
}

/// After a run of edits, each setting the next hash of `hs`, the history
/// has grown by one record per edit, and replaying its records from the
/// start gives back every hash the comment held along the way.
pub proof fn lemma_history_replay(cs: Seq<Comment>, hs: Seq<Seq<u8>>)
    requires
        cs.len() == hs.len() + 1,
        forall|i: int| 0 <= i < hs.len() ==> is_hash_edit(#[trigger] cs[i], cs[i + 1], hs[i]),
    ensures
        cs.last().edit_history@.len() == cs[0].edit_history@.len() + hs.len(),
        forall|i: int| 0 <= i < cs.len() ==>
            hash_versions(cs.last())[cs[0].edit_history@.len() + i] == (#[trigger] cs[i]).ipfs_hash@,
    decreases hs.len(),
{
    if hs.len() > 0 {
        let n = hs.len() as int;
        let init = cs.drop_last();
        assert forall|i: int| 0 <= i < hs.drop_last().len() implies
            is_hash_edit(#[trigger] init[i], init[i + 1], hs.drop_last()[i]) by {
            assert(is_hash_edit(cs[i], cs[i + 1], hs[i]));
        }
        lemma_history_replay(init, hs.drop_last());
        let last = cs.last();
        let prev = cs[n - 1];
        assert(init.last() == prev);
        assert(is_hash_edit(cs[n - 1], cs[n], hs[n - 1]));
        let base = cs[0].edit_history@.len();
        assert forall|i: int| 0 <= i < cs.len() implies
            hash_versions(last)[base + i] == (#[trigger] cs[i]).ipfs_hash@ by {
            if i < n {
                assert(hash_versions(prev)[base + i] == init[i].ipfs_hash@);
                if i < n - 1 {
                    assert(last.edit_history@[base + i] == prev.edit_history@[base + i]);
                }
            }
        }
    }
}

/// Post `b` with its comments count, vote counts and score set aside.
pub open spec fn same_post_content(a: Post, b: Post) -> bool {
    &&& a.id == b.id
    &&& a.blog_id == b.blog_id
    &&& a.created == b.created
    &&& a.updated == b.updated
    &&& a.extension == b.extension
    &&& a.ipfs_hash == b.ipfs_hash
    &&& a.shares_count == b.shares_count
    &&& a.edit_history == b.edit_history
}

/// Comment `b` with its reply count, vote counts and score set aside.
pub open spec fn same_comment_content(a: Comment, b: Comment) -> bool {
    &&& a.id == b.id
    &&& a.parent_id == b.parent_id
    &&& a.post_id == b.post_id
    &&& a.created == b.created
    &&& a.updated == b.updated
    &&& a.ipfs_hash == b.ipfs_hash
    &&& a.shares_count == b.shares_count
    &&& a.edit_history == b.edit_history
}

/// A counter one lower, stopping at zero.
pub open spec fn dec16(n: u16) -> u16 {
    if n > 0 {
        (n - 1) as u16
    } else {
        0
    }
}

/// Where a share of post or comment `target` by `who` is scored.
pub open spec fn share_key(who: u64, target: u64, action: ScoringAction) -> LedgerKey {
    LedgerKey { actor: who, target, action }
}

/// Where a comment on a post is scored, in both ledgers.
pub open spec fn comment_key(who: u64, post_id: u64) -> LedgerKey {
    LedgerKey { actor: who, target: post_id, action: ScoringAction::CreateComment }
}

/// The history of a comment is in time order: of two records, the later
/// one is stamped no earlier, and no record is later than the clock.
pub proof fn lemma_comment_history_in_time_order(m: Module, id: u64, a: int, b: int)
    requires
        m.wf(),
        m.has_comment(id),
        0 <= a <= b < m.comment(id).edit_history@.len(),
    ensures
        m.comment(id).edit_history@[a].edited.time <= m.comment(id).edit_history@[b].edited.time <= m.time,
    decreases b - a,
{
    let i = id - 1;
    assert(m.comments@[i].edit_history@[b].edited.time <= m.time);
    if a < b {
        lemma_comment_history_in_time_order(m, id, a, b - 1);
        assert(m.comments@[i].edit_history@[b - 1].edited.time <= m.comments@[i].edit_history@[b].edited.time);
    }
}

impl Module {
    pub open spec fn has_post(&self, id: u64) -> bool {
        1 <= id <= self.posts@.len()
    }

    pub open spec fn post(&self, id: u64) -> Post {
        self.posts@[id - 1]
    }

    pub open spec fn has_comment(&self, id: u64) -> bool {
        1 <= id <= self.comments@.len()
    }

    pub open spec fn comment(&self, id: u64) -> Comment {
        self.comments@[id - 1]
    }

    /// The author of what a post with extension `ext` shares.
    pub open spec fn share_author(&self, ext: PostExtension) -> u64 {
        match ext {
            PostExtension::RegularPost => 0,
            PostExtension::SharedPost(q) => self.post(q).created.account,
            PostExtension::SharedComment(c) => self.comment(c).created.account,
        }
    }

    pub open spec fn extension_error(&self, ext: PostExtension) -> Option<Error> {
        match ext {
            PostExtension::RegularPost => None,
            PostExtension::SharedPost(p) => if self.has_post(p) {
                None
            } else {
                Some(Error::NotFound(Entity::Post))
            },
            PostExtension::SharedComment(c) => if self.has_comment(c) {
                None
            } else {
                Some(Error::NotFound(Entity::Comment))
            },
        }
    }

    pub open spec fn create_post_error(&self, who: u64, blog_id: u64, hash: Seq<u8>, ext: PostExtension) -> Option<Error> {
        if !self.has_blog(blog_id) {
            Some(Error::NotFound(Entity::Blog))
        } else if who != self.blog(blog_id).created.account && !self.blog(blog_id).writers@.contains(who) {
            Some(Error::Unauthorized)
        } else if hash_error(self.config, hash.len() as int) is Some {
            hash_error(self.config, hash.len() as int)
        } else if self.extension_error(ext) is Some {
            self.extension_error(ext)
        } else if self.blog(blog_id).posts_count == u16::MAX || self.next_post_id == u64::MAX
            || (ext matches PostExtension::SharedPost(q) && self.post(q).shares_count == u16::MAX)
            || (ext matches PostExtension::SharedComment(c) && self.comment(c).shares_count == u16::MAX) {
            Some(Error::Conflict(ConflictReason::CounterOverflow))
        } else {
            None
        }
    }

    /// The ids of the posts of blog `blog_id`, oldest first.
    pub fn post_ids_by_blog_id(&self, blog_id: u64) -> (r: Vec<u64>)
        ensures
            r@ == posts_in_blog(self.posts@, blog_id),
    {
        let mut r: Vec<u64> = Vec::new();
        let mut i: usize = 0;
        while i < self.posts.len()
            invariant
                i <= self.posts@.len(),
                r@ == posts_in_blog(self.posts@.take(i as int), blog_id),
            decreases self.posts@.len() - i,
        {
            assert(self.posts@.take(i + 1).drop_last() == self.posts@.take(i as int));
            if self.posts[i].blog_id == blog_id {
                r.push(self.posts[i].id);
            }
            i = i + 1;
        }
        assert(self.posts@.take(i as int) == self.posts@);
        r
    }

    /// The ids of the blogs that `a` created, oldest first.
    pub fn blog_ids_by_owner(&self, a: u64) -> (r: Vec<u64>)
        ensures
            r@ == blogs_of_owner(self.blogs@, a),
    {
        let mut r: Vec<u64> = Vec::new();
        let mut i: usize = 0;
        while i < self.blogs.len()
            invariant
                i <= self.blogs@.len(),
                r@ == blogs_of_owner(self.blogs@.take(i as int), a),
            decreases self.blogs@.len() - i,
        {
            assert(self.blogs@.take(i + 1).drop_last() == self.blogs@.take(i as int));
            if self.blogs[i].created.account == a {
                r.push(self.blogs[i].id);
            }
            i = i + 1;
        }
        assert(self.blogs@.take(i as int) == self.blogs@);
        r
    }

    /// The ids of the comments on post `post_id`, oldest first.
    pub fn comment_ids_by_post_id(&self, post_id: u64) -> (r: Vec<u64>)
        ensures
            r@ == comments_on_post(self.comments@, post_id),
    {
        let mut r: Vec<u64> = Vec::new();
        let mut i: usize = 0;
        while i < self.comments.len()
            invariant
                i <= self.comments@.len(),
                r@ == comments_on_post(self.comments@.take(i as int), post_id),
            decreases self.comments@.len() - i,
        {
            assert(self.comments@.take(i + 1).drop_last() == self.comments@.take(i as int));
            if self.comments[i].post_id == post_id {
                r.push(self.comments[i].id);
            }
            i = i + 1;
        }
        assert(self.comments@.take(i as int) == self.comments@);
        r
    }

    /// The ids of the live reactions on post `post_id`.
    pub fn reaction_ids_by_post_id(&self, post_id: u64) -> (r: Vec<u64>)
        ensures
            r@ == reactions_on(self.post_reactions@, post_id),
    {
        reaction_ids_on(&self.post_reactions, post_id)
    }

    /// The ids of the live reactions on comment `comment_id`.
    pub fn reaction_ids_by_comment_id(&self, comment_id: u64) -> (r: Vec<u64>)
        ensures
            r@ == reactions_on(self.comment_reactions@, comment_id),
    {
        reaction_ids_on(&self.comment_reactions, comment_id)
    }

    /// Stores a new post once every check has passed.
    fn insert_post(&mut self, who: u64, blog_id: u64, ipfs_hash: Vec<u8>, extension: PostExtension) -> (id: u64)
        requires
            old(self).wf(),
            old(self).create_post_error(who, blog_id, ipfs_hash@, extension) is None,
        ensures
            final(self).wf(),
            ({
                    let p = final(self).post(id);
                    &&& id == old(self).next_post_id
                    &&& final(self).same_settings(*old(self))
                    &&& final(self).same_links(*old(self))
                    &&& final(self).next_post_id == id + 1
                    &&& final(self).posts@.len() == old(self).posts@.len() + 1
                    &&& final(self).posts@.take(old(self).posts@.len() as int) == old(self).posts@
                    &&& p.id == id && p.blog_id == blog_id && p.created == old(self).stamp(who)
                    &&& p.updated is None && p.extension == extension && p.ipfs_hash@ == ipfs_hash@
                    &&& p.comments_count == 0 && p.upvotes_count == 0 && p.downvotes_count == 0
                    &&& p.shares_count == 0 && p.score == 0 && p.edit_history@.len() == 0
                    &&& final(self).blog(blog_id).posts_count == old(self).blog(blog_id).posts_count + 1
                    &&& same_blog_but_posts_count(final(self).blog(blog_id), old(self).blog(blog_id))
                    &&& final(self).blogs@.len() == old(self).blogs@.len()
                    &&& forall|j: u64| #![auto] old(self).has_blog(j) && j != blog_id ==> final(self).blog(j) == old(self).blog(j)
                    &&& final(self).events@ == old(self).events@.push(Event::PostCreated(who, id))
                    &&& final(self).blog_followers == old(self).blog_followers
                    &&& final(self).comments == old(self).comments
                    &&& final(self).reactions == old(self).reactions
                    &&& final(self).accounts == old(self).accounts
                    &&& final(self).score_ledger == old(self).score_ledger
                    &&& final(self).reputation_ledger == old(self).reputation_ledger
            }),
    {
        let n = self.blogs.len();
        assert(1 <= blog_id <= n);
        let b = (blog_id - 1) as usize;
        let ghost pre = *self;
        let id = self.next_post_id;
        let post = Post {
            id,
            blog_id,
            created: crate::types::Change { account: who, block: self.block, time: self.time },
            updated: None,
            extension,
            ipfs_hash,
            comments_count: 0,
            upvotes_count: 0,
            downvotes_count: 0,
            shares_count: 0,
            edit_history: Vec::new(),
            score: 0,
        };
        self.posts.push(post);
        self.next_post_id = id + 1;
        self.blogs[b].posts_count = self.blogs[b].posts_count + 1;
        self.events.push(Event::PostCreated(who, id));
        proof {
            Module::lemma_blogs_wf_frame(pre, *self);
            Module::lemma_accounts_wf_frame(pre, *self);
            assert(self.posts@.take(pre.posts@.len() as int) =~= pre.posts@);
            assert forall|i: int| 0 <= i < self.posts@.len() implies #[trigger] self.posts@[i].id == i + 1 by {
                if i < pre.posts@.len() {
                    assert(pre.posts@[i].id == i + 1);
                }
            }
            assert forall|i: int| 0 <= i < self.posts@.len() implies 1 <= #[trigger] self.posts@[i].blog_id
                <= self.blogs@.len() by {
                if i < pre.posts@.len() {
                    assert(pre.posts@[i] == self.posts@[i]);
                }
            }
            assert forall|i: int| 0 <= i < self.comments@.len() implies 1 <= #[trigger] self.comments@[i].post_id
                <= self.posts@.len() by {
                assert(pre.comments@[i].post_id <= pre.posts@.len());
            }
        }
        id
    }

    /// Creates a post in blog `blog_id` on behalf of its owner or one of
    /// its writers. A post that shares another post or a comment adds one
    /// to the shares of what it shares; the first share of a post or comment
    /// by an account also scores it and credits its author.
    #[verifier::rlimit(100)]
    pub fn create_post(&mut self, who: u64, blog_id: u64, ipfs_hash: Vec<u8>, extension: PostExtension)
        -> (r: Result<u64, Error>)
        requires
            old(self).wf(),
        ensures
            final(self).wf(),
            match old(self).create_post_error(who, blog_id, ipfs_hash@, extension) {
                Some(e) => r == Err::<u64, Error>(e) && *final(self) == *old(self),
                None => {
                    let id = old(self).next_post_id;
                    let p = final(self).post(id);
                    let created = old(self).events@.push(Event::PostCreated(who, id));
                    &&& r == Ok::<u64, Error>(id)
                    &&& final(self).same_settings(*old(self))
                    &&& final(self).accounts_framed(*old(self), old(self).share_author(extension), old(self).share_author(extension))
                    &&& final(self).profiles_kept(*old(self))
                    &&& final(self).follows_kept(*old(self), old(self).share_author(extension))
                    &&& final(self).same_links(*old(self))
                    &&& final(self).next_post_id == id + 1
                    &&& final(self).posts@.len() == old(self).posts@.len() + 1
                    &&& p.id == id && p.blog_id == blog_id && p.created == old(self).stamp(who)
                    &&& p.updated is None && p.extension == extension && p.ipfs_hash@ == ipfs_hash@
                    &&& p.comments_count == 0 && p.upvotes_count == 0 && p.downvotes_count == 0
                    &&& p.shares_count == 0 && p.score == 0 && p.edit_history@.len() == 0
                    &&& final(self).blog(blog_id).posts_count == old(self).blog(blog_id).posts_count + 1
                    &&& same_blog_but_posts_count(final(self).blog(blog_id), old(self).blog(blog_id))
                    &&& final(self).blogs@.len() == old(self).blogs@.len()
                    &&& forall|j: u64| #![auto] old(self).has_blog(j) && j != blog_id ==> final(self).blog(j) == old(self).blog(j)
                    &&& forall|j: u64| #![auto] old(self).has_post(j) && extension != PostExtension::SharedPost(j)
                        ==> final(self).post(j) == old(self).post(j)
                    &&& final(self).blog_followers == old(self).blog_followers
                    &&& final(self).reactions == old(self).reactions
                    &&& match extension {
                        PostExtension::RegularPost => {
                            &&& final(self).comments == old(self).comments
                            &&& final(self).accounts == old(self).accounts
                            &&& final(self).score_ledger == old(self).score_ledger
                            &&& final(self).reputation_ledger == old(self).reputation_ledger
                            &&& final(self).events@ == created
                        },
                        PostExtension::SharedPost(q) => {
                            let o = old(self).post(q);
                            let n = final(self).post(q);
                            let k = share_key(who, q, ScoringAction::SharePost);
                            let w = old(self).config.weight_of(ScoringAction::SharePost);
                            let author = o.created.account;
                            &&& n.shares_count == o.shares_count + 1
                            &&& n.updated == o.updated && n.extension == o.extension
                            &&& n.id == o.id && n.blog_id == o.blog_id && n.created == o.created
                            &&& n.ipfs_hash == o.ipfs_hash && n.edit_history == o.edit_history
                            &&& n.comments_count == o.comments_count && n.upvotes_count == o.upvotes_count
                            &&& n.downvotes_count == o.downvotes_count
                            &&& scored_once(old(self).score_ledger.view(), o.score as int, final(self).score_ledger.view(),
                                n.score as int, i32::MIN as int, i32::MAX as int, k, w)
                            &&& scored_once(old(self).reputation_ledger.view(), old(self).reputation_of(author) as int,
                                final(self).reputation_ledger.view(), final(self).reputation_of(author) as int,
                                0, u32::MAX as int, k, w)
                            &&& final(self).comments == old(self).comments
                            &&& final(self).events@ == if old(self).reputation_ledger.view().contains_key(k) {
                                created.push(Event::PostShared(who, q))
                            } else {
                                created.push(Event::PostShared(who, q)).push(Event::AccountReputationChanged(
                                    author, ScoringAction::SharePost, final(self).reputation_of(author)))
                            }
                        },
                        PostExtension::SharedComment(c) => {
                            let o = old(self).comment(c);
                            let n = final(self).comment(c);
                            let k = share_key(who, c, ScoringAction::ShareComment);
                            let w = old(self).config.weight_of(ScoringAction::ShareComment);
                            let author = o.created.account;
                            &&& n.shares_count == o.shares_count + 1
                            &&& n.id == o.id && n.post_id == o.post_id && n.parent_id == o.parent_id
                            &&& n.created == o.created && n.ipfs_hash == o.ipfs_hash && n.edit_history == o.edit_history
                            &&& n.updated == o.updated
                            &&& n.upvotes_count == o.upvotes_count && n.downvotes_count == o.downvotes_count
                            &&& n.direct_replies_count == o.direct_replies_count
                            &&& final(self).comments@.len() == old(self).comments@.len()
                            &&& forall|j: u64| #![auto] old(self).has_comment(j) && j != c
                                ==> final(self).comment(j) == old(self).comment(j)
                            &&& scored_once(old(self).score_ledger.view(), o.score as int, final(self).score_ledger.view(),
                                n.score as int, i32::MIN as int, i32::MAX as int, k, w)
                            &&& scored_once(old(self).reputation_ledger.view(), old(self).reputation_of(author) as int,
                                final(self).reputation_ledger.view(), final(self).reputation_of(author) as int,
                                0, u32::MAX as int, k, w)
                            &&& final(self).events@ == if old(self).reputation_ledger.view().contains_key(k) {
                                created.push(Event::CommentShared(who, c))
                            } else {
                                created.push(Event::CommentShared(who, c)).push(Event::AccountReputationChanged(
                                    author, ScoringAction::ShareComment, final(self).reputation_of(author)))
                            }
                        },
                    }
                },
            },
    {
        if blog_id == 0 || blog_id > self.blogs.len() as u64 {
            return Err(Error::NotFound(Entity::Blog));
        }
        let b = (blog_id - 1) as usize;
        if who != self.blogs[b].created.account && !vec_contains(&self.blogs[b].writers, who) {
            return Err(Error::Unauthorized);
        }
        if ipfs_hash.len() != self.config.ipfs_hash_len as usize {
            return Err(Error::ValidationFailed(crate::types::Field::IpfsHash, crate::types::Reason::WrongLength));
        }
        match extension {
            PostExtension::RegularPost => {},
            PostExtension::SharedPost(p) => {
                if p == 0 || p > self.posts.len() as u64 {
                    return Err(Error::NotFound(Entity::Post));
                }
            },
            PostExtension::SharedComment(c) => {
                if c == 0 || c > self.comments.len() as u64 {
                    return Err(Error::NotFound(Entity::Comment));
                }
            },
        }
        let shares_full = match extension {
            PostExtension::RegularPost => false,
            PostExtension::SharedPost(q) => self.posts[(q - 1) as usize].shares_count == u16::MAX,
            PostExtension::SharedComment(c) => self.comments[(c - 1) as usize].shares_count == u16::MAX,
        };
        if self.blogs[b].posts_count == u16::MAX || self.next_post_id == u64::MAX || shares_full {
            return Err(Error::Conflict(ConflictReason::CounterOverflow));
        }
        let ghost old_self = *self;
        let id = self.insert_post(who, blog_id, ipfs_hash, extension);
        let (target, action) = match extension {
            PostExtension::RegularPost => {
                return Ok(id);
            },
            PostExtension::SharedPost(q) => (q, ScoringAction::SharePost),
            PostExtension::SharedComment(c) => (c, ScoringAction::ShareComment),
        };
        let key = LedgerKey { actor: who, target, action };
        let w = self.config.weight(action);
        let scored = self.score_ledger.get(key).is_some();
        let credited = self.reputation_ledger.get(key).is_some();
        let ghost mid = *self;
        let t = (target - 1) as usize;
        let author = if action == ScoringAction::SharePost {
            self.posts[t].shares_count = self.posts[t].shares_count + 1;
            if !scored {
                match self.score_ledger.apply_i32(self.posts[t].score, key, w) {
                    Ok(s) => {
                        self.posts[t].score = s;
                    },
                    Err(_) => {
                        proof {
                            assert(false);
                        }
                    },
                }
            }
            self.events.push(Event::PostShared(who, target));
            self.posts[t].created.account
        } else {
            self.comments[t].shares_count = self.comments[t].shares_count + 1;
            if !scored {
                match self.score_ledger.apply_i32(self.comments[t].score, key, w) {
                    Ok(s) => {
                        self.comments[t].score = s;
                    },
                    Err(_) => {
                        proof {
                            assert(false);
                        }
                    },
                }
            }
            self.events.push(Event::CommentShared(who, target));
            self.comments[t].created.account
        };
        proof {
            assert forall|i: int| 0 <= i < self.posts@.len() implies #[trigger] self.posts@[i].id == i + 1 by {
                assert(mid.posts@[i].id == i + 1);
            }
            assert forall|i: int| 0 <= i < self.posts@.len() implies 1 <= #[trigger] self.posts@[i].blog_id
                <= self.blogs@.len() by {
                assert(mid.posts@[i].blog_id <= mid.blogs@.len());
            }
            assert forall|i: int| 0 <= i < self.comments@.len() implies #[trigger] self.comments@[i].id == i + 1 by {
                assert(mid.comments@[i].id == i + 1);
            }
            assert forall|i: int| 0 <= i < self.comments@.len() implies 1 <= #[trigger] self.comments@[i].post_id
                <= self.posts@.len() by {
                assert(mid.comments@[i].post_id <= mid.posts@.len());
            }
            assert forall|i: int| 0 <= i < self.comments@.len() implies match #[trigger] self.comments@[i].parent_id {
                Some(q) => 1 <= q <= i,
                None => true,
            } by {
                assert(mid.comments@[i].parent_id == self.comments@[i].parent_id);
            }
            assert(self.content_wf());
        }
        if !credited {
            let ghost before = *self;
            let ko = self.ensure_account(author);
            proof {
                if old_self.has_account(author) {
                    old_self.lemma_account_index(old_self.account_index(author));
                }
            }
            let ghost pre = *self;
            match self.reputation_ledger.apply_u32(self.accounts[ko].social.reputation, key, w) {
                Ok(v) => {
                    self.accounts[ko].social.reputation = v;
                    self.events.push(Event::AccountReputationChanged(author, action, v));
                },
                Err(_) => {
                    proof {
                        assert(false);
                    }
                },
            }
            proof {
                Module::lemma_accounts_wf_graph_frame(pre, *self);
                self.lemma_account_index(ko as int);
                pre.lemma_account_index(ko as int);
                assert(self.accounts_framed(pre, author, author));
                assert(self.profiles_kept(pre));
                lemma_frame_trans(before, pre, *self, author, author);
                assert(pre.follows_kept(before, author));
                assert(before.accounts == old_self.accounts);
            }
        }
        Ok(id)
    }

    pub open spec fn update_post_error(&self, who: u64, post_id: u64, update: PostUpdate) -> Option<Error> {
        if !self.has_post(post_id) {
            Some(Error::NotFound(Entity::Post))
        } else if who != self.post(post_id).created.account {
            Some(Error::Unauthorized)
        } else if update.ipfs_hash is Some && hash_error(self.config, update.ipfs_hash->Some_0@.len() as int) is Some {
            hash_error(self.config, update.ipfs_hash->Some_0@.len() as int)
        } else if update.blog_id is Some && !self.has_blog(update.blog_id->Some_0) {
            Some(Error::NotFound(Entity::Blog))
        } else if update.blog_id is Some && who != self.blog(update.blog_id->Some_0).created.account
            && !self.blog(update.blog_id->Some_0).writers@.contains(who) {
            Some(Error::Unauthorized)
        } else if update.blog_id is Some && update.blog_id->Some_0 != self.post(post_id).blog_id
            && self.blog(update.blog_id->Some_0).posts_count == u16::MAX {
            Some(Error::Conflict(ConflictReason::CounterOverflow))
        } else {
            None
        }
    }

    /// The author of post `post_id` changes the fields given in `update`,
    /// possibly moving it to another blog they may write to; the values they
    /// replace are appended to the post's history, stamped with this edit.
    pub fn update_post(&mut self, who: u64, post_id: u64, update: PostUpdate) -> (r: Result<(), Error>)
        requires
            old(self).wf(),
        ensures
            final(self).wf(),
            match old(self).update_post_error(who, post_id, update) {
                Some(e) => r == Err::<(), Error>(e) && *final(self) == *old(self),
                None => {
                    let o = old(self).post(post_id);
                    let p = final(self).post(post_id);
                    let rec = p.edit_history@.last();
                    let from = o.blog_id;
                    let to = if update.blog_id is Some { update.blog_id->Some_0 } else { from };
                    &&& r == Ok::<(), Error>(())
                    &&& final(self).same_settings(*old(self))
                    &&& final(self).same_links(*old(self))
                    &&& p.edit_history@.len() == o.edit_history@.len() + 1
                    &&& p.edit_history@.take(o.edit_history@.len() as int) == o.edit_history@
                    &&& rec.edited == old(self).stamp(who)
                    &&& rec.old_data.blog_id == (if update.blog_id is Some { Some(from) } else { None::<u64> })
                    &&& (rec.old_data.ipfs_hash is Some <==> update.ipfs_hash is Some)
                    &&& (rec.old_data.ipfs_hash is Some ==> rec.old_data.ipfs_hash->Some_0@ == o.ipfs_hash@)
                    &&& p.blog_id == to
                    &&& p.ipfs_hash@ == (if update.ipfs_hash is Some { update.ipfs_hash->Some_0@ } else { o.ipfs_hash@ })
                    &&& p.updated == Some(old(self).stamp(who))
                    &&& p.id == o.id && p.created == o.created && p.extension == o.extension && p.score == o.score
                    &&& p.comments_count == o.comments_count && p.upvotes_count == o.upvotes_count
                    &&& p.downvotes_count == o.downvotes_count && p.shares_count == o.shares_count
                    &&& final(self).posts@.len() == old(self).posts@.len()
                    &&& forall|j: u64| #![auto] old(self).has_post(j) && j != post_id ==> final(self).post(j) == old(self).post(j)
                    &&& final(self).blogs@.len() == old(self).blogs@.len()
                    &&& (to != from ==> final(self).blog(from).posts_count == dec16(old(self).blog(from).posts_count)
                        && final(self).blog(to).posts_count == old(self).blog(to).posts_count + 1)
                    &&& forall|j: u64| #![auto] old(self).has_blog(j) ==> same_blog_but_posts_count(final(self).blog(j), old(self).blog(j))
                    &&& forall|j: u64| #![auto] old(self).has_blog(j) && (j != from && j != to || to == from)
                        ==> final(self).blog(j) == old(self).blog(j)
                    &&& final(self).events@ == old(self).events@.push(Event::PostUpdated(who, post_id))
                    &&& final(self).blog_followers == old(self).blog_followers
                    &&& final(self).comments == old(self).comments
                    &&& final(self).reactions == old(self).reactions
                    &&& final(self).accounts == old(self).accounts
                    &&& final(self).score_ledger == old(self).score_ledger
                    &&& final(self).reputation_ledger == old(self).reputation_ledger
                },
            },
    {
        if post_id == 0 || post_id > self.posts.len() as u64 {
            return Err(Error::NotFound(Entity::Post));
        }
        let p = (post_id - 1) as usize;
        if who != self.posts[p].created.account {
            return Err(Error::Unauthorized);
        }
        if let Some(h) = &update.ipfs_hash {
            if h.len() != self.config.ipfs_hash_len as usize {
                return Err(Error::ValidationFailed(crate::types::Field::IpfsHash, crate::types::Reason::WrongLength));
            }
        }
        let from = self.posts[p].blog_id;
        let to = match update.blog_id {
            Some(nb) => nb,
            None => from,
        };
        if let Some(nb) = update.blog_id {
            if nb == 0 || nb > self.blogs.len() as u64 {
                return Err(Error::NotFound(Entity::Blog));
            }
            let t = (nb - 1) as usize;
            if who != self.blogs[t].created.account && !vec_contains(&self.blogs[t].writers, who) {
                return Err(Error::Unauthorized);
            }
            if nb != from && self.blogs[t].posts_count == u16::MAX {
                return Err(Error::Conflict(ConflictReason::CounterOverflow));
            }
        }
        let ghost pre = *self;
        assert(1 <= from <= self.blogs@.len());
        let stamp = crate::types::Change { account: who, block: self.block, time: self.time };
        let old_blog = match update.blog_id {
            Some(_) => Some(from),
            None => None,
        };
        let old_hash = match &update.ipfs_hash {
            Some(_) => Some(copy_bytes(&self.posts[p].ipfs_hash)),
            None => None,
        };
        let ghost oh = self.posts@[p as int].edit_history@;
        self.posts[p].edit_history.push(PostHistoryRecord {
            edited: stamp,
            old_data: PostUpdate { blog_id: old_blog, ipfs_hash: old_hash },
        });
        if let Some(h) = update.ipfs_hash {
            self.posts[p].ipfs_hash = h;
        }
        self.posts[p].blog_id = to;
        self.posts[p].updated = Some(stamp);
        if to != from {
            let f = (from - 1) as usize;
            let t = (to - 1) as usize;
            if self.blogs[f].posts_count > 0 {
                self.blogs[f].posts_count = self.blogs[f].posts_count - 1;
            }
            self.blogs[t].posts_count = self.blogs[t].posts_count + 1;
        }
        self.events.push(Event::PostUpdated(who, post_id));
        proof {
            assert(self.posts@[p as int].edit_history@.take(oh.len() as int) =~= oh);
            Module::lemma_blogs_wf_frame(pre, *self);
            Module::lemma_accounts_wf_frame(pre, *self);
            assert forall|i: int| 0 <= i < self.posts@.len() implies #[trigger] self.posts@[i].id == i + 1 by {
                assert(pre.posts@[i].id == i + 1);
            }
            assert forall|i: int| 0 <= i < self.posts@.len() implies 1 <= #[trigger] self.posts@[i].blog_id
                <= self.blogs@.len() by {
                assert(pre.posts@[i].blog_id <= pre.blogs@.len());
            }
        }
        Ok(())
    }

    pub open spec fn create_comment_error(&self, post_id: u64, parent_id: Option<u64>, hash: Seq<u8>) -> Option<Error> {
        if !self.has_post(post_id) {
            Some(Error::NotFound(Entity::Post))
        } else if parent_id is Some && (!self.has_comment(parent_id->Some_0)
            || self.comment(parent_id->Some_0).post_id != post_id) {
            Some(Error::NotFound(Entity::Comment))
        } else if hash_error(self.config, hash.len() as int) is Some {
            hash_error(self.config, hash.len() as int)
        } else if self.post(post_id).comments_count == u16::MAX || self.next_comment_id == u64::MAX
            || (parent_id is Some && self.comment(parent_id->Some_0).direct_replies_count == u16::MAX) {
            Some(Error::Conflict(ConflictReason::CounterOverflow))
        } else {
            None
        }
    }

    /// Creates a comment on post `post_id`, as a reply to `parent_id` when
    /// given. The first comment of an account on a post scores the post and
    /// credits its author; later ones score nothing.
    #[verifier::rlimit(100)]
    pub fn create_comment(&mut self, who: u64, post_id: u64, parent_id: Option<u64>, ipfs_hash: Vec<u8>)
        -> (r: Result<u64, Error>)
        requires
            old(self).wf(),
        ensures
            final(self).wf(),
            match old(self).create_comment_error(post_id, parent_id, ipfs_hash@) {
                Some(e) => r == Err::<u64, Error>(e) && *final(self) == *old(self),
                None => {
                    let id = old(self).next_comment_id;
                    let c = final(self).comment(id);
                    let author = old(self).post(post_id).created.account;
                    let k = comment_key(who, post_id);
                    let w = old(self).config.weight_of(ScoringAction::CreateComment);
                    &&& r == Ok::<u64, Error>(id)
                    &&& final(self).same_settings(*old(self))
                    &&& final(self).accounts_framed(*old(self), old(self).post(post_id).created.account, old(self).post(post_id).created.account)
                    &&& final(self).profiles_kept(*old(self))
                    &&& final(self).follows_kept(*old(self), old(self).post(post_id).created.account)
                    &&& final(self).same_links(*old(self))
                    &&& final(self).next_comment_id == id + 1
                    &&& final(self).comments@.len() == old(self).comments@.len() + 1
                    &&& c.id == id && c.parent_id == parent_id && c.post_id == post_id
                    &&& c.created == old(self).stamp(who) && c.updated is None && c.ipfs_hash@ == ipfs_hash@
                    &&& c.upvotes_count == 0 && c.downvotes_count == 0 && c.shares_count == 0
                    &&& c.direct_replies_count == 0 && c.score == 0 && c.edit_history@.len() == 0
                    &&& forall|j: u64| #![auto] old(self).has_comment(j) && Some(j) != parent_id
                        ==> final(self).comment(j) == old(self).comment(j)
                    &&& (parent_id matches Some(q) ==> final(self).comment(q).direct_replies_count
                        == old(self).comment(q).direct_replies_count + 1)
                    &&& final(self).post(post_id).comments_count == old(self).post(post_id).comments_count + 1
                    &&& final(self).post(post_id).upvotes_count == old(self).post(post_id).upvotes_count
                    &&& final(self).post(post_id).downvotes_count == old(self).post(post_id).downvotes_count
                    &&& same_post_content(final(self).post(post_id), old(self).post(post_id))
                    &&& final(self).posts@.len() == old(self).posts@.len()
                    &&& forall|j: u64| #![auto] old(self).has_post(j) && j != post_id ==> final(self).post(j) == old(self).post(j)
                    &&& if old(self).score_ledger.view().contains_key(k) {
                        final(self).score_ledger == old(self).score_ledger
                            && final(self).post(post_id).score == old(self).post(post_id).score
                    } else {
                        ledger_apply(old(self).score_ledger.view(), old(self).post(post_id).score as int,
                            i32::MIN as int, i32::MAX as int, k, w)
                            == Ok::<(Map<LedgerKey, i16>, int), Error>(
                                (final(self).score_ledger.view(), final(self).post(post_id).score as int))
                    }
                    &&& if old(self).reputation_ledger.view().contains_key(k) {
                        &&& final(self).reputation_ledger == old(self).reputation_ledger
                        &&& final(self).accounts == old(self).accounts
                        &&& final(self).events@ == old(self).events@.push(Event::CommentCreated(who, id))
                    } else {
                        &&& ledger_apply(old(self).reputation_ledger.view(), old(self).reputation_of(author) as int,
                            0, u32::MAX as int, k, w)
                            == Ok::<(Map<LedgerKey, i16>, int), Error>(
                                (final(self).reputation_ledger.view(), final(self).reputation_of(author) as int))
                        &&& final(self).events@ == old(self).events@.push(Event::CommentCreated(who, id)).push(
                            Event::AccountReputationChanged(author, ScoringAction::CreateComment,
                                final(self).reputation_of(author)))
                    }
                    &&& final(self).blogs == old(self).blogs
                    &&& final(self).blog_followers == old(self).blog_followers
                    &&& final(self).reactions == old(self).reactions
                },
            },
    {
        if post_id == 0 || post_id > self.posts.len() as u64 {
            return Err(Error::NotFound(Entity::Post));
        }
        let p = (post_id - 1) as usize;
        let mut replies: u16 = 0;
        if let Some(q) = parent_id {
            if q == 0 || q > self.comments.len() as u64 || self.comments[(q - 1) as usize].post_id != post_id {
                return Err(Error::NotFound(Entity::Comment));
            }
            replies = self.comments[(q - 1) as usize].direct_replies_count;
        }
        if ipfs_hash.len() != self.config.ipfs_hash_len as usize {
            return Err(Error::ValidationFailed(crate::types::Field::IpfsHash, crate::types::Reason::WrongLength));
        }
        if self.posts[p].comments_count == u16::MAX || self.next_comment_id == u64::MAX || replies == u16::MAX {
            return Err(Error::Conflict(ConflictReason::CounterOverflow));
        }
        let key = LedgerKey { actor: who, target: post_id, action: ScoringAction::CreateComment };
        let scored = self.score_ledger.get(key).is_some();
        let credited = self.reputation_ledger.get(key).is_some();
        let author = self.posts[p].created.account;
        let w = self.config.weight(ScoringAction::CreateComment);
        let ghost old_self = *self;
        let id = self.next_comment_id;
        let comment = Comment {
            id,
            parent_id,
            post_id,
            created: crate::types::Change { account: who, block: self.block, time: self.time },
            updated: None,
            ipfs_hash,
            upvotes_count: 0,
            downvotes_count: 0,
            shares_count: 0,
            direct_replies_count: 0,
            edit_history: Vec::new(),
            score: 0,
        };
        self.comments.push(comment);
        self.next_comment_id = id + 1;
        if let Some(q) = parent_id {
            let qi = (q - 1) as usize;
            self.comments[qi].direct_replies_count = self.comments[qi].direct_replies_count + 1;
        }
        self.posts[p].comments_count = self.posts[p].comments_count + 1;
        if !scored {
            match self.score_ledger.apply_i32(self.posts[p].score, key, w) {
                Ok(s) => {
                    self.posts[p].score = s;
                },
                Err(_) => {
                    proof {
                        assert(false);
                    }
                },
            }
        }
        self.events.push(Event::CommentCreated(who, id));
        let ghost mid = *self;
        proof {
            assert forall|i: int| 0 <= i < self.comments@.len() implies #[trigger] self.comments@[i].id == i + 1 by {
                if i < old_self.comments@.len() {
                    assert(old_self.comments@[i].id == i + 1);
                }
            }
            assert forall|i: int| 0 <= i < self.comments@.len() implies 1 <= #[trigger] self.comments@[i].post_id
                <= self.posts@.len() by {
                if i < old_self.comments@.len() {
                    assert(old_self.comments@[i].post_id <= old_self.posts@.len());
                }
            }
            assert forall|i: int| 0 <= i < self.comments@.len() implies match #[trigger] self.comments@[i].parent_id {
                Some(q) => 1 <= q <= i,
                None => true,
            } by {
                if i < old_self.comments@.len() {
                    assert(old_self.comments@[i].parent_id == self.comments@[i].parent_id);
                }
            }
            assert forall|i: int| 0 <= i < self.posts@.len() implies #[trigger] self.posts@[i].id == i + 1 by {
                assert(old_self.posts@[i].id == i + 1);
            }
            assert forall|i: int| 0 <= i < self.posts@.len() implies 1 <= #[trigger] self.posts@[i].blog_id
                <= self.blogs@.len() by {
                assert(old_self.posts@[i].blog_id <= old_self.blogs@.len());
            }
            assert(self.content_wf());
        }
        if !credited {
            let ghost before = *self;
            let ko = self.ensure_account(author);
            proof {
                if old_self.has_account(author) {
                    old_self.lemma_account_index(old_self.account_index(author));
                }
            }
            let ghost pre = *self;
            match self.reputation_ledger.apply_u32(self.accounts[ko].social.reputation, key, w) {
                Ok(v) => {
                    self.accounts[ko].social.reputation = v;
                    self.events.push(Event::AccountReputationChanged(author, ScoringAction::CreateComment, v));
                },
                Err(_) => {
                    proof {
                        assert(false);
                    }
                },
            }
            proof {
                Module::lemma_accounts_wf_graph_frame(pre, *self);
                self.lemma_account_index(ko as int);
                pre.lemma_account_index(ko as int);
                assert(self.accounts_framed(pre, author, author));
                assert(self.profiles_kept(pre));
                lemma_frame_trans(before, pre, *self, author, author);
                assert(pre.follows_kept(before, author));
                assert(before.accounts == old_self.accounts);
            }
        }
        Ok(id)
    }

    pub open spec fn update_comment_error(&self, who: u64, id: u64, hash: Seq<u8>) -> Option<Error> {
        if !self.has_comment(id) {
            Some(Error::NotFound(Entity::Comment))
        } else if who != self.comment(id).created.account {
            Some(Error::Unauthorized)
        } else {
            hash_error(self.config, hash.len() as int)
        }
    }

    /// The author of comment `comment_id` replaces its hash; the hash it had
    /// is appended to its history, stamped with this edit.
    pub fn update_comment(&mut self, who: u64, comment_id: u64, update: CommentUpdate) -> (r: Result<(), Error>)
        requires
            old(self).wf(),
        ensures
            final(self).wf(),
            match old(self).update_comment_error(who, comment_id, update.ipfs_hash@) {
                Some(e) => r == Err::<(), Error>(e) && *final(self) == *old(self),
                None => {
                    let c = final(self).comment(comment_id);
                    let o = old(self).comment(comment_id);
                    &&& r == Ok::<(), Error>(())
                    &&& final(self).same_settings(*old(self))
                    &&& final(self).same_links(*old(self))
                    &&& is_hash_edit(o, c, update.ipfs_hash@)
                    &&& c.edit_history@.last().edited == old(self).stamp(who)
                    &&& c.updated == Some(old(self).stamp(who))
                    &&& c.id == o.id && c.parent_id == o.parent_id && c.post_id == o.post_id
                    &&& c.created == o.created && c.score == o.score
                    &&& c.upvotes_count == o.upvotes_count && c.downvotes_count == o.downvotes_count
                    &&& c.shares_count == o.shares_count && c.direct_replies_count == o.direct_replies_count
                    &&& final(self).comments@.len() == old(self).comments@.len()
                    &&& forall|j: u64| #![auto] old(self).has_comment(j) && j != comment_id
                        ==> final(self).comment(j) == old(self).comment(j)
                    &&& final(self).events@ == old(self).events@.push(Event::CommentUpdated(who, comment_id))
                    &&& final(self).blogs == old(self).blogs
                    &&& final(self).posts == old(self).posts
                    &&& final(self).reactions == old(self).reactions
                    &&& final(self).accounts == old(self).accounts
                    &&& final(self).score_ledger == old(self).score_ledger
                    &&& final(self).reputation_ledger == old(self).reputation_ledger
                },
            },
    {
        if comment_id == 0 || comment_id > self.comments.len() as u64 {
            return Err(Error::NotFound(Entity::Comment));
        }
        let c = (comment_id - 1) as usize;
        if who != self.comments[c].created.account {
            return Err(Error::Unauthorized);
        }
        if update.ipfs_hash.len() != self.config.ipfs_hash_len as usize {
            return Err(Error::ValidationFailed(crate::types::Field::IpfsHash, crate::types::Reason::WrongLength));
        }
        let ghost pre = *self;
        let stamp = crate::types::Change { account: who, block: self.block, time: self.time };
        let previous = copy_bytes(&self.comments[c].ipfs_hash);
        let record = CommentHistoryRecord { edited: stamp, old_data: CommentUpdate { ipfs_hash: previous } };
        self.comments[c].edit_history.push(record);
        self.comments[c].ipfs_hash = update.ipfs_hash;
        self.comments[c].updated = Some(stamp);
        self.events.push(Event::CommentUpdated(who, comment_id));
        proof {
            let h = self.comments@[c as int].edit_history@;
            assert(h.take(pre.comments@[c as int].edit_history@.len() as int) =~= pre.comments@[c as int].edit_history@);
            assert forall|i: int| 0 <= i < self.comments@.len() implies #[trigger] self.comments@[i].id == i + 1 by {
                assert(pre.comments@[i].id == i + 1);
            }
            assert forall|i: int| 0 <= i < self.comments@.len() implies 1 <= #[trigger] self.comments@[i].post_id
                <= self.posts@.len() by {
                assert(pre.comments@[i].post_id <= pre.posts@.len());
            }
            assert forall|i: int| 0 <= i < self.comments@.len() implies match #[trigger] self.comments@[i].parent_id {
                Some(q) => 1 <= q <= i,
                None => true,
            } by {
                assert(pre.comments@[i].parent_id == self.comments@[i].parent_id);
            }
            Module::lemma_accounts_wf_frame(pre, *self);
        }
        Ok(())
    }
}

} // verus!
