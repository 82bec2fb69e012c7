use vstd::prelude::*;

use crate::social::lemma_frame_trans;

use crate::content::{dec16, same_comment_content, same_post_content};
use crate::entities::Reaction;
use crate::ledger::{ledger_apply, ledger_reverse, ledger_swap, LedgerKey};
use crate::store::{has_link, has_reaction_link, links_wf, reaction_on, Event, Module, ReactionLink};
use crate::types::{ConflictReason, Entity, Error, LedgerFault, ReactionKind, ScoringAction};

verus! {

pub open spec fn post_action(kind: ReactionKind) -> ScoringAction {
    match kind {
        ReactionKind::Upvote => ScoringAction::UpvotePost,
        ReactionKind::Downvote => ScoringAction::DownvotePost,
    }
}

pub open spec fn comment_action(kind: ReactionKind) -> ScoringAction {
    match kind {
        ReactionKind::Upvote => ScoringAction::UpvoteComment,
        ReactionKind::Downvote => ScoringAction::DownvoteComment,
    }
}

/// Where a reaction of `who` on post `post_id` is scored, in both ledgers.
pub open spec fn post_reaction_key(who: u64, post_id: u64, kind: ReactionKind) -> LedgerKey {
    LedgerKey { actor: who, target: post_id, action: post_action(kind) }
}

/// Where a reaction of `who` on comment `comment_id` is scored.
pub open spec fn comment_reaction_key(who: u64, comment_id: u64, kind: ReactionKind) -> LedgerKey {
    LedgerKey { actor: who, target: comment_id, action: comment_action(kind) }
}

fn post_action_of(kind: ReactionKind) -> (r: ScoringAction)
    ensures
        r == post_action(kind),
{
    match kind {
        ReactionKind::Upvote => ScoringAction::UpvotePost,
        ReactionKind::Downvote => ScoringAction::DownvotePost,
    }
}

fn comment_action_of(kind: ReactionKind) -> (r: ScoringAction)
    ensures
        r == comment_action(kind),
{
    match kind {
        ReactionKind::Upvote => ScoringAction::UpvoteComment,
        ReactionKind::Downvote => ScoringAction::DownvoteComment,
    }
}

proof fn lemma_reaction_on(l: Seq<ReactionLink>, n_t: int, n_r: int, j: int)
    requires
        links_wf(l, n_t, n_r),
        0 <= j < l.len(),
    ensures
        has_link(l, l[j].account, l[j].target),
        reaction_on(l, l[j].account, l[j].target) == Some(l[j].reaction_id),
{
    let a = l[j].account;
    let t = l[j].target;
    assert(l[j].account == a && l[j].target == t);
    let c = choose|i: int| 0 <= i < l.len() && (#[trigger] l[i]).account == a && l[i].target == t;
    if c < j {
        assert(!(l[c].account == l[j].account && l[c].target == l[j].target));
    } else if c > j {
        assert(!(l[j].account == l[c].account && l[j].target == l[c].target));
    }
}

proof fn lemma_link_push(l: Seq<ReactionLink>, n_t: int, n_r: int, e: ReactionLink)
    requires
        links_wf(l, n_t, n_r),
        !has_link(l, e.account, e.target),
        1 <= e.target <= n_t,
        1 <= e.reaction_id <= n_r,
    ensures
        links_wf(l.push(e), n_t, n_r),
        reaction_on(l.push(e), e.account, e.target) == Some(e.reaction_id),
{
    let m = l.push(e);
    assert forall|i: int, j: int| 0 <= i < j < m.len() implies
        !((#[trigger] m[i]).account == (#[trigger] m[j]).account && m[i].target == m[j].target) by {
        if j == l.len() {
            assert(l[i] == m[i]);
        } else {
            assert(!(l[i].account == l[j].account && l[i].target == l[j].target));
        }
    }
    assert forall|i: int| 0 <= i < m.len() implies 1 <= (#[trigger] m[i]).target <= n_t
        && 1 <= m[i].reaction_id <= n_r by {
        if i < l.len() {
            assert(l[i] == m[i]);
        }
    }
    lemma_reaction_on(m, n_t, n_r, l.len() as int);
}

proof fn lemma_link_remove(l: Seq<ReactionLink>, n_t: int, n_r: int, j: int)
    requires
        links_wf(l, n_t, n_r),
        0 <= j < l.len(),
    ensures
        links_wf(l.remove(j), n_t, n_r),
        !has_link(l.remove(j), l[j].account, l[j].target),
{
    let m = l.remove(j);
    assert forall|a: int, b: int| 0 <= a < b < m.len() implies
        !((#[trigger] m[a]).account == (#[trigger] m[b]).account && m[a].target == m[b].target) by {
        let a2 = if a < j { a } else { a + 1 };
        let b2 = if b < j { b } else { b + 1 };
        assert(m[a] == l[a2] && m[b] == l[b2]);
        assert(!(l[a2].account == l[b2].account && l[a2].target == l[b2].target));
    }
    assert forall|a: int| 0 <= a < m.len() implies 1 <= (#[trigger] m[a]).target <= n_t
        && 1 <= m[a].reaction_id <= n_r by {
        let a2 = if a < j { a } else { a + 1 };
        assert(m[a] == l[a2]);
    }
    if has_link(m, l[j].account, l[j].target) {
        let a = choose|a: int| 0 <= a < m.len() && (#[trigger] m[a]).account == l[j].account && m[a].target == l[j].target;
        let a2 = if a < j { a } else { a + 1 };
        assert(m[a] == l[a2]);
        if a2 < j {
            assert(!(l[a2].account == l[j].account && l[a2].target == l[j].target));
        } else {
            assert(!(l[j].account == l[a2].account && l[j].target == l[a2].target));
        }
    }
}

/// Where the link of `a` on `t` stands, if there is one.
fn find_link(l: &Vec<ReactionLink>, a: u64, t: u64) -> (r: Option<usize>)
    ensures
        match r {
            Some(j) => j < l@.len() && l@[j as int].account == a && l@[j as int].target == t,
            None => !has_link(l@, a, t),
        },
{
    let mut i: usize = 0;
    while i < l.len()
        invariant
            i <= l@.len(),
            forall|j: int| 0 <= j < i ==> !(l@[j].account == a && l@[j].target == t),
        decreases l@.len() - i,
    {
        if l[i].account == a && l[i].target == t {
            return Some(i);
        }
        i = i + 1;
    }
    None
}

/// Where the link of reaction `rid` on `t` stands, if there is one.
fn find_link_by_id(l: &Vec<ReactionLink>, t: u64, rid: u64) -> (r: Option<usize>)
    ensures
        match r {
            Some(j) => j < l@.len() && l@[j as int].target == t && l@[j as int].reaction_id == rid,
            None => !has_reaction_link(l@, t, rid),
        },
{
    let mut i: usize = 0;
    while i < l.len()
        invariant
            i <= l@.len(),
            forall|j: int| 0 <= j < i ==> !(l@[j].target == t && l@[j].reaction_id == rid),
        decreases l@.len() - i,
    {
        if l[i].target == t && l[i].reaction_id == rid {
            return Some(i);
        }
        i = i + 1;
    }
    None
}

impl Module {
    /// The reaction of `a` on post `post_id`, if there is one.
    pub fn post_reaction_id_by_account(&self, a: u64, post_id: u64) -> (r: Option<u64>)
        requires
            self.wf(),
        ensures
            r == reaction_on(self.post_reactions@, a, post_id),
    {
        match find_link(&self.post_reactions, a, post_id) {
            Some(j) => {
                proof {
                    lemma_reaction_on(self.post_reactions@, self.posts@.len() as int, self.reactions@.len() as int, j as int);
                }
                Some(self.post_reactions[j].reaction_id)
            },
            None => None,
        }
    }

    /// The reaction of `a` on comment `comment_id`, if there is one.
    pub fn comment_reaction_id_by_account(&self, a: u64, comment_id: u64) -> (r: Option<u64>)
        requires
            self.wf(),
        ensures
            r == reaction_on(self.comment_reactions@, a, comment_id),
    {
        match find_link(&self.comment_reactions, a, comment_id) {
            Some(j) => {
                proof {
                    lemma_reaction_on(self.comment_reactions@, self.comments@.len() as int, self.reactions@.len() as int, j as int);
                }
                Some(self.comment_reactions[j].reaction_id)
            },
            None => None,
        }
    }

    pub open spec fn create_post_reaction_error(&self, who: u64, post_id: u64, kind: ReactionKind) -> Option<Error> {
        let k = post_reaction_key(who, post_id, kind);
        if !self.has_post(post_id) {
            Some(Error::NotFound(Entity::Post))
        } else if has_link(self.post_reactions@, who, post_id) {
            Some(Error::Conflict(ConflictReason::ReactionExists))
        } else if (kind == ReactionKind::Upvote && self.post(post_id).upvotes_count == u16::MAX)
            || (kind == ReactionKind::Downvote && self.post(post_id).downvotes_count == u16::MAX)
            || self.next_reaction_id == u64::MAX {
            Some(Error::Conflict(ConflictReason::CounterOverflow))
        } else if self.score_ledger.view().contains_key(k) || self.reputation_ledger.view().contains_key(k) {
            Some(Error::LedgerConflict(LedgerFault::AlreadyApplied))
        } else {
            None
        }
    }

    /// `who` reacts to post `post_id`; at most one reaction per account and
    /// post. The reaction scores the post and its author once.
    pub fn create_post_reaction(&mut self, who: u64, post_id: u64, kind: ReactionKind) -> (r: Result<u64, Error>)
        requires
            old(self).wf(),
        ensures
            final(self).wf(),
            match old(self).create_post_reaction_error(who, post_id, kind) {
                Some(e) => r == Err::<u64, Error>(e) && *final(self) == *old(self),
                None => {
                    let id = old(self).next_reaction_id;
                    let author = old(self).post(post_id).created.account;
                    let k = post_reaction_key(who, post_id, kind);
                    let w = old(self).config.weight_of(post_action(kind));
                    let o = old(self).post(post_id);
                    let p = final(self).post(post_id);
                    &&& r == Ok::<u64, Error>(id)
                    &&& final(self).same_settings(*old(self))
                    &&& final(self).accounts_framed(*old(self), author, author)
                    &&& final(self).profiles_kept(*old(self))
                    &&& final(self).follows_kept(*old(self), author)
                    &&& final(self).next_reaction_id == id + 1
                    &&& final(self).reactions@ == old(self).reactions@.push(
                        Reaction { id, created: old(self).stamp(who), updated: None, kind })
                    &&& final(self).post_reactions@ == old(self).post_reactions@.push(
                        ReactionLink { account: who, target: post_id, reaction_id: id })
                    &&& reaction_on(final(self).post_reactions@, who, post_id) == Some(id)
                    &&& p.upvotes_count == o.upvotes_count + (if kind == ReactionKind::Upvote { 1int } else { 0 })
                    &&& p.downvotes_count == o.downvotes_count + (if kind == ReactionKind::Downvote { 1int } else { 0 })
                    &&& p.comments_count == o.comments_count
                    &&& same_post_content(p, o)
                    &&& final(self).posts@.len() == old(self).posts@.len()
                    &&& forall|j: u64| #![auto] old(self).has_post(j) && j != post_id ==> final(self).post(j) == old(self).post(j)
                    &&& ledger_apply(old(self).score_ledger.view(), o.score as int, i32::MIN as int, i32::MAX as int, k, w)
                        == Ok::<(Map<LedgerKey, i16>, int), Error>((final(self).score_ledger.view(), p.score as int))
                    &&& ledger_apply(old(self).reputation_ledger.view(), old(self).reputation_of(author) as int,
                        0, u32::MAX as int, k, w)
                        == Ok::<(Map<LedgerKey, i16>, int), Error>(
                            (final(self).reputation_ledger.view(), final(self).reputation_of(author) as int))
                    &&& final(self).events@ == old(self).events@.push(Event::PostReactionCreated(who, post_id, id)).push(
                        Event::AccountReputationChanged(author, post_action(kind), final(self).reputation_of(author)))
                    &&& final(self).blogs == old(self).blogs
                    &&& final(self).blog_followers == old(self).blog_followers
                    &&& final(self).comments == old(self).comments
                    &&& final(self).comment_reactions == old(self).comment_reactions
                },
            },
    {
        if post_id == 0 || post_id > self.posts.len() as u64 {
            return Err(Error::NotFound(Entity::Post));
        }
        let p = (post_id - 1) as usize;
        if find_link(&self.post_reactions, who, post_id).is_some() {
            return Err(Error::Conflict(ConflictReason::ReactionExists));
        }
        let full = match kind {
            ReactionKind::Upvote => self.posts[p].upvotes_count == u16::MAX,
            ReactionKind::Downvote => self.posts[p].downvotes_count == u16::MAX,
        };
        if full || self.next_reaction_id == u64::MAX {
            return Err(Error::Conflict(ConflictReason::CounterOverflow));
        }
        let action = post_action_of(kind);
        let key = LedgerKey { actor: who, target: post_id, action };
        if self.score_ledger.get(key).is_some() || self.reputation_ledger.get(key).is_some() {
            return Err(Error::LedgerConflict(LedgerFault::AlreadyApplied));
        }
        let w = self.config.weight(action);
        let author = self.posts[p].created.account;
        let ghost old_self = *self;
        let ko = self.ensure_account(author);
        proof {
            if old_self.has_account(author) {
                old_self.lemma_account_index(old_self.account_index(author));
            }
        }
        let ghost pre = *self;
        let score = match self.score_ledger.apply_i32(self.posts[p].score, key, w) {
            Ok(s) => s,
            Err(e) => {
                proof {
                    assert(false);
                }
                return Err(e);
            },
        };
        let rep = match self.reputation_ledger.apply_u32(self.accounts[ko].social.reputation, key, w) {
            Ok(v) => v,
            Err(e) => {
                proof {
                    assert(false);
                }
                return Err(e);
            },
        };
        let id = self.next_reaction_id;
        let stamp = crate::types::Change { account: who, block: self.block, time: self.time };
        self.reactions.push(Reaction { id, created: stamp, updated: None, kind });
        self.next_reaction_id = id + 1;
        self.post_reactions.push(ReactionLink { account: who, target: post_id, reaction_id: id });
        match kind {
            ReactionKind::Upvote => {
                self.posts[p].upvotes_count = self.posts[p].upvotes_count + 1;
            },
            ReactionKind::Downvote => {
                self.posts[p].downvotes_count = self.posts[p].downvotes_count + 1;
            },
        }
        self.posts[p].score = score;
        self.accounts[ko].social.reputation = rep;
        self.events.push(Event::PostReactionCreated(who, post_id, id));
        self.events.push(Event::AccountReputationChanged(author, action, rep));
        proof {
            Module::lemma_accounts_wf_graph_frame(pre, *self);
            self.lemma_account_index(ko as int);
            pre.lemma_account_index(ko as int);
            assert(self.accounts_framed(pre, author, author));
            assert(self.profiles_kept(pre));
            lemma_frame_trans(old_self, pre, *self, author, author);
            assert(pre.follows_kept(old_self, author));
            lemma_link_push(pre.post_reactions@, pre.posts@.len() as int, self.reactions@.len() as int,
                ReactionLink { account: who, target: post_id, reaction_id: id });
            assert forall|i: int| 0 <= i < self.posts@.len() implies #[trigger] self.posts@[i].id == i + 1 by {
                assert(pre.posts@[i].id == i + 1);
            }
            assert forall|i: int| 0 <= i < self.posts@.len() implies 1 <= #[trigger] self.posts@[i].blog_id
                <= self.blogs@.len() by {
                assert(pre.posts@[i].blog_id <= pre.blogs@.len());
            }
            assert forall|i: int| 0 <= i < self.reactions@.len() implies #[trigger] self.reactions@[i].id == i + 1 by {
                if i < pre.reactions@.len() {
                    assert(pre.reactions@[i].id == i + 1);
                }
            }
            assert forall|i: int| 0 <= i < self.comments@.len() implies 1 <= #[trigger] self.comments@[i].post_id
                <= self.posts@.len() by {
                assert(pre.comments@[i].post_id <= pre.posts@.len());
            }
        }
        Ok(id)
    }

    pub open spec fn update_post_reaction_error(&self, who: u64, post_id: u64, reaction_id: u64,
        new_kind: ReactionKind) -> Option<Error> {
        let kind = self.reactions@[reaction_id - 1].kind;
        let ko = post_reaction_key(who, post_id, kind);
        let kn = post_reaction_key(who, post_id, new_kind);
        if !self.has_post(post_id) {
            Some(Error::NotFound(Entity::Post))
        } else if !has_reaction_link(self.post_reactions@, post_id, reaction_id) {
            Some(Error::NotFound(Entity::Reaction))
        } else if self.reactions@[reaction_id - 1].created.account != who {
            Some(Error::Unauthorized)
        } else if kind == new_kind {
            Some(Error::Conflict(ConflictReason::SameReactionKind))
        } else if (new_kind == ReactionKind::Upvote && self.post(post_id).upvotes_count == u16::MAX)
            || (new_kind == ReactionKind::Downvote && self.post(post_id).downvotes_count == u16::MAX) {
            Some(Error::Conflict(ConflictReason::CounterOverflow))
        } else if !self.score_ledger.view().contains_key(ko) || !self.reputation_ledger.view().contains_key(ko) {
            Some(Error::LedgerConflict(LedgerFault::NotApplied))
        } else if self.score_ledger.view().contains_key(kn) || self.reputation_ledger.view().contains_key(kn) {
            Some(Error::LedgerConflict(LedgerFault::AlreadyApplied))
        } else {
            None
        }
    }

    /// `who` changes the kind of their reaction on post `post_id`: the score
    /// of the old kind is reversed and that of the new kind applied, on the
    /// post and on its author, together.
    #[verifier::rlimit(100)]
    pub fn update_post_reaction(&mut self, who: u64, post_id: u64, reaction_id: u64, new_kind: ReactionKind)
        -> (r: Result<(), Error>)
        requires
            old(self).wf(),
        ensures
            final(self).wf(),
            match old(self).update_post_reaction_error(who, post_id, reaction_id, new_kind) {
                Some(e) => r == Err::<(), Error>(e) && *final(self) == *old(self),
                None => {
                    let rx = old(self).reactions@[reaction_id - 1];
                    let author = old(self).post(post_id).created.account;
                    let ko = post_reaction_key(who, post_id, rx.kind);
                    let kn = post_reaction_key(who, post_id, new_kind);
                    let w = old(self).config.weight_of(post_action(new_kind));
                    let o = old(self).post(post_id);
                    let p = final(self).post(post_id);
                    &&& r == Ok::<(), Error>(())
                    &&& final(self).same_settings(*old(self))
                    &&& final(self).accounts_framed(*old(self), author, author)
                    &&& final(self).profiles_kept(*old(self))
                    &&& final(self).follows_kept(*old(self), author)
                    &&& final(self).reactions@ == old(self).reactions@.update(reaction_id - 1,
                        Reaction { id: rx.id, created: rx.created, updated: Some(old(self).stamp(who)), kind: new_kind })
                    &&& final(self).post_reactions == old(self).post_reactions
                    &&& (new_kind == ReactionKind::Upvote ==> p.upvotes_count == o.upvotes_count + 1
                        && p.downvotes_count == dec16(o.downvotes_count))
                    &&& (new_kind == ReactionKind::Downvote ==> p.downvotes_count == o.downvotes_count + 1
                        && p.upvotes_count == dec16(o.upvotes_count))
                    &&& p.comments_count == o.comments_count
                    &&& same_post_content(p, o)
                    &&& final(self).posts@.len() == old(self).posts@.len()
                    &&& forall|j: u64| #![auto] old(self).has_post(j) && j != post_id ==> final(self).post(j) == old(self).post(j)
                    &&& ledger_swap(old(self).score_ledger.view(), o.score as int, i32::MIN as int, i32::MAX as int, ko, kn, w)
                        == Ok::<(Map<LedgerKey, i16>, int), Error>((final(self).score_ledger.view(), p.score as int))
                    &&& ledger_swap(old(self).reputation_ledger.view(), old(self).reputation_of(author) as int,
                        0, u32::MAX as int, ko, kn, w)
                        == Ok::<(Map<LedgerKey, i16>, int), Error>(
                            (final(self).reputation_ledger.view(), final(self).reputation_of(author) as int))
                    &&& final(self).events@ == old(self).events@.push(Event::PostReactionUpdated(who, post_id, reaction_id)).push(
                        Event::AccountReputationChanged(author, post_action(new_kind), final(self).reputation_of(author)))
                    &&& final(self).blogs == old(self).blogs
                    &&& final(self).blog_followers == old(self).blog_followers
                    &&& final(self).comments == old(self).comments
                    &&& final(self).comment_reactions == old(self).comment_reactions
                },
            },
    {
        if post_id == 0 || post_id > self.posts.len() as u64 {
            return Err(Error::NotFound(Entity::Post));
        }
        let p = (post_id - 1) as usize;
        let j = match find_link_by_id(&self.post_reactions, post_id, reaction_id) {
            Some(j) => j,
            None => {
                return Err(Error::NotFound(Entity::Reaction));
            },
        };
        assert(1 <= self.post_reactions@[j as int].reaction_id <= self.reactions@.len());
        if reaction_id == 0 || reaction_id > self.reactions.len() as u64 {
            return Err(Error::NotFound(Entity::Reaction));
        }
        let x = (reaction_id - 1) as usize;
        if self.reactions[x].created.account != who {
            return Err(Error::Unauthorized);
        }
        assert(self.post_reactions@[j as int].account == who);
        proof {
            lemma_reaction_on(self.post_reactions@, self.posts@.len() as int, self.reactions@.len() as int, j as int);
        }
        let kind = self.reactions[x].kind;
        if kind == new_kind {
            return Err(Error::Conflict(ConflictReason::SameReactionKind));
        }
        let full = match new_kind {
            ReactionKind::Upvote => self.posts[p].upvotes_count == u16::MAX,
            ReactionKind::Downvote => self.posts[p].downvotes_count == u16::MAX,
        };
        if full {
            return Err(Error::Conflict(ConflictReason::CounterOverflow));
        }
        let key_old = LedgerKey { actor: who, target: post_id, action: post_action_of(kind) };
        let action = post_action_of(new_kind);
        let key_new = LedgerKey { actor: who, target: post_id, action };
        if self.score_ledger.get(key_old).is_none() || self.reputation_ledger.get(key_old).is_none() {
            return Err(Error::LedgerConflict(LedgerFault::NotApplied));
        }
        if self.score_ledger.get(key_new).is_some() || self.reputation_ledger.get(key_new).is_some() {
            return Err(Error::LedgerConflict(LedgerFault::AlreadyApplied));
        }
        let w = self.config.weight(action);
        let author = self.posts[p].created.account;
        let ghost old_self = *self;
        let ka = self.ensure_account(author);
        proof {
            if old_self.has_account(author) {
                old_self.lemma_account_index(old_self.account_index(author));
            }
        }
        let ghost pre = *self;
        let s1 = match self.score_ledger.reverse_i32(self.posts[p].score, key_old) {
            Ok(s) => s,
            Err(e) => {
                proof {
                    assert(false);
                }
                return Err(e);
            },
        };
        assert(key_old != key_new);
        let score = match self.score_ledger.apply_i32(s1, key_new, w) {
            Ok(s) => s,
            Err(e) => {
                proof {
                    assert(false);
                }
                return Err(e);
            },
        };
        let r1 = match self.reputation_ledger.reverse_u32(self.accounts[ka].social.reputation, key_old) {
            Ok(v) => v,
            Err(e) => {
                proof {
                    assert(false);
                }
                return Err(e);
            },
        };
        let rep = match self.reputation_ledger.apply_u32(r1, key_new, w) {
            Ok(v) => v,
            Err(e) => {
                proof {
                    assert(false);
                }
                return Err(e);
            },
        };
        let stamp = crate::types::Change { account: who, block: self.block, time: self.time };
        self.reactions[x].kind = new_kind;
        self.reactions[x].updated = Some(stamp);
        match new_kind {
            ReactionKind::Upvote => {
                self.posts[p].upvotes_count = self.posts[p].upvotes_count + 1;
                if self.posts[p].downvotes_count > 0 {
                    self.posts[p].downvotes_count = self.posts[p].downvotes_count - 1;
                }
            },
            ReactionKind::Downvote => {
                self.posts[p].downvotes_count = self.posts[p].downvotes_count + 1;
                if self.posts[p].upvotes_count > 0 {
                    self.posts[p].upvotes_count = self.posts[p].upvotes_count - 1;
                }
            },
        }
        self.posts[p].score = score;
        self.accounts[ka].social.reputation = rep;
        self.events.push(Event::PostReactionUpdated(who, post_id, reaction_id));
        self.events.push(Event::AccountReputationChanged(author, action, rep));
        proof {
            Module::lemma_accounts_wf_graph_frame(pre, *self);
            self.lemma_account_index(ka as int);
            pre.lemma_account_index(ka as int);
            assert(self.accounts_framed(pre, author, author));
            assert(self.profiles_kept(pre));
            lemma_frame_trans(old_self, pre, *self, author, author);
            assert(pre.follows_kept(old_self, author));
            assert forall|i: int| 0 <= i < self.posts@.len() implies #[trigger] self.posts@[i].id == i + 1 by {
                assert(pre.posts@[i].id == i + 1);
            }
            assert forall|i: int| 0 <= i < self.posts@.len() implies 1 <= #[trigger] self.posts@[i].blog_id
                <= self.blogs@.len() by {
                assert(pre.posts@[i].blog_id <= pre.blogs@.len());
            }
            assert forall|i: int| 0 <= i < self.reactions@.len() implies #[trigger] self.reactions@[i].id == i + 1 by {
                assert(pre.reactions@[i].id == i + 1);
            }
            assert forall|i: int| 0 <= i < self.comments@.len() implies 1 <= #[trigger] self.comments@[i].post_id
                <= self.posts@.len() by {
                assert(pre.comments@[i].post_id <= pre.posts@.len());
            }
        }
        Ok(())
    }

    pub open spec fn delete_post_reaction_error(&self, who: u64, post_id: u64, reaction_id: u64) -> Option<Error> {
        let k = post_reaction_key(who, post_id, self.reactions@[reaction_id - 1].kind);
        if !self.has_post(post_id) {
            Some(Error::NotFound(Entity::Post))
        } else if !has_reaction_link(self.post_reactions@, post_id, reaction_id) {
            Some(Error::NotFound(Entity::Reaction))
        } else if self.reactions@[reaction_id - 1].created.account != who {
            Some(Error::Unauthorized)
        } else if !self.score_ledger.view().contains_key(k) || !self.reputation_ledger.view().contains_key(k) {
            Some(Error::LedgerConflict(LedgerFault::NotApplied))
        } else {
            None
        }
    }

    /// `who` withdraws their reaction on post `post_id`: it leaves the
    /// index, its score is reversed, and the reaction record itself stays,
    /// so that its id is never handed out again.
    pub fn delete_post_reaction(&mut self, who: u64, post_id: u64, reaction_id: u64) -> (r: Result<(), Error>)
        requires
            old(self).wf(),
        ensures
            final(self).wf(),
            match old(self).delete_post_reaction_error(who, post_id, reaction_id) {
                Some(e) => r == Err::<(), Error>(e) && *final(self) == *old(self),
                None => {
                    let kind = old(self).reactions@[reaction_id - 1].kind;
                    let author = old(self).post(post_id).created.account;
                    let k = post_reaction_key(who, post_id, kind);
                    let o = old(self).post(post_id);
                    let p = final(self).post(post_id);
                    &&& r == Ok::<(), Error>(())
                    &&& final(self).same_settings(*old(self))
                    &&& final(self).accounts_framed(*old(self), author, author)
                    &&& final(self).profiles_kept(*old(self))
                    &&& final(self).follows_kept(*old(self), author)
                    &&& final(self).reactions == old(self).reactions
                    &&& exists|j: int| 0 <= j < old(self).post_reactions@.len()
                        && final(self).post_reactions@ == old(self).post_reactions@.remove(j)
                    &&& !has_link(final(self).post_reactions@, who, post_id)
                    &&& (kind == ReactionKind::Upvote ==> p.upvotes_count == dec16(o.upvotes_count)
                        && p.downvotes_count == o.downvotes_count)
                    &&& (kind == ReactionKind::Downvote ==> p.downvotes_count == dec16(o.downvotes_count)
                        && p.upvotes_count == o.upvotes_count)
                    &&& p.comments_count == o.comments_count
                    &&& same_post_content(p, o)
                    &&& final(self).posts@.len() == old(self).posts@.len()
                    &&& forall|j: u64| #![auto] old(self).has_post(j) && j != post_id ==> final(self).post(j) == old(self).post(j)
                    &&& ledger_reverse(old(self).score_ledger.view(), o.score as int, i32::MIN as int, i32::MAX as int, k)
                        == Ok::<(Map<LedgerKey, i16>, int), Error>((final(self).score_ledger.view(), p.score as int))
                    &&& ledger_reverse(old(self).reputation_ledger.view(), old(self).reputation_of(author) as int,
                        0, u32::MAX as int, k)
                        == Ok::<(Map<LedgerKey, i16>, int), Error>(
                            (final(self).reputation_ledger.view(), final(self).reputation_of(author) as int))
                    &&& final(self).events@ == old(self).events@.push(Event::PostReactionDeleted(who, post_id, reaction_id)).push(
                        Event::AccountReputationChanged(author, post_action(kind), final(self).reputation_of(author)))
                    &&& final(self).blogs == old(self).blogs
                    &&& final(self).blog_followers == old(self).blog_followers
                    &&& final(self).comments == old(self).comments
                    &&& final(self).comment_reactions == old(self).comment_reactions
                },
            },
    {
        if post_id == 0 || post_id > self.posts.len() as u64 {
            return Err(Error::NotFound(Entity::Post));
        }
        let p = (post_id - 1) as usize;
        let j = match find_link_by_id(&self.post_reactions, post_id, reaction_id) {
            Some(j) => j,
            None => {
                return Err(Error::NotFound(Entity::Reaction));
            },
        };
        assert(1 <= self.post_reactions@[j as int].reaction_id <= self.reactions@.len());
        if reaction_id == 0 || reaction_id > self.reactions.len() as u64 {
            return Err(Error::NotFound(Entity::Reaction));
        }
        let x = (reaction_id - 1) as usize;
        if self.reactions[x].created.account != who {
            return Err(Error::Unauthorized);
        }
        assert(self.post_reactions@[j as int].account == who);
        proof {
            lemma_reaction_on(self.post_reactions@, self.posts@.len() as int, self.reactions@.len() as int, j as int);
        }
        let kind = self.reactions[x].kind;
        let action = post_action_of(kind);
        let key = LedgerKey { actor: who, target: post_id, action };
        if self.score_ledger.get(key).is_none() || self.reputation_ledger.get(key).is_none() {
            return Err(Error::LedgerConflict(LedgerFault::NotApplied));
        }
        let author = self.posts[p].created.account;
        let ghost old_self = *self;
        let ka = self.ensure_account(author);
        proof {
            if old_self.has_account(author) {
                old_self.lemma_account_index(old_self.account_index(author));
            }
        }
        let ghost pre = *self;
        let score = match self.score_ledger.reverse_i32(self.posts[p].score, key) {
            Ok(s) => s,
            Err(e) => {
                proof {
                    assert(false);
                }
                return Err(e);
            },
        };
        let rep = match self.reputation_ledger.reverse_u32(self.accounts[ka].social.reputation, key) {
            Ok(v) => v,
            Err(e) => {
                proof {
                    assert(false);
                }
                return Err(e);
            },
        };
        self.post_reactions.remove(j);
        match kind {
            ReactionKind::Upvote => {
                if self.posts[p].upvotes_count > 0 {
                    self.posts[p].upvotes_count = self.posts[p].upvotes_count - 1;
                }
            },
            ReactionKind::Downvote => {
                if self.posts[p].downvotes_count > 0 {
                    self.posts[p].downvotes_count = self.posts[p].downvotes_count - 1;
                }
            },
        }
        self.posts[p].score = score;
        self.accounts[ka].social.reputation = rep;
        self.events.push(Event::PostReactionDeleted(who, post_id, reaction_id));
        self.events.push(Event::AccountReputationChanged(author, action, rep));
        proof {
            Module::lemma_accounts_wf_graph_frame(pre, *self);
            self.lemma_account_index(ka as int);
            pre.lemma_account_index(ka as int);
            assert(self.accounts_framed(pre, author, author));
            assert(self.profiles_kept(pre));
            lemma_frame_trans(old_self, pre, *self, author, author);
            assert(pre.follows_kept(old_self, author));
            lemma_link_remove(pre.post_reactions@, pre.posts@.len() as int, pre.reactions@.len() as int, j as int);
            assert forall|i: int| 0 <= i < self.posts@.len() implies #[trigger] self.posts@[i].id == i + 1 by {
                assert(pre.posts@[i].id == i + 1);
            }
            assert forall|i: int| 0 <= i < self.posts@.len() implies 1 <= #[trigger] self.posts@[i].blog_id
                <= self.blogs@.len() by {
                assert(pre.posts@[i].blog_id <= pre.blogs@.len());
            }
            assert forall|i: int| 0 <= i < self.comments@.len() implies 1 <= #[trigger] self.comments@[i].post_id
                <= self.posts@.len() by {
                assert(pre.comments@[i].post_id <= pre.posts@.len());
            }
        }
        Ok(())
    }

    pub open spec fn create_comment_reaction_error(&self, who: u64, comment_id: u64, kind: ReactionKind) -> Option<Error> {
        let k = comment_reaction_key(who, comment_id, kind);
        if !self.has_comment(comment_id) {
            Some(Error::NotFound(Entity::Comment))
        } else if has_link(self.comment_reactions@, who, comment_id) {
            Some(Error::Conflict(ConflictReason::ReactionExists))
        } else if (kind == ReactionKind::Upvote && self.comment(comment_id).upvotes_count == u16::MAX)
            || (kind == ReactionKind::Downvote && self.comment(comment_id).downvotes_count == u16::MAX)
            || self.next_reaction_id == u64::MAX {
            Some(Error::Conflict(ConflictReason::CounterOverflow))
        } else if self.score_ledger.view().contains_key(k) || self.reputation_ledger.view().contains_key(k) {
            Some(Error::LedgerConflict(LedgerFault::AlreadyApplied))
        } else {
            None
        }
    }

    /// `who` reacts to comment `comment_id`; at most one reaction per account
    /// and comment. The reaction scores the comment and its author once.
    pub fn create_comment_reaction(&mut self, who: u64, comment_id: u64, kind: ReactionKind) -> (r: Result<u64, Error>)
        requires
            old(self).wf(),
        ensures
            final(self).wf(),
            match old(self).create_comment_reaction_error(who, comment_id, kind) {
                Some(e) => r == Err::<u64, Error>(e) && *final(self) == *old(self),
                None => {
                    let id = old(self).next_reaction_id;
                    let author = old(self).comment(comment_id).created.account;
                    let k = comment_reaction_key(who, comment_id, kind);
                    let w = old(self).config.weight_of(comment_action(kind));
                    let o = old(self).comment(comment_id);
                    let p = final(self).comment(comment_id);
                    &&& r == Ok::<u64, Error>(id)
                    &&& final(self).same_settings(*old(self))
                    &&& final(self).accounts_framed(*old(self), author, author)
                    &&& final(self).profiles_kept(*old(self))
                    &&& final(self).follows_kept(*old(self), author)
                    &&& final(self).next_reaction_id == id + 1
                    &&& final(self).reactions@ == old(self).reactions@.push(
                        Reaction { id, created: old(self).stamp(who), updated: None, kind })
                    &&& final(self).comment_reactions@ == old(self).comment_reactions@.push(
                        ReactionLink { account: who, target: comment_id, reaction_id: id })
                    &&& reaction_on(final(self).comment_reactions@, who, comment_id) == Some(id)
                    &&& p.upvotes_count == o.upvotes_count + (if kind == ReactionKind::Upvote { 1int } else { 0 })
                    &&& p.downvotes_count == o.downvotes_count + (if kind == ReactionKind::Downvote { 1int } else { 0 })
                    &&& p.direct_replies_count == o.direct_replies_count
                    &&& same_comment_content(p, o)
                    &&& final(self).comments@.len() == old(self).comments@.len()
                    &&& forall|j: u64| #![auto] old(self).has_comment(j) && j != comment_id ==> final(self).comment(j) == old(self).comment(j)
                    &&& ledger_apply(old(self).score_ledger.view(), o.score as int, i32::MIN as int, i32::MAX as int, k, w)
                        == Ok::<(Map<LedgerKey, i16>, int), Error>((final(self).score_ledger.view(), p.score as int))
                    &&& ledger_apply(old(self).reputation_ledger.view(), old(self).reputation_of(author) as int,
                        0, u32::MAX as int, k, w)
                        == Ok::<(Map<LedgerKey, i16>, int), Error>(
                            (final(self).reputation_ledger.view(), final(self).reputation_of(author) as int))
                    &&& final(self).events@ == old(self).events@.push(Event::CommentReactionCreated(who, comment_id, id)).push(
                        Event::AccountReputationChanged(author, comment_action(kind), final(self).reputation_of(author)))
                    &&& final(self).blogs == old(self).blogs
                    &&& final(self).blog_followers == old(self).blog_followers
                    &&& final(self).posts == old(self).posts
                    &&& final(self).post_reactions == old(self).post_reactions
                },
            },
    {
        if comment_id == 0 || comment_id > self.comments.len() as u64 {
            return Err(Error::NotFound(Entity::Comment));
        }
        let p = (comment_id - 1) as usize;
        if find_link(&self.comment_reactions, who, comment_id).is_some() {
            return Err(Error::Conflict(ConflictReason::ReactionExists));
        }
        let full = match kind {
            ReactionKind::Upvote => self.comments[p].upvotes_count == u16::MAX,
            ReactionKind::Downvote => self.comments[p].downvotes_count == u16::MAX,
        };
        if full || self.next_reaction_id == u64::MAX {
            return Err(Error::Conflict(ConflictReason::CounterOverflow));
        }
        let action = comment_action_of(kind);
        let key = LedgerKey { actor: who, target: comment_id, action };
        if self.score_ledger.get(key).is_some() || self.reputation_ledger.get(key).is_some() {
            return Err(Error::LedgerConflict(LedgerFault::AlreadyApplied));
        }
        let w = self.config.weight(action);
        let author = self.comments[p].created.account;
        let ghost old_self = *self;
        let ko = self.ensure_account(author);
        proof {
            if old_self.has_account(author) {
                old_self.lemma_account_index(old_self.account_index(author));
            }
        }
        let ghost pre = *self;
        let score = match self.score_ledger.apply_i32(self.comments[p].score, key, w) {
            Ok(s) => s,
            Err(e) => {
                proof {
                    assert(false);
                }
                return Err(e);
            },
        };
        let rep = match self.reputation_ledger.apply_u32(self.accounts[ko].social.reputation, key, w) {
            Ok(v) => v,
            Err(e) => {
                proof {
                    assert(false);
                }
                return Err(e);
            },
        };
        let id = self.next_reaction_id;
        let stamp = crate::types::Change { account: who, block: self.block, time: self.time };
        self.reactions.push(Reaction { id, created: stamp, updated: None, kind });
        self.next_reaction_id = id + 1;
        self.comment_reactions.push(ReactionLink { account: who, target: comment_id, reaction_id: id });
        match kind {
            ReactionKind::Upvote => {
                self.comments[p].upvotes_count = self.comments[p].upvotes_count + 1;
            },
            ReactionKind::Downvote => {
                self.comments[p].downvotes_count = self.comments[p].downvotes_count + 1;
            },
        }
        self.comments[p].score = score;
        self.accounts[ko].social.reputation = rep;
        self.events.push(Event::CommentReactionCreated(who, comment_id, id));
        self.events.push(Event::AccountReputationChanged(author, action, rep));
        proof {
            Module::lemma_accounts_wf_graph_frame(pre, *self);
            self.lemma_account_index(ko as int);
            pre.lemma_account_index(ko as int);
            assert(self.accounts_framed(pre, author, author));
            assert(self.profiles_kept(pre));
            lemma_frame_trans(old_self, pre, *self, author, author);
            assert(pre.follows_kept(old_self, author));
            lemma_link_push(pre.comment_reactions@, pre.comments@.len() as int, self.reactions@.len() as int,
                ReactionLink { account: who, target: comment_id, reaction_id: id });
            assert forall|i: int| 0 <= i < self.comments@.len() implies #[trigger] self.comments@[i].id == i + 1 by {
                assert(pre.comments@[i].id == i + 1);
            }
            assert forall|i: int| 0 <= i < self.reactions@.len() implies #[trigger] self.reactions@[i].id == i + 1 by {
                if i < pre.reactions@.len() {
                    assert(pre.reactions@[i].id == i + 1);
                }
            }
            assert forall|i: int| 0 <= i < self.comments@.len() implies 1 <= #[trigger] self.comments@[i].post_id
                <= self.posts@.len() by {
                assert(pre.comments@[i].post_id <= pre.posts@.len());
            }
            assert forall|i: int| 0 <= i < self.comments@.len() implies match #[trigger] self.comments@[i].parent_id {
                Some(q) => 1 <= q <= i,
                None => true,
            } by {
                assert(pre.comments@[i].parent_id == self.comments@[i].parent_id);
            }
        }
        Ok(id)
    }

    pub open spec fn update_comment_reaction_error(&self, who: u64, comment_id: u64, reaction_id: u64,
        new_kind: ReactionKind) -> Option<Error> {
        let kind = self.reactions@[reaction_id - 1].kind;
        let ko = comment_reaction_key(who, comment_id, kind);
        let kn = comment_reaction_key(who, comment_id, new_kind);
        if !self.has_comment(comment_id) {
            Some(Error::NotFound(Entity::Comment))
        } else if !has_reaction_link(self.comment_reactions@, comment_id, reaction_id) {
            Some(Error::NotFound(Entity::Reaction))
        } else if self.reactions@[reaction_id - 1].created.account != who {
            Some(Error::Unauthorized)
        } else if kind == new_kind {
            Some(Error::Conflict(ConflictReason::SameReactionKind))
        } else if (new_kind == ReactionKind::Upvote && self.comment(comment_id).upvotes_count == u16::MAX)
            || (new_kind == ReactionKind::Downvote && self.comment(comment_id).downvotes_count == u16::MAX) {
            Some(Error::Conflict(ConflictReason::CounterOverflow))
        } else if !self.score_ledger.view().contains_key(ko) || !self.reputation_ledger.view().contains_key(ko) {
            Some(Error::LedgerConflict(LedgerFault::NotApplied))
        } else if self.score_ledger.view().contains_key(kn) || self.reputation_ledger.view().contains_key(kn) {
            Some(Error::LedgerConflict(LedgerFault::AlreadyApplied))
        } else {
            None
        }
    }

    /// `who` changes the kind of their reaction on comment `comment_id`: the
    /// score of the old kind is reversed and that of the new kind applied, on
    /// the comment and on its author, together.
    #[verifier::rlimit(100)]
    pub fn update_comment_reaction(&mut self, who: u64, comment_id: u64, reaction_id: u64, new_kind: ReactionKind)
        -> (r: Result<(), Error>)
        requires
            old(self).wf(),
        ensures
            final(self).wf(),
            match old(self).update_comment_reaction_error(who, comment_id, reaction_id, new_kind) {
                Some(e) => r == Err::<(), Error>(e) && *final(self) == *old(self),
                None => {
                    let rx = old(self).reactions@[reaction_id - 1];
                    let author = old(self).comment(comment_id).created.account;
                    let ko = comment_reaction_key(who, comment_id, rx.kind);
                    let kn = comment_reaction_key(who, comment_id, new_kind);
                    let w = old(self).config.weight_of(comment_action(new_kind));
                    let o = old(self).comment(comment_id);
                    let p = final(self).comment(comment_id);
                    &&& r == Ok::<(), Error>(())
                    &&& final(self).same_settings(*old(self))
                    &&& final(self).accounts_framed(*old(self), author, author)
                    &&& final(self).profiles_kept(*old(self))
                    &&& final(self).follows_kept(*old(self), author)
                    &&& final(self).reactions@ == old(self).reactions@.update(reaction_id - 1,
                        Reaction { id: rx.id, created: rx.created, updated: Some(old(self).stamp(who)), kind: new_kind })
                    &&& final(self).comment_reactions == old(self).comment_reactions
                    &&& (new_kind == ReactionKind::Upvote ==> p.upvotes_count == o.upvotes_count + 1
                        && p.downvotes_count == dec16(o.downvotes_count))
                    &&& (new_kind == ReactionKind::Downvote ==> p.downvotes_count == o.downvotes_count + 1
                        && p.upvotes_count == dec16(o.upvotes_count))
                    &&& p.direct_replies_count == o.direct_replies_count
                    &&& same_comment_content(p, o)
                    &&& final(self).comments@.len() == old(self).comments@.len()
                    &&& forall|j: u64| #![auto] old(self).has_comment(j) && j != comment_id ==> final(self).comment(j) == old(self).comment(j)
                    &&& ledger_swap(old(self).score_ledger.view(), o.score as int, i32::MIN as int, i32::MAX as int, ko, kn, w)
                        == Ok::<(Map<LedgerKey, i16>, int), Error>((final(self).score_ledger.view(), p.score as int))
                    &&& ledger_swap(old(self).reputation_ledger.view(), old(self).reputation_of(author) as int,
                        0, u32::MAX as int, ko, kn, w)
                        == Ok::<(Map<LedgerKey, i16>, int), Error>(
                            (final(self).reputation_ledger.view(), final(self).reputation_of(author) as int))
                    &&& final(self).events@ == old(self).events@.push(Event::CommentReactionUpdated(who, comment_id, reaction_id)).push(
                        Event::AccountReputationChanged(author, comment_action(new_kind), final(self).reputation_of(author)))
                    &&& final(self).blogs == old(self).blogs
                    &&& final(self).blog_followers == old(self).blog_followers
                    &&& final(self).posts == old(self).posts
                    &&& final(self).post_reactions == old(self).post_reactions
                },
            },
    {
        if comment_id == 0 || comment_id > self.comments.len() as u64 {
            return Err(Error::NotFound(Entity::Comment));
        }
        let p = (comment_id - 1) as usize;
        let j = match find_link_by_id(&self.comment_reactions, comment_id, reaction_id) {
            Some(j) => j,
            None => {
                return Err(Error::NotFound(Entity::Reaction));
            },
        };
        assert(1 <= self.comment_reactions@[j as int].reaction_id <= self.reactions@.len());
        if reaction_id == 0 || reaction_id > self.reactions.len() as u64 {
            return Err(Error::NotFound(Entity::Reaction));
        }
        let x = (reaction_id - 1) as usize;
        if self.reactions[x].created.account != who {
            return Err(Error::Unauthorized);
        }
        assert(self.comment_reactions@[j as int].account == who);
        proof {
            lemma_reaction_on(self.comment_reactions@, self.comments@.len() as int, self.reactions@.len() as int, j as int);
        }
        let kind = self.reactions[x].kind;
        if kind == new_kind {
            return Err(Error::Conflict(ConflictReason::SameReactionKind));
        }
        let full = match new_kind {
            ReactionKind::Upvote => self.comments[p].upvotes_count == u16::MAX,
            ReactionKind::Downvote => self.comments[p].downvotes_count == u16::MAX,
        };
        if full {
            return Err(Error::Conflict(ConflictReason::CounterOverflow));
        }
        let key_old = LedgerKey { actor: who, target: comment_id, action: comment_action_of(kind) };
        let action = comment_action_of(new_kind);
        let key_new = LedgerKey { actor: who, target: comment_id, action };
        if self.score_ledger.get(key_old).is_none() || self.reputation_ledger.get(key_old).is_none() {
            return Err(Error::LedgerConflict(LedgerFault::NotApplied));
        }
        if self.score_ledger.get(key_new).is_some() || self.reputation_ledger.get(key_new).is_some() {
            return Err(Error::LedgerConflict(LedgerFault::AlreadyApplied));
        }
        let w = self.config.weight(action);
        let author = self.comments[p].created.account;
        let ghost old_self = *self;
        let ka = self.ensure_account(author);
        proof {
            if old_self.has_account(author) {
                old_self.lemma_account_index(old_self.account_index(author));
            }
        }
        let ghost pre = *self;
        let s1 = match self.score_ledger.reverse_i32(self.comments[p].score, key_old) {
            Ok(s) => s,
            Err(e) => {
                proof {
                    assert(false);
                }
                return Err(e);
            },
        };
        assert(key_old != key_new);
        let score = match self.score_ledger.apply_i32(s1, key_new, w) {
            Ok(s) => s,
            Err(e) => {
                proof {
                    assert(false);
                }
                return Err(e);
            },
        };
        let r1 = match self.reputation_ledger.reverse_u32(self.accounts[ka].social.reputation, key_old) {
            Ok(v) => v,
            Err(e) => {
                proof {
                    assert(false);
                }
                return Err(e);
            },
        };
        let rep = match self.reputation_ledger.apply_u32(r1, key_new, w) {
            Ok(v) => v,
            Err(e) => {
                proof {
                    assert(false);
                }
                return Err(e);
            },
        };
        let stamp = crate::types::Change { account: who, block: self.block, time: self.time };
        self.reactions[x].kind = new_kind;
        self.reactions[x].updated = Some(stamp);
        match new_kind {
            ReactionKind::Upvote => {
                self.comments[p].upvotes_count = self.comments[p].upvotes_count + 1;
                if self.comments[p].downvotes_count > 0 {
                    self.comments[p].downvotes_count = self.comments[p].downvotes_count - 1;
                }
            },
            ReactionKind::Downvote => {
                self.comments[p].downvotes_count = self.comments[p].downvotes_count + 1;
                if self.comments[p].upvotes_count > 0 {
                    self.comments[p].upvotes_count = self.comments[p].upvotes_count - 1;
                }
            },
        }
        self.comments[p].score = score;
        self.accounts[ka].social.reputation = rep;
        self.events.push(Event::CommentReactionUpdated(who, comment_id, reaction_id));
        self.events.push(Event::AccountReputationChanged(author, action, rep));
        proof {
            Module::lemma_accounts_wf_graph_frame(pre, *self);
            self.lemma_account_index(ka as int);
            pre.lemma_account_index(ka as int);
            assert(self.accounts_framed(pre, author, author));
            assert(self.profiles_kept(pre));
            lemma_frame_trans(old_self, pre, *self, author, author);
            assert(pre.follows_kept(old_self, author));
            assert forall|i: int| 0 <= i < self.comments@.len() implies #[trigger] self.comments@[i].id == i + 1 by {
                assert(pre.comments@[i].id == i + 1);
            }
            assert forall|i: int| 0 <= i < self.reactions@.len() implies #[trigger] self.reactions@[i].id == i + 1 by {
                assert(pre.reactions@[i].id == i + 1);
            }
            assert forall|i: int| 0 <= i < self.comments@.len() implies 1 <= #[trigger] self.comments@[i].post_id
                <= self.posts@.len() by {
                assert(pre.comments@[i].post_id <= pre.posts@.len());
            }
            assert forall|i: int| 0 <= i < self.comments@.len() implies match #[trigger] self.comments@[i].parent_id {
                Some(q) => 1 <= q <= i,
                None => true,
            } by {
                assert(pre.comments@[i].parent_id == self.comments@[i].parent_id);
            }
        }
        Ok(())
    }

    pub open spec fn delete_comment_reaction_error(&self, who: u64, comment_id: u64, reaction_id: u64) -> Option<Error> {
        let k = comment_reaction_key(who, comment_id, self.reactions@[reaction_id - 1].kind);
        if !self.has_comment(comment_id) {
            Some(Error::NotFound(Entity::Comment))
        } else if !has_reaction_link(self.comment_reactions@, comment_id, reaction_id) {
            Some(Error::NotFound(Entity::Reaction))
        } else if self.reactions@[reaction_id - 1].created.account != who {
            Some(Error::Unauthorized)
        } else if !self.score_ledger.view().contains_key(k) || !self.reputation_ledger.view().contains_key(k) {
            Some(Error::LedgerConflict(LedgerFault::NotApplied))
        } else {
            None
        }
    }

    /// `who` withdraws their reaction on comment `comment_id`: it leaves the
    /// index, its score is reversed, and the reaction record itself stays,
    /// so that its id is never handed out again.
    pub fn delete_comment_reaction(&mut self, who: u64, comment_id: u64, reaction_id: u64) -> (r: Result<(), Error>)
        requires
            old(self).wf(),
        ensures
            final(self).wf(),
            match old(self).delete_comment_reaction_error(who, comment_id, reaction_id) {
                Some(e) => r == Err::<(), Error>(e) && *final(self) == *old(self),
                None => {
                    let kind = old(self).reactions@[reaction_id - 1].kind;
                    let author = old(self).comment(comment_id).created.account;
                    let k = comment_reaction_key(who, comment_id, kind);
                    let o = old(self).comment(comment_id);
                    let p = final(self).comment(comment_id);
                    &&& r == Ok::<(), Error>(())
                    &&& final(self).same_settings(*old(self))
                    &&& final(self).accounts_framed(*old(self), author, author)
                    &&& final(self).profiles_kept(*old(self))
                    &&& final(self).follows_kept(*old(self), author)
                    &&& final(self).reactions == old(self).reactions
                    &&& exists|j: int| 0 <= j < old(self).comment_reactions@.len()
                        && final(self).comment_reactions@ == old(self).comment_reactions@.remove(j)
                    &&& !has_link(final(self).comment_reactions@, who, comment_id)
                    &&& (kind == ReactionKind::Upvote ==> p.upvotes_count == dec16(o.upvotes_count)
                        && p.downvotes_count == o.downvotes_count)
                    &&& (kind == ReactionKind::Downvote ==> p.downvotes_count == dec16(o.downvotes_count)
                        && p.upvotes_count == o.upvotes_count)
                    &&& p.direct_replies_count == o.direct_replies_count
                    &&& same_comment_content(p, o)
                    &&& final(self).comments@.len() == old(self).comments@.len()
                    &&& forall|j: u64| #![auto] old(self).has_comment(j) && j != comment_id ==> final(self).comment(j) == old(self).comment(j)
                    &&& ledger_reverse(old(self).score_ledger.view(), o.score as int, i32::MIN as int, i32::MAX as int, k)
                        == Ok::<(Map<LedgerKey, i16>, int), Error>((final(self).score_ledger.view(), p.score as int))
                    &&& ledger_reverse(old(self).reputation_ledger.view(), old(self).reputation_of(author) as int,
                        0, u32::MAX as int, k)
                        == Ok::<(Map<LedgerKey, i16>, int), Error>(
                            (final(self).reputation_ledger.view(), final(self).reputation_of(author) as int))
                    &&& final(self).events@ == old(self).events@.push(Event::CommentReactionDeleted(who, comment_id, reaction_id)).push(
                        Event::AccountReputationChanged(author, comment_action(kind), final(self).reputation_of(author)))
                    &&& final(self).blogs == old(self).blogs
                    &&& final(self).blog_followers == old(self).blog_followers
                    &&& final(self).posts == old(self).posts
                    &&& final(self).post_reactions == old(self).post_reactions
                },
            },
    {
        if comment_id == 0 || comment_id > self.comments.len() as u64 {
            return Err(Error::NotFound(Entity::Comment));
        }
        let p = (comment_id - 1) as usize;
        let j = match find_link_by_id(&self.comment_reactions, comment_id, reaction_id) {
            Some(j) => j,
            None => {
                return Err(Error::NotFound(Entity::Reaction));
            },
        };
        assert(1 <= self.comment_reactions@[j as int].reaction_id <= self.reactions@.len());
        if reaction_id == 0 || reaction_id > self.reactions.len() as u64 {
            return Err(Error::NotFound(Entity::Reaction));
        }
        let x = (reaction_id - 1) as usize;
        if self.reactions[x].created.account != who {
            return Err(Error::Unauthorized);
        }
        assert(self.comment_reactions@[j as int].account == who);
        proof {
            lemma_reaction_on(self.comment_reactions@, self.comments@.len() as int, self.reactions@.len() as int, j as int);
        }
        let kind = self.reactions[x].kind;
        let action = comment_action_of(kind);
        let key = LedgerKey { actor: who, target: comment_id, action };
        if self.score_ledger.get(key).is_none() || self.reputation_ledger.get(key).is_none() {
            return Err(Error::LedgerConflict(LedgerFault::NotApplied));
        }
        let author = self.comments[p].created.account;
        let ghost old_self = *self;
        let ka = self.ensure_account(author);
        proof {
            if old_self.has_account(author) {
                old_self.lemma_account_index(old_self.account_index(author));
            }
        }
        let ghost pre = *self;
        let score = match self.score_ledger.reverse_i32(self.comments[p].score, key) {
            Ok(s) => s,
            Err(e) => {
                proof {
                    assert(false);
                }
                return Err(e);
            },
        };
        let rep = match self.reputation_ledger.reverse_u32(self.accounts[ka].social.reputation, key) {
            Ok(v) => v,
            Err(e) => {
                proof {
                    assert(false);
                }
                return Err(e);
            },
        };
        self.comment_reactions.remove(j);
        match kind {
            ReactionKind::Upvote => {
                if self.comments[p].upvotes_count > 0 {
                    self.comments[p].upvotes_count = self.comments[p].upvotes_count - 1;
                }
            },
            ReactionKind::Downvote => {
                if self.comments[p].downvotes_count > 0 {
                    self.comments[p].downvotes_count = self.comments[p].downvotes_count - 1;
                }
            },
        }
        self.comments[p].score = score;
        self.accounts[ka].social.reputation = rep;
        self.events.push(Event::CommentReactionDeleted(who, comment_id, reaction_id));
        self.events.push(Event::AccountReputationChanged(author, action, rep));
        proof {
            Module::lemma_accounts_wf_graph_frame(pre, *self);
            self.lemma_account_index(ka as int);
            pre.lemma_account_index(ka as int);
            assert(self.accounts_framed(pre, author, author));
            assert(self.profiles_kept(pre));
            lemma_frame_trans(old_self, pre, *self, author, author);
            assert(pre.follows_kept(old_self, author));
            lemma_link_remove(pre.comment_reactions@, pre.comments@.len() as int, pre.reactions@.len() as int, j as int);
            assert forall|i: int| 0 <= i < self.comments@.len() implies #[trigger] self.comments@[i].id == i + 1 by {
                assert(pre.comments@[i].id == i + 1);
            }
            assert forall|i: int| 0 <= i < self.comments@.len() implies 1 <= #[trigger] self.comments@[i].post_id
                <= self.posts@.len() by {
                assert(pre.comments@[i].post_id <= pre.posts@.len());
            }
            assert forall|i: int| 0 <= i < self.comments@.len() implies match #[trigger] self.comments@[i].parent_id {
                Some(q) => 1 <= q <= i,
                None => true,
            } by {
                assert(pre.comments@[i].parent_id == self.comments@[i].parent_id);
            }
        }
        Ok(())
    }
}

} // verus!
