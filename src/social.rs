use vstd::prelude::*;

use crate::entities::{Blog, SocialAccount};
use crate::ledger::{ledger_apply, ledger_reverse, LedgerKey};
use crate::store::{copy_ids, AccountRecord, Event, Module};
use crate::types::{ConflictReason, Entity, Error, LedgerFault, ScoringAction};

verus! {

pub proof fn lemma_push_contains(s: Seq<u64>, x: u64, y: u64)
    ensures
        s.push(x).contains(y) <==> (s.contains(y) || y == x),
{
    if s.push(x).contains(y) && y != x {
        let j = choose|j: int| 0 <= j < s.push(x).len() && s.push(x)[j] == y;
        assert(s[j] == y);
    }
    if s.contains(y) {
        let j = choose|j: int| 0 <= j < s.len() && s[j] == y;
        assert(s.push(x)[j] == y);
    }
    assert(s.push(x)[s.len() as int] == x);
}

pub proof fn lemma_push_no_dup(s: Seq<u64>, x: u64)
    requires
        s.no_duplicates(),
        !s.contains(x),
    ensures
        s.push(x).no_duplicates(),
{
    assert forall|i: int, j: int| 0 <= i < s.push(x).len() && 0 <= j < s.push(x).len() && i != j
        implies s.push(x)[i] != s.push(x)[j] by {
        if i < s.len() && j == s.len() {
            assert(s.contains(s[i]));
        } else if j < s.len() && i == s.len() {
            assert(s.contains(s[j]));
        }
    }
}

pub proof fn lemma_remove_contains(s: Seq<u64>, j: int, y: u64)
    requires
        s.no_duplicates(),
        0 <= j < s.len(),
    ensures
        s.remove(j).contains(y) <==> (s.contains(y) && y != s[j]),
        s.remove(j).no_duplicates(),
{
    let r = s.remove(j);
    if r.contains(y) {
        let i = choose|i: int| 0 <= i < r.len() && r[i] == y;
        if i < j {
            assert(s[i] == y);
        } else {
            assert(s[i + 1] == y);
        }
    }
    if s.contains(y) && y != s[j] {
        let i = choose|i: int| 0 <= i < s.len() && s[i] == y;
        if i < j {
            assert(r[i] == y);
        } else {
            assert(r[i - 1] == y);
        }
    }
}

/// Blog `b` with its followers count and score set aside.
pub open spec fn same_blog_content(a: Blog, b: Blog) -> bool {
    &&& a.id == b.id
    &&& a.created == b.created
    &&& a.updated == b.updated
    &&& a.writers == b.writers
    &&& a.slug == b.slug
    &&& a.ipfs_hash == b.ipfs_hash
    &&& a.posts_count == b.posts_count
    &&& a.edit_history == b.edit_history
}

/// Where the position of a blog follow is recorded in both ledgers.
pub open spec fn follow_blog_key(who: u64, id: u64) -> LedgerKey {
    LedgerKey { actor: who, target: id, action: ScoringAction::FollowBlog }
}

/// Where a follow of an account is recorded in the reputation ledger.
pub open spec fn follow_account_key(who: u64, a: u64) -> LedgerKey {
    LedgerKey { actor: who, target: a, action: ScoringAction::FollowAccount }
}

/// Whether `x` occurs in `v`.
pub fn vec_contains(v: &Vec<u64>, x: u64) -> (r: bool)
    ensures
        r == v@.contains(x),
{
    match vec_position(v, x) {
        Some(_) => true,
        None => false,
    }
}

/// Where `x` first occurs in `v`, if it does.
pub fn vec_position(v: &Vec<u64>, x: u64) -> (r: Option<usize>)
    ensures
        match r {
            Some(j) => j < v@.len() && v@[j as int] == x && v@.contains(x),
            None => !v@.contains(x),
        },
{
    let mut i: usize = 0;
    while i < v.len()
        invariant
            i <= v@.len(),
            forall|j: int| 0 <= j < i ==> v@[j] != x,
        decreases v@.len() - i,
    {
        if v[i] == x {
            return Some(i);
        }
        i = i + 1;
    }
    None
}

proof fn lemma_same_keys(a: Module, b: Module)
    requires
        a.accounts@.len() == b.accounts@.len(),
        forall|k: int| 0 <= k < a.accounts@.len() ==> #[trigger] a.accounts@[k].account == b.accounts@[k].account,
    ensures
        forall|x: u64| a.has_account(x) == b.has_account(x),
{
    assert forall|x: u64| a.has_account(x) == b.has_account(x) by {
        if a.has_account(x) {
            let j = choose|j: int| 0 <= j < a.accounts@.len() && #[trigger] a.accounts@[j].account == x;
            assert(b.accounts@[j].account == x);
        }
        if b.has_account(x) {
            let j = choose|j: int| 0 <= j < b.accounts@.len() && #[trigger] b.accounts@[j].account == x;
            assert(a.accounts@[j].account == x);
        }
    }
}


/// A followers count always equals the number of distinct accounts in the
/// matching reverse-follower set, for a blog and for an account alike.
pub proof fn lemma_followers_count_is_cardinality(m: Module, id: u64, a: u64)
    requires
        m.wf(),
    ensures
        m.has_blog(id) ==> m.blog(id).followers_count == m.followers_of_blog(id).to_set().len(),
        m.has_account(a) ==> m.account(a).social.followers_count == m.followers_of_account(a).to_set().len(),
{
    if m.has_blog(id) {
        assert(m.blog_followers@[id - 1]@.no_duplicates());
        m.followers_of_blog(id).unique_seq_to_set();
    }
    if m.has_account(a) {
        let k = m.account_index(a);
        assert(Module::record_wf(m.accounts@[k]));
        m.followers_of_account(a).unique_seq_to_set();
    }
}

/// The follow graph is kept from both ends: `a` is among the followers of
/// blog `b` exactly when `b` is among the blogs that `a` follows, and `a`
/// is among the followers of account `c` exactly when `c` is among the
/// accounts that `a` follows.
pub proof fn lemma_follow_graph_symmetric(m: Module, a: u64, b: u64, c: u64)
    requires
        m.wf(),
    ensures
        m.has_blog(b) ==> (m.followers_of_blog(b).contains(a) <==> m.blogs_followed_by(a).contains(b)),
        m.followers_of_account(c).contains(a) <==> m.accounts_followed_by(a).contains(c),
{
    if m.has_account(a) {
        let ka = m.account_index(a);
        if m.has_blog(b) {
            assert(m.blog_followers@[b - 1]@.contains(m.accounts@[ka].account)
                <==> m.accounts@[ka].followed_blogs@.contains(((b - 1) + 1) as u64));
        }
        if m.has_account(c) {
            let kc = m.account_index(c);
            assert(m.accounts@[kc].followers@.contains(m.accounts@[ka].account)
                <==> m.accounts@[ka].followed_accounts@.contains(m.accounts@[kc].account));
        } else {
            if m.accounts_followed_by(a).contains(c) {
                assert(m.accounts@[ka].followed_accounts@.contains(c));
            }
        }
    } else {
        if m.has_blog(b) && m.followers_of_blog(b).contains(a) {
            assert(m.blog_followers@[b - 1]@.contains(a));
        }
        if m.has_account(c) && m.followers_of_account(c).contains(a) {
            let kc = m.account_index(c);
            assert(m.accounts@[kc].followers@.contains(a));
        }
    }
}

/// Frames compose: what two steps in a row keep, the pair keeps.
pub(crate) proof fn lemma_frame_trans(old: Module, mid: Module, new: Module, a: u64, b: u64)
    requires
        mid.accounts_framed(old, a, b),
        new.accounts_framed(mid, a, b),
        mid.profiles_kept(old),
        new.profiles_kept(mid),
    ensures
        new.accounts_framed(old, a, b),
        new.profiles_kept(old),
{
    assert forall|k: int| 0 <= k < old.accounts@.len() && old.accounts@[k].account != a && old.accounts@[k].account != b
        implies #[trigger] new.accounts@[k] == old.accounts@[k] by {
        assert(mid.accounts@[k] == old.accounts@[k]);
    }
    assert forall|k: int| 0 <= k < old.accounts@.len() implies (#[trigger] new.accounts@[k]).account == old.accounts@[k].account by {
        assert(mid.accounts@[k].account == old.accounts@[k].account);
    }
    assert forall|k: int| old.accounts@.len() <= k < new.accounts@.len()
        implies (#[trigger] new.accounts@[k]).account == a || new.accounts@[k].account == b by {
        if k < mid.accounts@.len() {
            assert(mid.accounts@[k].account == a || mid.accounts@[k].account == b);
        }
    }
    assert forall|k: int| 0 <= k < old.accounts@.len() && k < new.accounts@.len()
        implies (#[trigger] new.accounts@[k]).social.profile == old.accounts@[k].social.profile by {
        assert(mid.accounts@[k].social.profile == old.accounts@[k].social.profile);
    }
    assert forall|k: int| old.accounts@.len() <= k < new.accounts@.len() implies (#[trigger] new.accounts@[k]).social.profile is None by {
        if k < mid.accounts@.len() {
            assert(mid.accounts@[k].social.profile is None);
        }
    }
}

impl Module {
    pub proof fn lemma_account_index(&self, k: int)
        requires
            self.accounts_wf(),
            0 <= k < self.accounts@.len(),
        ensures
            self.has_account(self.accounts@[k].account),
            self.account_index(self.accounts@[k].account) == k,
    {
        let a = self.accounts@[k].account;
        assert(self.accounts@[k].account == a);
        let c = self.account_index(a);
        assert(0 <= c < self.accounts@.len() && self.accounts@[c].account == a);
    }

    /// Where the record of `a` stands, if it has one.
    pub fn find_account(&self, a: u64) -> (r: Option<usize>)
        requires
            self.wf(),
        ensures
            match r {
                Some(k) => k < self.accounts@.len() && self.accounts@[k as int].account == a
                    && self.has_account(a) && self.account_index(a) == k,
                None => !self.has_account(a),
            },
    {
        let mut i: usize = 0;
        while i < self.accounts.len()
            invariant
                self.wf(),
                i <= self.accounts@.len(),
                forall|j: int| 0 <= j < i ==> self.accounts@[j].account != a,
            decreases self.accounts@.len() - i,
        {
            if self.accounts[i].account == a {
                proof {
                    self.lemma_account_index(i as int);
                }
                return Some(i);
            }
            i = i + 1;
        }
        None
    }

    /// The record of `a`, made empty if it had none; where it stands.
    pub(crate) fn ensure_account(&mut self, a: u64) -> (k: usize)
        requires
            old(self).wf(),
        ensures
            final(self).wf(),
            final(self).accounts_framed(*old(self), a, a),
            final(self).profiles_kept(*old(self)),
            forall|x: u64| #[trigger] final(self).follows_kept(*old(self), x),
            forall|x: u64| #[trigger] final(self).reputation_of(x) == old(self).reputation_of(x),
            k < final(self).accounts@.len(),
            final(self).accounts@[k as int].account == a,
            final(self).has_account(a),
            final(self).account_index(a) == k,
            old(self).has_account(a) ==> final(self).accounts == old(self).accounts,
            !old(self).has_account(a) ==> {
                &&& final(self).accounts@.len() == old(self).accounts@.len() + 1
                &&& final(self).accounts@.take(old(self).accounts@.len() as int) == old(self).accounts@
                &&& final(self).accounts@[k as int].followed_blogs@.len() == 0
                &&& final(self).accounts@[k as int].followers@.len() == 0
                &&& final(self).accounts@[k as int].followed_accounts@.len() == 0
                &&& final(self).accounts@[k as int].social.reputation == 0
                &&& final(self).accounts@[k as int].social.profile is None
            },
            forall|x: u64| x != a ==> (final(self).has_account(x) == old(self).has_account(x)),
            forall|x: u64| x != a && old(self).has_account(x) ==> final(self).account(x) == old(self).account(x),
            final(self).config == old(self).config,
            final(self).block == old(self).block && final(self).time == old(self).time,
            final(self).blogs == old(self).blogs,
            final(self).blog_followers == old(self).blog_followers,
            final(self).posts == old(self).posts,
            final(self).comments == old(self).comments,
            final(self).reactions == old(self).reactions,
            final(self).post_reactions == old(self).post_reactions,
            final(self).comment_reactions == old(self).comment_reactions,
            final(self).reputation_ledger == old(self).reputation_ledger,
            final(self).score_ledger == old(self).score_ledger,
            final(self).events == old(self).events,
            final(self).next_blog_id == old(self).next_blog_id,
            final(self).next_post_id == old(self).next_post_id,
            final(self).next_comment_id == old(self).next_comment_id,
            final(self).next_reaction_id == old(self).next_reaction_id,
    {
        match self.find_account(a) {
            Some(k) => k,
            None => {
                let ghost old_self = *self;
                let rec = AccountRecord {
                    account: a,
                    social: SocialAccount {
                        followers_count: 0,
                        following_accounts_count: 0,
                        following_blogs_count: 0,
                        reputation: 0,
                        profile: None,
                    },
                    followed_blogs: Vec::new(),
                    followers: Vec::new(),
                    followed_accounts: Vec::new(),
                };
                let k = self.accounts.len();
                self.accounts.push(rec);
                proof {
                    let n = old_self.accounts@.len();
                    assert(self.accounts@.take(n as int) =~= old_self.accounts@);
                    assert forall|j: int| 0 <= j < n implies #[trigger] self.accounts@[j] == old_self.accounts@[j] by {}
                    assert(self.accounts@[k as int].account == a);
                    assert forall|x: u64| x != a implies (self.has_account(x) == old_self.has_account(x)) by {
                        if self.has_account(x) {
                            let j = choose|j: int| 0 <= j < self.accounts@.len() && #[trigger] self.accounts@[j].account == x;
                            assert(old_self.accounts@[j].account == x);
                        }
                        if old_self.has_account(x) {
                            let j = choose|j: int| 0 <= j < old_self.accounts@.len() && #[trigger] old_self.accounts@[j].account == x;
                            assert(self.accounts@[j].account == x);
                        }
                    }
                    assert forall|k1: int, k2: int|
                        0 <= k1 < self.accounts@.len() && 0 <= k2 < self.accounts@.len() && k1 != k2
                            implies #[trigger] self.accounts@[k1].account != #[trigger] self.accounts@[k2].account by {
                        if k1 < n && k2 == n {
                            assert(old_self.accounts@[k1].account == self.accounts@[k1].account);
                        } else if k2 < n && k1 == n {
                            assert(old_self.accounts@[k2].account == self.accounts@[k2].account);
                        }
                    }
                    assert forall|x: u64| x != a && old_self.has_account(x)
                        implies self.account(x) == old_self.account(x) by {
                        let j = old_self.account_index(x);
                        old_self.lemma_account_index(j);
                        self.lemma_account_index(j);
                    }
                    assert forall|i: int, x: u64|
                        0 <= i < self.blogs@.len() && #[trigger] self.blog_followers@[i]@.contains(x)
                            implies self.has_account(x) by {
                        assert(old_self.has_account(x));
                        let j = choose|j: int| 0 <= j < old_self.accounts@.len() && #[trigger] old_self.accounts@[j].account == x;
                        assert(self.accounts@[j].account == x);
                    }
                    assert forall|i: int, kk: int|
                        0 <= i < self.blogs@.len() && 0 <= kk < self.accounts@.len() implies (
                        (#[trigger] self.blog_followers@[i])@.contains((#[trigger] self.accounts@[kk]).account)
                            <==> self.accounts@[kk].followed_blogs@.contains((i + 1) as u64)) by {
                        if kk == n {
                            if self.blog_followers@[i]@.contains(a) {
                                assert(old_self.has_account(a));
                            }
                        }
                    }
                    assert forall|k1: int, k2: int|
                        0 <= k1 < self.accounts@.len() && 0 <= k2 < self.accounts@.len() implies (
                        (#[trigger] self.accounts@[k2]).followers@.contains((#[trigger] self.accounts@[k1]).account)
                            <==> self.accounts@[k1].followed_accounts@.contains(self.accounts@[k2].account)) by {
                        if k1 == n && k2 < n {
                            if self.accounts@[k2].followers@.contains(a) {
                                assert(old_self.has_account(a));
                            }
                        }
                        if k2 == n && k1 < n {
                            if self.accounts@[k1].followed_accounts@.contains(a) {
                                assert(old_self.has_account(a));
                            }
                        }
                    }
                    assert forall|kk: int, x: u64|
                        0 <= kk < self.accounts@.len() && #[trigger] self.accounts@[kk].followers@.contains(x)
                            implies self.has_account(x) by {
                        assert(old_self.has_account(x));
                        let j = choose|j: int| 0 <= j < old_self.accounts@.len() && #[trigger] old_self.accounts@[j].account == x;
                        assert(self.accounts@[j].account == x);
                    }
                    assert forall|kk: int, x: u64|
                        0 <= kk < self.accounts@.len() && #[trigger] self.accounts@[kk].followed_accounts@.contains(x)
                            implies self.has_account(x) by {
                        assert(old_self.has_account(x));
                        let j = choose|j: int| 0 <= j < old_self.accounts@.len() && #[trigger] old_self.accounts@[j].account == x;
                        assert(self.accounts@[j].account == x);
                    }
                    self.lemma_account_index(k as int);
                    assert forall|x: u64| #[trigger] self.follows_kept(old_self, x) by {
                        if x == a {
                            assert(self.account(a).followed_blogs@ =~= Seq::<u64>::empty());
                            assert(self.account(a).followers@ =~= Seq::<u64>::empty());
                            assert(self.account(a).followed_accounts@ =~= Seq::<u64>::empty());
                        }
                    }
                    assert forall|x: u64| #[trigger] self.reputation_of(x) == old_self.reputation_of(x) by {}
                }
                k
            },
        }
    }

    pub open spec fn follow_blog_error(&self, who: u64, id: u64) -> Option<Error> {
        if !self.has_blog(id) {
            Some(Error::NotFound(Entity::Blog))
        } else if self.followers_of_blog(id).contains(who) {
            Some(Error::Conflict(ConflictReason::AlreadyFollowing))
        } else if self.blog(id).followers_count == u32::MAX || self.blogs_followed_by(who).len() >= u16::MAX {
            Some(Error::Conflict(ConflictReason::CounterOverflow))
        } else if self.score_ledger.view().contains_key(follow_blog_key(who, id))
            || self.reputation_ledger.view().contains_key(follow_blog_key(who, id)) {
            Some(Error::LedgerConflict(LedgerFault::AlreadyApplied))
        } else {
            None
        }
    }

    /// `who` starts following blog `blog_id`: both sides of the follow graph
    /// and both counters move together, and the follow is scored once on
    /// the blog and once on its owner's reputation.
    #[verifier::rlimit(100)]
    pub fn follow_blog(&mut self, who: u64, blog_id: u64) -> (r: Result<(), Error>)
        requires
            old(self).wf(),
        ensures
            final(self).wf(),
            match old(self).follow_blog_error(who, blog_id) {
                Some(e) => r == Err::<(), Error>(e) && *final(self) == *old(self),
                None => {
                    let owner = old(self).blog(blog_id).created.account;
                    let k = follow_blog_key(who, blog_id);
                    let w = old(self).config.weight_of(ScoringAction::FollowBlog);
                    &&& r == Ok::<(), Error>(())
                    &&& final(self).same_settings(*old(self))
                    &&& final(self).accounts_framed(*old(self), who, owner)
                    &&& final(self).profiles_kept(*old(self))
                    &&& who != owner ==> final(self).reputation_of(who) == old(self).reputation_of(who)
                    &&& final(self).followers_of_account(who) == old(self).followers_of_account(who)
                    &&& final(self).accounts_followed_by(who) == old(self).accounts_followed_by(who)
                    &&& owner != who ==> final(self).follows_kept(*old(self), owner)
                    &&& final(self).same_links(*old(self))
                    &&& final(self).followers_of_blog(blog_id) == old(self).followers_of_blog(blog_id).push(who)
                    &&& final(self).blog(blog_id).followers_count == old(self).blog(blog_id).followers_count + 1
                    &&& same_blog_content(final(self).blog(blog_id), old(self).blog(blog_id))
                    &&& final(self).blogs@.len() == old(self).blogs@.len()
                    &&& forall|j: u64| #![auto] old(self).has_blog(j) && j != blog_id ==>
                        final(self).blog(j) == old(self).blog(j)
                            && final(self).followers_of_blog(j) == old(self).followers_of_blog(j)
                    &&& final(self).blogs_followed_by(who) == old(self).blogs_followed_by(who).push(blog_id)
                    &&& ledger_apply(old(self).score_ledger.view(), old(self).blog(blog_id).score as int,
                        i32::MIN as int, i32::MAX as int, k, w)
                        == Ok::<(Map<LedgerKey, i16>, int), Error>(
                            (final(self).score_ledger.view(), final(self).blog(blog_id).score as int))
                    &&& ledger_apply(old(self).reputation_ledger.view(), old(self).reputation_of(owner) as int,
                        0, u32::MAX as int, k, w)
                        == Ok::<(Map<LedgerKey, i16>, int), Error>(
                            (final(self).reputation_ledger.view(), final(self).reputation_of(owner) as int))
                    &&& final(self).events@ == old(self).events@.push(Event::BlogFollowed(who, blog_id)).push(
                        Event::AccountReputationChanged(owner, ScoringAction::FollowBlog, final(self).reputation_of(owner)))
                    &&& final(self).posts == old(self).posts
                    &&& final(self).comments == old(self).comments
                    &&& final(self).reactions == old(self).reactions
                    &&& final(self).config == old(self).config
                },
            },
    {
        if blog_id == 0 || blog_id > self.blogs.len() as u64 {
            return Err(Error::NotFound(Entity::Blog));
        }
        let b = (blog_id - 1) as usize;
        if vec_contains(&self.blog_followers[b], who) {
            return Err(Error::Conflict(ConflictReason::AlreadyFollowing));
        }
        let following: u16 = match self.find_account(who) {
            Some(k) => self.accounts[k].social.following_blogs_count,
            None => 0,
        };
        if self.blogs[b].followers_count == u32::MAX || following == u16::MAX {
            return Err(Error::Conflict(ConflictReason::CounterOverflow));
        }
        let key = LedgerKey { actor: who, target: blog_id, action: ScoringAction::FollowBlog };
        if self.score_ledger.get(key).is_some() || self.reputation_ledger.get(key).is_some() {
            return Err(Error::LedgerConflict(LedgerFault::AlreadyApplied));
        }
        let ghost old_self = *self;
        let owner = self.blogs[b].created.account;
        let kw = self.ensure_account(who);
        let ghost mid1 = *self;
        let ko = self.ensure_account(owner);
        proof {
            if old_self.has_account(who) {
                old_self.lemma_account_index(kw as int);
            }
        }
        assert(self.accounts@[kw as int].account == who);
        let ghost pre = *self;
        let w = self.config.weight(ScoringAction::FollowBlog);
        let score = match self.score_ledger.apply_i32(self.blogs[b].score, key, w) {
            Ok(s) => s,
            Err(e) => {
                proof {
                    assert(false);
                }
                return Err(e);
            },
        };
        let rep = match self.reputation_ledger.apply_u32(self.accounts[ko].social.reputation, key, w) {
            Ok(v) => v,
            Err(e) => {
                proof {
                    assert(false);
                }
                return Err(e);
            },
        };
        self.blog_followers[b].push(who);
        self.blogs[b].followers_count = self.blogs[b].followers_count + 1;
        self.blogs[b].score = score;
        self.accounts[kw].followed_blogs.push(blog_id);
        self.accounts[kw].social.following_blogs_count = self.accounts[kw].social.following_blogs_count + 1;
        self.accounts[ko].social.reputation = rep;
        self.events.push(Event::BlogFollowed(who, blog_id));
        self.events.push(Event::AccountReputationChanged(owner, ScoringAction::FollowBlog, rep));
        proof {
            let n = self.accounts@.len();
            lemma_same_keys(*self, pre);
            assert forall|k: int| 0 <= k < n && k != kw && k != ko implies #[trigger] self.accounts@[k] == pre.accounts@[k] by {}
            assert(!pre.blog_followers@[b as int]@.contains(who));
            assert(!pre.accounts@[kw as int].followed_blogs@.contains(blog_id));
            lemma_push_no_dup(pre.blog_followers@[b as int]@, who);
            lemma_push_no_dup(pre.accounts@[kw as int].followed_blogs@, blog_id);
            assert forall|k1: int, k2: int|
                0 <= k1 < n && 0 <= k2 < n && k1 != k2
                    implies #[trigger] self.accounts@[k1].account != #[trigger] self.accounts@[k2].account by {
                assert(pre.accounts@[k1].account != pre.accounts@[k2].account);
            }
            assert forall|k: int| 0 <= k < n implies Module::record_wf(#[trigger] self.accounts@[k]) by {
                assert(Module::record_wf(pre.accounts@[k]));
            }
            assert forall|i: int, k: int|
                0 <= i < self.blogs@.len() && 0 <= k < n implies (
                (#[trigger] self.blog_followers@[i])@.contains((#[trigger] self.accounts@[k]).account)
                    <==> self.accounts@[k].followed_blogs@.contains((i + 1) as u64)) by {
                assert(pre.blog_followers@[i]@.contains(pre.accounts@[k].account)
                    <==> pre.accounts@[k].followed_blogs@.contains((i + 1) as u64));
                lemma_push_contains(pre.blog_followers@[b as int]@, who, self.accounts@[k].account);
                lemma_push_contains(pre.accounts@[kw as int].followed_blogs@, blog_id, (i + 1) as u64);
                if k != kw {
                    assert(pre.accounts@[k].account != who);
                }
            }
            assert forall|i: int, x: u64|
                0 <= i < self.blogs@.len() && #[trigger] self.blog_followers@[i]@.contains(x)
                    implies self.has_account(x) by {
                lemma_push_contains(pre.blog_followers@[b as int]@, who, x);
                if x != who || i != b {
                    assert(pre.blog_followers@[i]@.contains(x));
                }
            }
            assert forall|k: int, bb: u64|
                0 <= k < n && #[trigger] self.accounts@[k].followed_blogs@.contains(bb)
                    implies 1 <= bb <= self.blogs@.len() by {
                lemma_push_contains(pre.accounts@[kw as int].followed_blogs@, blog_id, bb);
                if k != kw || bb != blog_id {
                    assert(pre.accounts@[k].followed_blogs@.contains(bb));
                }
            }
            assert forall|k1: int, k2: int|
                0 <= k1 < n && 0 <= k2 < n implies (
                (#[trigger] self.accounts@[k2]).followers@.contains((#[trigger] self.accounts@[k1]).account)
                    <==> self.accounts@[k1].followed_accounts@.contains(self.accounts@[k2].account)) by {
                assert(pre.accounts@[k2].followers@.contains(pre.accounts@[k1].account)
                    <==> pre.accounts@[k1].followed_accounts@.contains(pre.accounts@[k2].account));
            }
            assert forall|k: int, x: u64|
                0 <= k < n && #[trigger] self.accounts@[k].followers@.contains(x) implies self.has_account(x) by {
                assert(pre.accounts@[k].followers@.contains(x));
            }
            assert forall|k: int, x: u64|
                0 <= k < n && #[trigger] self.accounts@[k].followed_accounts@.contains(x) implies self.has_account(x) by {
                assert(pre.accounts@[k].followed_accounts@.contains(x));
            }
            assert forall|i: int| 0 <= i < self.blogs@.len() implies #[trigger] self.blogs@[i].id == i + 1 by {
                assert(pre.blogs@[i].id == i + 1);
            }
            assert forall|i: int| 0 <= i < self.blogs@.len() implies #[trigger] self.blogs@[i].followers_count
                == self.blog_followers@[i]@.len() by {
                assert(pre.blogs@[i].followers_count == pre.blog_followers@[i]@.len());
            }
            assert forall|i: int| 0 <= i < self.blogs@.len() implies (#[trigger] self.blog_followers@[i])@.no_duplicates() by {
                assert(pre.blog_followers@[i]@.no_duplicates());
            }
            assert forall|i: int, j: int|
                0 <= i < self.blogs@.len() && 0 <= j < self.blogs@.len() && i != j
                    implies #[trigger] self.blogs@[i].slug@ != #[trigger] self.blogs@[j].slug@ by {
                assert(pre.blogs@[i].slug@ != pre.blogs@[j].slug@);
            }
            self.lemma_account_index(kw as int);
            self.lemma_account_index(ko as int);
            if old_self.has_account(owner) {
                old_self.lemma_account_index(old_self.account_index(owner));
            }
            pre.lemma_account_index(kw as int);
            pre.lemma_account_index(ko as int);
            assert(self.accounts_framed(pre, who, owner));
            assert(self.profiles_kept(pre));
            assert(mid1.accounts_framed(old_self, who, owner));
            lemma_frame_trans(old_self, mid1, pre, who, owner);
            lemma_frame_trans(old_self, pre, *self, who, owner);
            assert(mid1.follows_kept(old_self, who) && pre.follows_kept(mid1, who));
            assert(mid1.follows_kept(old_self, owner) && pre.follows_kept(mid1, owner));
            assert(mid1.reputation_of(who) == old_self.reputation_of(who) && pre.reputation_of(who) == mid1.reputation_of(who));
        }
        Ok(())
    }

    pub open spec fn unfollow_blog_error(&self, who: u64, id: u64) -> Option<Error> {
        if !self.has_blog(id) {
            Some(Error::NotFound(Entity::Blog))
        } else if !self.followers_of_blog(id).contains(who) {
            Some(Error::Conflict(ConflictReason::NotFollowing))
        } else if !self.score_ledger.view().contains_key(follow_blog_key(who, id))
            || !self.reputation_ledger.view().contains_key(follow_blog_key(who, id)) {
            Some(Error::LedgerConflict(LedgerFault::NotApplied))
        } else {
            None
        }
    }

    /// `who` stops following blog `blog_id`: the exact inverse of
    /// `follow_blog`, taking back the scores that the follow was given.
    pub fn unfollow_blog(&mut self, who: u64, blog_id: u64) -> (r: Result<(), Error>)
        requires
            old(self).wf(),
        ensures
            final(self).wf(),
            match old(self).unfollow_blog_error(who, blog_id) {
                Some(e) => r == Err::<(), Error>(e) && *final(self) == *old(self),
                None => {
                    let owner = old(self).blog(blog_id).created.account;
                    let k = follow_blog_key(who, blog_id);
                    &&& r == Ok::<(), Error>(())
                    &&& final(self).same_settings(*old(self))
                    &&& final(self).accounts_framed(*old(self), who, owner)
                    &&& final(self).profiles_kept(*old(self))
                    &&& who != owner ==> final(self).reputation_of(who) == old(self).reputation_of(who)
                    &&& final(self).followers_of_account(who) == old(self).followers_of_account(who)
                    &&& final(self).accounts_followed_by(who) == old(self).accounts_followed_by(who)
                    &&& owner != who ==> final(self).follows_kept(*old(self), owner)
                    &&& final(self).same_links(*old(self))
                    &&& exists|j: int| 0 <= j < old(self).followers_of_blog(blog_id).len()
                        && old(self).followers_of_blog(blog_id)[j] == who
                        && final(self).followers_of_blog(blog_id) == old(self).followers_of_blog(blog_id).remove(j)
                    &&& !final(self).followers_of_blog(blog_id).contains(who)
                    &&& final(self).blog(blog_id).followers_count == old(self).blog(blog_id).followers_count - 1
                    &&& same_blog_content(final(self).blog(blog_id), old(self).blog(blog_id))
                    &&& final(self).blogs@.len() == old(self).blogs@.len()
                    &&& forall|j: u64| #![auto] old(self).has_blog(j) && j != blog_id ==>
                        final(self).blog(j) == old(self).blog(j)
                            && final(self).followers_of_blog(j) == old(self).followers_of_blog(j)
                    &&& exists|j: int| 0 <= j < old(self).blogs_followed_by(who).len()
                        && old(self).blogs_followed_by(who)[j] == blog_id
                        && final(self).blogs_followed_by(who) == old(self).blogs_followed_by(who).remove(j)
                    &&& ledger_reverse(old(self).score_ledger.view(), old(self).blog(blog_id).score as int,
                        i32::MIN as int, i32::MAX as int, k)
                        == Ok::<(Map<LedgerKey, i16>, int), Error>(
                            (final(self).score_ledger.view(), final(self).blog(blog_id).score as int))
                    &&& ledger_reverse(old(self).reputation_ledger.view(), old(self).reputation_of(owner) as int,
                        0, u32::MAX as int, k)
                        == Ok::<(Map<LedgerKey, i16>, int), Error>(
                            (final(self).reputation_ledger.view(), final(self).reputation_of(owner) as int))
                    &&& final(self).events@ == old(self).events@.push(Event::BlogUnfollowed(who, blog_id)).push(
                        Event::AccountReputationChanged(owner, ScoringAction::FollowBlog, final(self).reputation_of(owner)))
                    &&& final(self).posts == old(self).posts
                    &&& final(self).comments == old(self).comments
                    &&& final(self).reactions == old(self).reactions
                    &&& final(self).config == old(self).config
                },
            },
    {
        if blog_id == 0 || blog_id > self.blogs.len() as u64 {
            return Err(Error::NotFound(Entity::Blog));
        }
        let b = (blog_id - 1) as usize;
        let jf = match vec_position(&self.blog_followers[b], who) {
            Some(j) => j,
            None => {
                return Err(Error::Conflict(ConflictReason::NotFollowing));
            },
        };
        let key = LedgerKey { actor: who, target: blog_id, action: ScoringAction::FollowBlog };
        if self.score_ledger.get(key).is_none() || self.reputation_ledger.get(key).is_none() {
            return Err(Error::LedgerConflict(LedgerFault::NotApplied));
        }
        let ghost old_self = *self;
        assert(self.blog_followers@[b as int]@.contains(who));
        let owner = self.blogs[b].created.account;
        let kw = self.ensure_account(who);
        let ghost mid1 = *self;
        let ko = self.ensure_account(owner);
        assert(self.accounts@[kw as int].account == who);
        proof {
            old_self.lemma_account_index(kw as int);
        }
        let ghost pre = *self;
        assert(pre.accounts@[kw as int].followed_blogs@.contains(blog_id));
        let jb = match vec_position(&self.accounts[kw].followed_blogs, blog_id) {
            Some(j) => j,
            None => {
                proof {
                    assert(false);
                }
                return Err(Error::Conflict(ConflictReason::NotFollowing));
            },
        };
        let score = match self.score_ledger.reverse_i32(self.blogs[b].score, key) {
            Ok(s) => s,
            Err(e) => {
                proof {
                    assert(false);
                }
                return Err(e);
            },
        };
        let rep = match self.reputation_ledger.reverse_u32(self.accounts[ko].social.reputation, key) {
            Ok(v) => v,
            Err(e) => {
                proof {
                    assert(false);
                }
                return Err(e);
            },
        };
        self.blog_followers[b].remove(jf);
        self.blogs[b].followers_count = self.blogs[b].followers_count - 1;
        self.blogs[b].score = score;
        self.accounts[kw].followed_blogs.remove(jb);
        self.accounts[kw].social.following_blogs_count = self.accounts[kw].social.following_blogs_count - 1;
        self.accounts[ko].social.reputation = rep;
        self.events.push(Event::BlogUnfollowed(who, blog_id));
        self.events.push(Event::AccountReputationChanged(owner, ScoringAction::FollowBlog, rep));
        proof {
            let n = self.accounts@.len();
            let fs = pre.blog_followers@[b as int]@;
            let bs = pre.accounts@[kw as int].followed_blogs@;
            lemma_same_keys(*self, pre);
            assert forall|k: int| 0 <= k < n && k != kw && k != ko implies #[trigger] self.accounts@[k] == pre.accounts@[k] by {}
            assert(fs.no_duplicates());
            assert(Module::record_wf(pre.accounts@[kw as int]));
            lemma_remove_contains(fs, jf as int, who);
            lemma_remove_contains(bs, jb as int, blog_id);
            assert forall|k1: int, k2: int|
                0 <= k1 < n && 0 <= k2 < n && k1 != k2
                    implies #[trigger] self.accounts@[k1].account != #[trigger] self.accounts@[k2].account by {
                assert(pre.accounts@[k1].account != pre.accounts@[k2].account);
            }
            assert forall|k: int| 0 <= k < n implies Module::record_wf(#[trigger] self.accounts@[k]) by {
                assert(Module::record_wf(pre.accounts@[k]));
            }
            assert forall|i: int, k: int|
                0 <= i < self.blogs@.len() && 0 <= k < n implies (
                (#[trigger] self.blog_followers@[i])@.contains((#[trigger] self.accounts@[k]).account)
                    <==> self.accounts@[k].followed_blogs@.contains((i + 1) as u64)) by {
                assert(pre.blog_followers@[i]@.contains(pre.accounts@[k].account)
                    <==> pre.accounts@[k].followed_blogs@.contains((i + 1) as u64));
                lemma_remove_contains(fs, jf as int, self.accounts@[k].account);
                lemma_remove_contains(bs, jb as int, (i + 1) as u64);
                if k != kw {
                    assert(pre.accounts@[k].account != who);
                }
            }
            assert forall|i: int, x: u64|
                0 <= i < self.blogs@.len() && #[trigger] self.blog_followers@[i]@.contains(x)
                    implies self.has_account(x) by {
                lemma_remove_contains(fs, jf as int, x);
                assert(pre.blog_followers@[i]@.contains(x));
            }
            assert forall|k: int, bb: u64|
                0 <= k < n && #[trigger] self.accounts@[k].followed_blogs@.contains(bb)
                    implies 1 <= bb <= self.blogs@.len() by {
                lemma_remove_contains(bs, jb as int, bb);
                assert(pre.accounts@[k].followed_blogs@.contains(bb));
            }
            assert forall|k1: int, k2: int|
                0 <= k1 < n && 0 <= k2 < n implies (
                (#[trigger] self.accounts@[k2]).followers@.contains((#[trigger] self.accounts@[k1]).account)
                    <==> self.accounts@[k1].followed_accounts@.contains(self.accounts@[k2].account)) by {
                assert(pre.accounts@[k2].followers@.contains(pre.accounts@[k1].account)
                    <==> pre.accounts@[k1].followed_accounts@.contains(pre.accounts@[k2].account));
            }
            assert forall|k: int, x: u64|
                0 <= k < n && #[trigger] self.accounts@[k].followers@.contains(x) implies self.has_account(x) by {
                assert(pre.accounts@[k].followers@.contains(x));
            }
            assert forall|k: int, x: u64|
                0 <= k < n && #[trigger] self.accounts@[k].followed_accounts@.contains(x) implies self.has_account(x) by {
                assert(pre.accounts@[k].followed_accounts@.contains(x));
            }
            assert forall|i: int| 0 <= i < self.blogs@.len() implies #[trigger] self.blogs@[i].id == i + 1 by {
                assert(pre.blogs@[i].id == i + 1);
            }
            assert forall|i: int| 0 <= i < self.blogs@.len() implies #[trigger] self.blogs@[i].followers_count
                == self.blog_followers@[i]@.len() by {
                assert(pre.blogs@[i].followers_count == pre.blog_followers@[i]@.len());
            }
            assert forall|i: int| 0 <= i < self.blogs@.len() implies (#[trigger] self.blog_followers@[i])@.no_duplicates() by {
                assert(pre.blog_followers@[i]@.no_duplicates());
            }
            assert forall|i: int, j: int|
                0 <= i < self.blogs@.len() && 0 <= j < self.blogs@.len() && i != j
                    implies #[trigger] self.blogs@[i].slug@ != #[trigger] self.blogs@[j].slug@ by {
                assert(pre.blogs@[i].slug@ != pre.blogs@[j].slug@);
            }
            self.lemma_account_index(kw as int);
            self.lemma_account_index(ko as int);
            if old_self.has_account(owner) {
                old_self.lemma_account_index(old_self.account_index(owner));
            }
            assert(self.blog_followers@[b as int]@ == fs.remove(jf as int));
            assert(self.accounts@[kw as int].followed_blogs@ == bs.remove(jb as int));
            assert(old_self.followers_of_blog(blog_id) == fs);
            assert(old_self.followers_of_blog(blog_id)[jf as int] == who);
            assert(self.followers_of_blog(blog_id) == old_self.followers_of_blog(blog_id).remove(jf as int));
            assert(old_self.has_account(who));
            assert(old_self.blogs_followed_by(who) == bs);
            assert(self.blogs_followed_by(who) == bs.remove(jb as int));
            assert(old_self.blogs_followed_by(who)[jb as int] == blog_id);
            pre.lemma_account_index(kw as int);
            pre.lemma_account_index(ko as int);
            assert(self.accounts_framed(pre, who, owner));
            assert(self.profiles_kept(pre));
            assert(mid1.accounts_framed(old_self, who, owner));
            lemma_frame_trans(old_self, mid1, pre, who, owner);
            lemma_frame_trans(old_self, pre, *self, who, owner);
            assert(mid1.follows_kept(old_self, who) && pre.follows_kept(mid1, who));
            assert(mid1.follows_kept(old_self, owner) && pre.follows_kept(mid1, owner));
            assert(mid1.reputation_of(who) == old_self.reputation_of(who) && pre.reputation_of(who) == mid1.reputation_of(who));
        }
        Ok(())
    }

    pub open spec fn follow_account_error(&self, who: u64, target: u64) -> Option<Error> {
        if self.followers_of_account(target).contains(who) {
            Some(Error::Conflict(ConflictReason::AlreadyFollowing))
        } else if self.followers_of_account(target).len() >= u32::MAX
            || self.accounts_followed_by(who).len() >= u16::MAX {
            Some(Error::Conflict(ConflictReason::CounterOverflow))
        } else if self.reputation_ledger.view().contains_key(follow_account_key(who, target)) {
            Some(Error::LedgerConflict(LedgerFault::AlreadyApplied))
        } else {
            None
        }
    }

    /// `who` starts following account `target`: both adjacency lists and
    /// both counters move together, and `target` is credited once.
    #[verifier::rlimit(60)]
    pub fn follow_account(&mut self, who: u64, target: u64) -> (r: Result<(), Error>)
        requires
            old(self).wf(),
        ensures
            final(self).wf(),
            match old(self).follow_account_error(who, target) {
                Some(e) => r == Err::<(), Error>(e) && *final(self) == *old(self),
                None => {
                    let k = follow_account_key(who, target);
                    let w = old(self).config.weight_of(ScoringAction::FollowAccount);
                    &&& r == Ok::<(), Error>(())
                    &&& final(self).same_settings(*old(self))
                    &&& final(self).accounts_framed(*old(self), who, target)
                    &&& final(self).profiles_kept(*old(self))
                    &&& who != target ==> final(self).reputation_of(who) == old(self).reputation_of(who)
                    &&& final(self).blogs_followed_by(who) == old(self).blogs_followed_by(who)
                    &&& final(self).blogs_followed_by(target) == old(self).blogs_followed_by(target)
                    &&& who != target ==> final(self).followers_of_account(who) == old(self).followers_of_account(who)
                    &&& who != target ==> final(self).accounts_followed_by(target) == old(self).accounts_followed_by(target)
                    &&& final(self).same_links(*old(self))
                    &&& final(self).followers_of_account(target) == old(self).followers_of_account(target).push(who)
                    &&& final(self).accounts_followed_by(who) == old(self).accounts_followed_by(who).push(target)
                    &&& final(self).account(target).social.followers_count
                        == final(self).followers_of_account(target).len()
                    &&& final(self).account(who).social.following_accounts_count
                        == final(self).accounts_followed_by(who).len()
                    &&& ledger_apply(old(self).reputation_ledger.view(), old(self).reputation_of(target) as int,
                        0, u32::MAX as int, k, w)
                        == Ok::<(Map<LedgerKey, i16>, int), Error>(
                            (final(self).reputation_ledger.view(), final(self).reputation_of(target) as int))
                    &&& final(self).events@ == old(self).events@.push(Event::AccountFollowed(who, target)).push(
                        Event::AccountReputationChanged(target, ScoringAction::FollowAccount,
                            final(self).reputation_of(target)))
                    &&& final(self).blogs == old(self).blogs
                    &&& final(self).blog_followers == old(self).blog_followers
                    &&& final(self).posts == old(self).posts
                    &&& final(self).comments == old(self).comments
                    &&& final(self).reactions == old(self).reactions
                    &&& final(self).score_ledger == old(self).score_ledger
                    &&& final(self).config == old(self).config
                },
            },
    {
        let (followers, already): (u32, bool) = match self.find_account(target) {
            Some(k) => (self.accounts[k].social.followers_count, vec_contains(&self.accounts[k].followers, who)),
            None => (0, false),
        };
        if already {
            return Err(Error::Conflict(ConflictReason::AlreadyFollowing));
        }
        let following: u16 = match self.find_account(who) {
            Some(k) => self.accounts[k].social.following_accounts_count,
            None => 0,
        };
        if followers == u32::MAX || following == u16::MAX {
            return Err(Error::Conflict(ConflictReason::CounterOverflow));
        }
        let key = LedgerKey { actor: who, target, action: ScoringAction::FollowAccount };
        if self.reputation_ledger.get(key).is_some() {
            return Err(Error::LedgerConflict(LedgerFault::AlreadyApplied));
        }
        let ghost old_self = *self;
        let kw = self.ensure_account(who);
        let kt = self.ensure_account(target);
        assert(self.accounts@[kw as int].account == who);
        proof {
            if old_self.has_account(who) {
                old_self.lemma_account_index(old_self.account_index(who));
            }
            if old_self.has_account(target) {
                old_self.lemma_account_index(old_self.account_index(target));
            }
        }
        let ghost pre = *self;
        let w = self.config.weight(ScoringAction::FollowAccount);
        let rep = match self.reputation_ledger.apply_u32(self.accounts[kt].social.reputation, key, w) {
            Ok(v) => v,
            Err(e) => {
                proof {
                    assert(false);
                }
                return Err(e);
            },
        };
        self.accounts[kt].followers.push(who);
        self.accounts[kt].social.followers_count = self.accounts[kt].social.followers_count + 1;
        self.accounts[kt].social.reputation = rep;
        self.accounts[kw].followed_accounts.push(target);
        self.accounts[kw].social.following_accounts_count = self.accounts[kw].social.following_accounts_count + 1;
        self.events.push(Event::AccountFollowed(who, target));
        self.events.push(Event::AccountReputationChanged(target, ScoringAction::FollowAccount, rep));
        proof {
            let n = self.accounts@.len();
            let fs = pre.accounts@[kt as int].followers@;
            let ts = pre.accounts@[kw as int].followed_accounts@;
            lemma_same_keys(*self, pre);
            assert forall|k: int| 0 <= k < n && k != kw && k != kt implies #[trigger] self.accounts@[k] == pre.accounts@[k] by {}
            assert(Module::record_wf(pre.accounts@[kt as int]));
            assert(Module::record_wf(pre.accounts@[kw as int]));
            assert(!fs.contains(who));
            assert(!ts.contains(target));
            lemma_push_no_dup(fs, who);
            lemma_push_no_dup(ts, target);
            assert forall|k1: int, k2: int|
                0 <= k1 < n && 0 <= k2 < n && k1 != k2
                    implies #[trigger] self.accounts@[k1].account != #[trigger] self.accounts@[k2].account by {
                assert(pre.accounts@[k1].account != pre.accounts@[k2].account);
            }
            assert forall|k: int| 0 <= k < n implies Module::record_wf(#[trigger] self.accounts@[k]) by {
                assert(Module::record_wf(pre.accounts@[k]));
            }
            assert forall|i: int, k: int|
                0 <= i < self.blogs@.len() && 0 <= k < n implies (
                (#[trigger] self.blog_followers@[i])@.contains((#[trigger] self.accounts@[k]).account)
                    <==> self.accounts@[k].followed_blogs@.contains((i + 1) as u64)) by {
                assert(pre.blog_followers@[i]@.contains(pre.accounts@[k].account)
                    <==> pre.accounts@[k].followed_blogs@.contains((i + 1) as u64));
            }
            assert forall|i: int, x: u64|
                0 <= i < self.blogs@.len() && #[trigger] self.blog_followers@[i]@.contains(x)
                    implies self.has_account(x) by {
                assert(pre.blog_followers@[i]@.contains(x));
            }
            assert forall|k: int, bb: u64|
                0 <= k < n && #[trigger] self.accounts@[k].followed_blogs@.contains(bb)
                    implies 1 <= bb <= self.blogs@.len() by {
                assert(pre.accounts@[k].followed_blogs@.contains(bb));
            }
            assert forall|k1: int, k2: int|
                0 <= k1 < n && 0 <= k2 < n implies (
                (#[trigger] self.accounts@[k2]).followers@.contains((#[trigger] self.accounts@[k1]).account)
                    <==> self.accounts@[k1].followed_accounts@.contains(self.accounts@[k2].account)) by {
                assert(pre.accounts@[k2].followers@.contains(pre.accounts@[k1].account)
                    <==> pre.accounts@[k1].followed_accounts@.contains(pre.accounts@[k2].account));
                lemma_push_contains(fs, who, self.accounts@[k1].account);
                lemma_push_contains(ts, target, self.accounts@[k2].account);
                if k1 != kw {
                    assert(pre.accounts@[k1].account != who);
                }
                if k2 != kt {
                    assert(pre.accounts@[k2].account != target);
                }
            }
            assert forall|k: int, x: u64|
                0 <= k < n && #[trigger] self.accounts@[k].followers@.contains(x) implies self.has_account(x) by {
                lemma_push_contains(fs, who, x);
                if k != kt || x != who {
                    assert(pre.accounts@[k].followers@.contains(x));
                }
            }
            assert forall|k: int, x: u64|
                0 <= k < n && #[trigger] self.accounts@[k].followed_accounts@.contains(x) implies self.has_account(x) by {
                lemma_push_contains(ts, target, x);
                if k != kw || x != target {
                    assert(pre.accounts@[k].followed_accounts@.contains(x));
                }
            }
            self.lemma_account_index(kw as int);
            self.lemma_account_index(kt as int);
            assert(old_self.followers_of_account(target) == fs);
            assert(old_self.accounts_followed_by(who) == ts);
        }
        Ok(())
    }

    pub open spec fn unfollow_account_error(&self, who: u64, target: u64) -> Option<Error> {
        if !self.followers_of_account(target).contains(who) {
            Some(Error::Conflict(ConflictReason::NotFollowing))
        } else if !self.reputation_ledger.view().contains_key(follow_account_key(who, target)) {
            Some(Error::LedgerConflict(LedgerFault::NotApplied))
        } else {
            None
        }
    }

    /// `who` stops following account `target`: the exact inverse of
    /// `follow_account`, taking back the credit that the follow gave.
    pub fn unfollow_account(&mut self, who: u64, target: u64) -> (r: Result<(), Error>)
        requires
            old(self).wf(),
        ensures
            final(self).wf(),
            match old(self).unfollow_account_error(who, target) {
                Some(e) => r == Err::<(), Error>(e) && *final(self) == *old(self),
                None => {
                    let k = follow_account_key(who, target);
                    &&& r == Ok::<(), Error>(())
                    &&& final(self).same_settings(*old(self))
                    &&& final(self).accounts_framed(*old(self), who, target)
                    &&& final(self).profiles_kept(*old(self))
                    &&& who != target ==> final(self).reputation_of(who) == old(self).reputation_of(who)
                    &&& final(self).blogs_followed_by(who) == old(self).blogs_followed_by(who)
                    &&& final(self).blogs_followed_by(target) == old(self).blogs_followed_by(target)
                    &&& who != target ==> final(self).followers_of_account(who) == old(self).followers_of_account(who)
                    &&& who != target ==> final(self).accounts_followed_by(target) == old(self).accounts_followed_by(target)
                    &&& final(self).same_links(*old(self))
                    &&& exists|j: int| 0 <= j < old(self).followers_of_account(target).len()
                        && old(self).followers_of_account(target)[j] == who
                        && final(self).followers_of_account(target) == old(self).followers_of_account(target).remove(j)
                    &&& exists|j: int| 0 <= j < old(self).accounts_followed_by(who).len()
                        && old(self).accounts_followed_by(who)[j] == target
                        && final(self).accounts_followed_by(who) == old(self).accounts_followed_by(who).remove(j)
                    &&& !final(self).followers_of_account(target).contains(who)
                    &&& final(self).account(target).social.followers_count
                        == final(self).followers_of_account(target).len()
                    &&& final(self).account(who).social.following_accounts_count
                        == final(self).accounts_followed_by(who).len()
                    &&& ledger_reverse(old(self).reputation_ledger.view(), old(self).reputation_of(target) as int,
                        0, u32::MAX as int, k)
                        == Ok::<(Map<LedgerKey, i16>, int), Error>(
                            (final(self).reputation_ledger.view(), final(self).reputation_of(target) as int))
                    &&& final(self).events@ == old(self).events@.push(Event::AccountUnfollowed(who, target)).push(
                        Event::AccountReputationChanged(target, ScoringAction::FollowAccount,
                            final(self).reputation_of(target)))
                    &&& final(self).blogs == old(self).blogs
                    &&& final(self).blog_followers == old(self).blog_followers
                    &&& final(self).posts == old(self).posts
                    &&& final(self).comments == old(self).comments
                    &&& final(self).reactions == old(self).reactions
                    &&& final(self).score_ledger == old(self).score_ledger
                    &&& final(self).config == old(self).config
                },
            },
    {
        let kt = match self.find_account(target) {
            Some(k) => k,
            None => {
                return Err(Error::Conflict(ConflictReason::NotFollowing));
            },
        };
        let jf = match vec_position(&self.accounts[kt].followers, who) {
            Some(j) => j,
            None => {
                return Err(Error::Conflict(ConflictReason::NotFollowing));
            },
        };
        let key = LedgerKey { actor: who, target, action: ScoringAction::FollowAccount };
        if self.reputation_ledger.get(key).is_none() {
            return Err(Error::LedgerConflict(LedgerFault::NotApplied));
        }
        let ghost pre = *self;
        assert(pre.accounts@[kt as int].followers@.contains(who));
        assert(pre.has_account(who));
        let kw = match self.find_account(who) {
            Some(k) => k,
            None => {
                proof {
                    assert(false);
                }
                return Err(Error::Conflict(ConflictReason::NotFollowing));
            },
        };
        assert(pre.accounts@[kw as int].followed_accounts@.contains(target));
        let jt = match vec_position(&self.accounts[kw].followed_accounts, target) {
            Some(j) => j,
            None => {
                proof {
                    assert(false);
                }
                return Err(Error::Conflict(ConflictReason::NotFollowing));
            },
        };
        let rep = match self.reputation_ledger.reverse_u32(self.accounts[kt].social.reputation, key) {
            Ok(v) => v,
            Err(e) => {
                proof {
                    assert(false);
                }
                return Err(e);
            },
        };
        self.accounts[kt].followers.remove(jf);
        self.accounts[kt].social.followers_count = self.accounts[kt].social.followers_count - 1;
        self.accounts[kt].social.reputation = rep;
        self.accounts[kw].followed_accounts.remove(jt);
        self.accounts[kw].social.following_accounts_count = self.accounts[kw].social.following_accounts_count - 1;
        self.events.push(Event::AccountUnfollowed(who, target));
        self.events.push(Event::AccountReputationChanged(target, ScoringAction::FollowAccount, rep));
        proof {
            let n = self.accounts@.len();
            let fs = pre.accounts@[kt as int].followers@;
            let ts = pre.accounts@[kw as int].followed_accounts@;
            lemma_same_keys(*self, pre);
            assert forall|k: int| 0 <= k < n && k != kw && k != kt implies #[trigger] self.accounts@[k] == pre.accounts@[k] by {}
            assert(Module::record_wf(pre.accounts@[kt as int]));
            assert(Module::record_wf(pre.accounts@[kw as int]));
            lemma_remove_contains(fs, jf as int, who);
            lemma_remove_contains(ts, jt as int, target);
            assert forall|k1: int, k2: int|
                0 <= k1 < n && 0 <= k2 < n && k1 != k2
                    implies #[trigger] self.accounts@[k1].account != #[trigger] self.accounts@[k2].account by {
                assert(pre.accounts@[k1].account != pre.accounts@[k2].account);
            }
            assert forall|k: int| 0 <= k < n implies Module::record_wf(#[trigger] self.accounts@[k]) by {
                assert(Module::record_wf(pre.accounts@[k]));
            }
            assert forall|i: int, k: int|
                0 <= i < self.blogs@.len() && 0 <= k < n implies (
                (#[trigger] self.blog_followers@[i])@.contains((#[trigger] self.accounts@[k]).account)
                    <==> self.accounts@[k].followed_blogs@.contains((i + 1) as u64)) by {
                assert(pre.blog_followers@[i]@.contains(pre.accounts@[k].account)
                    <==> pre.accounts@[k].followed_blogs@.contains((i + 1) as u64));
            }
            assert forall|i: int, x: u64|
                0 <= i < self.blogs@.len() && #[trigger] self.blog_followers@[i]@.contains(x)
                    implies self.has_account(x) by {
                assert(pre.blog_followers@[i]@.contains(x));
            }
            assert forall|k: int, bb: u64|
                0 <= k < n && #[trigger] self.accounts@[k].followed_blogs@.contains(bb)
                    implies 1 <= bb <= self.blogs@.len() by {
                assert(pre.accounts@[k].followed_blogs@.contains(bb));
            }
            assert forall|k1: int, k2: int|
                0 <= k1 < n && 0 <= k2 < n implies (
                (#[trigger] self.accounts@[k2]).followers@.contains((#[trigger] self.accounts@[k1]).account)
                    <==> self.accounts@[k1].followed_accounts@.contains(self.accounts@[k2].account)) by {
                assert(pre.accounts@[k2].followers@.contains(pre.accounts@[k1].account)
                    <==> pre.accounts@[k1].followed_accounts@.contains(pre.accounts@[k2].account));
                lemma_remove_contains(fs, jf as int, self.accounts@[k1].account);
                lemma_remove_contains(ts, jt as int, self.accounts@[k2].account);
                if k1 != kw {
                    assert(pre.accounts@[k1].account != who);
                }
                if k2 != kt {
                    assert(pre.accounts@[k2].account != target);
                }
            }
            assert forall|k: int, x: u64|
                0 <= k < n && #[trigger] self.accounts@[k].followers@.contains(x) implies self.has_account(x) by {
                lemma_remove_contains(fs, jf as int, x);
                assert(pre.accounts@[k].followers@.contains(x));
            }
            assert forall|k: int, x: u64|
                0 <= k < n && #[trigger] self.accounts@[k].followed_accounts@.contains(x) implies self.has_account(x) by {
                lemma_remove_contains(ts, jt as int, x);
                assert(pre.accounts@[k].followed_accounts@.contains(x));
            }
            self.lemma_account_index(kw as int);
            self.lemma_account_index(kt as int);
            assert(pre.followers_of_account(target) == fs);
            assert(pre.accounts_followed_by(who) == ts);
            assert(self.followers_of_account(target) == fs.remove(jf as int));
            assert(self.accounts_followed_by(who) == ts.remove(jt as int));
        }
        Ok(())
    }

    /// The accounts that follow blog `blog_id`, in order of following.
    pub fn blog_followers(&self, blog_id: u64) -> (r: Vec<u64>)
        requires
            self.wf(),
        ensures
            r@ == (if self.has_blog(blog_id) { self.followers_of_blog(blog_id) } else { Seq::empty() }),
    {
        if blog_id == 0 || blog_id > self.blog_followers.len() as u64 {
            return Vec::new();
        }
        copy_ids(&self.blog_followers[(blog_id - 1) as usize])
    }

    /// Whether `a` follows blog `blog_id`.
    pub fn blog_followed_by_account(&self, a: u64, blog_id: u64) -> (r: bool)
        requires
            self.wf(),
        ensures
            r == (self.has_blog(blog_id) && self.followers_of_blog(blog_id).contains(a)),
    {
        if blog_id == 0 || blog_id > self.blog_followers.len() as u64 {
            return false;
        }
        vec_contains(&self.blog_followers[(blog_id - 1) as usize], a)
    }

    /// The blogs that `a` follows, in order of following.
    pub fn blogs_followed_by_account(&self, a: u64) -> (r: Vec<u64>)
        requires
            self.wf(),
        ensures
            r@ == self.blogs_followed_by(a),
    {
        match self.find_account(a) {
            Some(k) => copy_ids(&self.accounts[k].followed_blogs),
            None => Vec::new(),
        }
    }

    /// The accounts that follow `a`, in order of following.
    pub fn account_followers(&self, a: u64) -> (r: Vec<u64>)
        requires
            self.wf(),
        ensures
            r@ == self.followers_of_account(a),
    {
        match self.find_account(a) {
            Some(k) => copy_ids(&self.accounts[k].followers),
            None => Vec::new(),
        }
    }

    /// The accounts that `a` follows, in order of following.
    pub fn accounts_followed_by_account(&self, a: u64) -> (r: Vec<u64>)
        requires
            self.wf(),
        ensures
            r@ == self.accounts_followed_by(a),
    {
        match self.find_account(a) {
            Some(k) => copy_ids(&self.accounts[k].followed_accounts),
            None => Vec::new(),
        }
    }

    /// Whether `a` follows account `b`.
    pub fn account_followed_by_account(&self, a: u64, b: u64) -> (r: bool)
        requires
            self.wf(),
        ensures
            r == self.followers_of_account(b).contains(a),
    {
        match self.find_account(b) {
            Some(k) => vec_contains(&self.accounts[k].followers, a),
            None => false,
        }
    }

    /// The reputation of `a`; zero for an account never seen.
    pub fn reputation(&self, a: u64) -> (r: u32)
        requires
            self.wf(),
        ensures
            r == self.reputation_of(a),
    {
        match self.find_account(a) {
            Some(k) => self.accounts[k].social.reputation,
            None => 0,
        }
    }
}

} // verus!
