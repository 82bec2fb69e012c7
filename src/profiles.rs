use vstd::prelude::*;


use crate::entities::{Profile, ProfileHistoryRecord, ProfileUpdate};
use crate::store::{bytes_eq, copy_bytes, hash_error, username_error, Event, Module};
use crate::types::{Change, ConflictReason, Entity, Error, Field, Reason};

verus! {

impl Module {
    /// The profile of `a`, if it made one.
    pub open spec fn profile_of(&self, a: u64) -> Option<Profile> {
        if self.has_account(a) {
            self.account(a).social.profile
        } else {
            None
        }
    }

    /// Whether an account other than `except` holds username `u`.
    pub open spec fn username_taken_by_other(&self, u: Seq<u8>, except: u64) -> bool {
        exists|k: int|
            0 <= k < self.accounts@.len() && (#[trigger] self.accounts@[k]).account != except
                && self.accounts@[k].social.profile is Some
                && self.accounts@[k].social.profile->Some_0.username@ == u
    }

    /// Where the account whose profile holds username `u` stands, if one does.
    fn username_position(&self, u: &Vec<u8>) -> (r: Option<usize>)
        requires
            self.wf(),
        ensures
            match r {
                Some(k) => k < self.accounts@.len() && self.accounts@[k as int].social.profile is Some
                    && self.accounts@[k as int].social.profile->Some_0.username@ == u@,
                None => forall|k: int| 0 <= k < self.accounts@.len() && (#[trigger] self.accounts@[k]).social.profile is Some
                    ==> self.accounts@[k].social.profile->Some_0.username@ != u@,
            },
    {
        let mut i: usize = 0;
        while i < self.accounts.len()
            invariant
                self.wf(),
                i <= self.accounts@.len(),
                forall|k: int| 0 <= k < i && (#[trigger] self.accounts@[k]).social.profile is Some
                    ==> self.accounts@[k].social.profile->Some_0.username@ != u@,
            decreases self.accounts@.len() - i,
        {
            let same = match &self.accounts[i].social.profile {
                Some(p) => bytes_eq(&p.username, u),
                None => false,
            };
            if same {
                return Some(i);
            }
            i = i + 1;
        }
        None
    }

    /// The account whose profile holds username `u`, if one does.
    pub fn account_by_profile_username(&self, u: &Vec<u8>) -> (r: Option<u64>)
        requires
            self.wf(),
        ensures
            match r {
                Some(a) => self.profile_of(a) is Some && self.profile_of(a)->Some_0.username@ == u@,
                None => forall|x: u64| #[trigger] self.profile_of(x) is Some ==> self.profile_of(x)->Some_0.username@ != u@,
            },
    {
        match self.username_position(u) {
            Some(k) => {
                proof {
                    self.lemma_account_index(k as int);
                }
                Some(self.accounts[k].account)
            },
            None => {
                proof {
                    assert forall|x: u64| #[trigger] self.profile_of(x) is Some implies self.profile_of(x)->Some_0.username@ != u@ by {
                        let k = self.account_index(x);
                        assert(self.accounts@[k].social.profile is Some);
                    }
                }
                None
            },
        }
    }

    pub open spec fn create_profile_error(&self, who: u64, username: Seq<u8>, hash: Seq<u8>) -> Option<Error> {
        if username_error(self.config, username.len() as int) is Some {
            username_error(self.config, username.len() as int)
        } else if hash_error(self.config, hash.len() as int) is Some {
            hash_error(self.config, hash.len() as int)
        } else if self.profile_of(who) is Some {
            Some(Error::Conflict(ConflictReason::ProfileExists))
        } else if self.username_taken_by_other(username, who) {
            Some(Error::Conflict(ConflictReason::UsernameTaken))
        } else {
            None
        }
    }

    /// Gives `who` a profile under a username that no other profile holds.
    pub fn create_profile(&mut self, who: u64, username: Vec<u8>, ipfs_hash: Vec<u8>) -> (r: Result<(), Error>)
        requires
            old(self).wf(),
        ensures
            final(self).wf(),
            match old(self).create_profile_error(who, username@, ipfs_hash@) {
                Some(e) => r == Err::<(), Error>(e) && *final(self) == *old(self),
                None => {
                    let p = final(self).profile_of(who)->Some_0;
                    &&& r == Ok::<(), Error>(())
                    &&& final(self).same_settings(*old(self))
                    &&& final(self).accounts_framed(*old(self), who, who)
                    &&& final(self).follows_kept(*old(self), who)
                    &&& final(self).same_links(*old(self))
                    &&& final(self).profile_of(who) is Some
                    &&& p.created == old(self).stamp(who) && p.updated is None
                    &&& p.username@ == username@ && p.ipfs_hash@ == ipfs_hash@ && p.edit_history@.len() == 0
                    &&& final(self).reputation_of(who) == old(self).reputation_of(who)
                    &&& forall|x: u64| x != who ==> #[trigger] final(self).profile_of(x) == old(self).profile_of(x)
                    &&& final(self).events@ == old(self).events@.push(Event::ProfileCreated(who))
                    &&& final(self).blogs == old(self).blogs
                    &&& final(self).blog_followers == old(self).blog_followers
                    &&& final(self).posts == old(self).posts
                    &&& final(self).comments == old(self).comments
                    &&& final(self).reactions == old(self).reactions
                    &&& final(self).score_ledger == old(self).score_ledger
                    &&& final(self).reputation_ledger == old(self).reputation_ledger
                },
            },
    {
        if username.len() < self.config.username_min_len as usize {
            return Err(Error::ValidationFailed(Field::Username, Reason::TooShort));
        }
        if username.len() > self.config.username_max_len as usize {
            return Err(Error::ValidationFailed(Field::Username, Reason::TooLong));
        }
        if ipfs_hash.len() != self.config.ipfs_hash_len as usize {
            return Err(Error::ValidationFailed(Field::IpfsHash, Reason::WrongLength));
        }
        if let Some(k) = self.find_account(who) {
            if self.accounts[k].social.profile.is_some() {
                return Err(Error::Conflict(ConflictReason::ProfileExists));
            }
        }
        if let Some(k) = self.username_position(&username) {
            proof {
                if self.accounts@[k as int].account == who {
                    self.lemma_account_index(k as int);
                }
            }
            return Err(Error::Conflict(ConflictReason::UsernameTaken));
        }
        let ghost old_self = *self;
        let kw = self.ensure_account(who);
        proof {
            if old_self.has_account(who) {
                old_self.lemma_account_index(old_self.account_index(who));
            }
        }
        proof {
            if !old_self.has_account(who) && (kw as int) < old_self.accounts@.len() {
                assert(self.accounts@.take(old_self.accounts@.len() as int)[kw as int] == old_self.accounts@[kw as int]);
                assert(old_self.accounts@[kw as int].account == who);
            }
        }
        let ghost pre = *self;
        let stamp = Change { account: who, block: self.block, time: self.time };
        self.accounts[kw].social.profile = Some(Profile {
            created: stamp,
            updated: None,
            username,
            ipfs_hash,
            edit_history: Vec::new(),
        });
        self.events.push(Event::ProfileCreated(who));
        proof {
            Module::lemma_accounts_wf_graph_frame(pre, *self);
            self.lemma_account_index(kw as int);
            pre.lemma_account_index(kw as int);
            assert(self.accounts_framed(pre, who, who));
            assert(pre.follows_kept(old_self, who));
            assert forall|k: int| 0 <= k < old_self.accounts@.len() && old_self.accounts@[k].account != who
                implies #[trigger] self.accounts@[k] == old_self.accounts@[k] by {
                assert(pre.accounts@[k] == old_self.accounts@[k]);
            }
            assert forall|k: int| 0 <= k < self.accounts@.len() && k != kw implies
                #[trigger] self.accounts@[k] == pre.accounts@[k] by {}
            assert forall|x: u64| x != who implies #[trigger] self.profile_of(x) == old_self.profile_of(x) by {
                if old_self.has_account(x) {
                    let j = old_self.account_index(x);
                    old_self.lemma_account_index(j);
                    assert(pre.account(x) == old_self.account(x));
                    pre.lemma_account_index(pre.account_index(x));
                    self.lemma_account_index(pre.account_index(x));
                }
            }
            assert forall|k1: int, k2: int|
                0 <= k1 < self.accounts@.len() && 0 <= k2 < self.accounts@.len() && k1 != k2
                    && (#[trigger] self.accounts@[k1]).social.profile is Some
                    && (#[trigger] self.accounts@[k2]).social.profile is Some
                    implies self.accounts@[k1].social.profile->Some_0.username@
                        != self.accounts@[k2].social.profile->Some_0.username@ by {
                if k1 == kw || k2 == kw {
                    let other = if k1 == kw { k2 } else { k1 };
                    assert(self.accounts@[other] == pre.accounts@[other]);
                    assert(pre.accounts@[other] == old_self.accounts@[other]) by {
                        if !old_self.has_account(who) {
                            assert(pre.accounts@.take(old_self.accounts@.len() as int)[other]
                                == old_self.accounts@[other]);
                        }
                    }
                    assert(old_self.accounts@[other].social.profile is Some);
                } else {
                    assert(pre.profiles_wf());
                }
            }
        }
        Ok(())
    }

    pub open spec fn update_profile_error(&self, who: u64, update: ProfileUpdate) -> Option<Error> {
        if self.profile_of(who) is None {
            Some(Error::NotFound(Entity::Profile))
        } else if update.username is Some && username_error(self.config, update.username->Some_0@.len() as int) is Some {
            username_error(self.config, update.username->Some_0@.len() as int)
        } else if update.ipfs_hash is Some && hash_error(self.config, update.ipfs_hash->Some_0@.len() as int) is Some {
            hash_error(self.config, update.ipfs_hash->Some_0@.len() as int)
        } else if update.username is Some && self.username_taken_by_other(update.username->Some_0@, who) {
            Some(Error::Conflict(ConflictReason::UsernameTaken))
        } else {
            None
        }
    }

    /// `who` changes the fields given in `update`; the values they replace
    /// are appended to the profile's history, stamped with this edit.
    pub fn update_profile(&mut self, who: u64, update: ProfileUpdate) -> (r: Result<(), Error>)
        requires
            old(self).wf(),
        ensures
            final(self).wf(),
            match old(self).update_profile_error(who, update) {
                Some(e) => r == Err::<(), Error>(e) && *final(self) == *old(self),
                None => {
                    let o = old(self).profile_of(who)->Some_0;
                    let p = final(self).profile_of(who)->Some_0;
                    let rec = p.edit_history@.last();
                    &&& r == Ok::<(), Error>(())
                    &&& final(self).same_settings(*old(self))
                    &&& final(self).accounts_framed(*old(self), who, who)
                    &&& final(self).follows_kept(*old(self), who)
                    &&& final(self).same_links(*old(self))
                    &&& final(self).profile_of(who) is Some
                    &&& p.edit_history@.len() == o.edit_history@.len() + 1
                    &&& p.edit_history@.take(o.edit_history@.len() as int) == o.edit_history@
                    &&& rec.edited == old(self).stamp(who)
                    &&& (rec.old_data.username is Some <==> update.username is Some)
                    &&& (rec.old_data.username is Some ==> rec.old_data.username->Some_0@ == o.username@)
                    &&& (rec.old_data.ipfs_hash is Some <==> update.ipfs_hash is Some)
                    &&& (rec.old_data.ipfs_hash is Some ==> rec.old_data.ipfs_hash->Some_0@ == o.ipfs_hash@)
                    &&& p.username@ == (if update.username is Some { update.username->Some_0@ } else { o.username@ })
                    &&& p.ipfs_hash@ == (if update.ipfs_hash is Some { update.ipfs_hash->Some_0@ } else { o.ipfs_hash@ })
                    &&& p.created == o.created && p.updated == Some(old(self).stamp(who))
                    &&& final(self).reputation_of(who) == old(self).reputation_of(who)
                    &&& forall|x: u64| x != who ==> #[trigger] final(self).profile_of(x) == old(self).profile_of(x)
                    &&& final(self).events@ == old(self).events@.push(Event::ProfileUpdated(who))
                    &&& final(self).blogs == old(self).blogs
                    &&& final(self).blog_followers == old(self).blog_followers
                    &&& final(self).posts == old(self).posts
                    &&& final(self).comments == old(self).comments
                    &&& final(self).reactions == old(self).reactions
                    &&& final(self).score_ledger == old(self).score_ledger
                    &&& final(self).reputation_ledger == old(self).reputation_ledger
                },
            },
    {
        let kw = match self.find_account(who) {
            Some(k) => k,
            None => {
                return Err(Error::NotFound(Entity::Profile));
            },
        };
        if self.accounts[kw].social.profile.is_none() {
            return Err(Error::NotFound(Entity::Profile));
        }
        if let Some(u) = &update.username {
            if u.len() < self.config.username_min_len as usize {
                return Err(Error::ValidationFailed(Field::Username, Reason::TooShort));
            }
            if u.len() > self.config.username_max_len as usize {
                return Err(Error::ValidationFailed(Field::Username, Reason::TooLong));
            }
        }
        if let Some(h) = &update.ipfs_hash {
            if h.len() != self.config.ipfs_hash_len as usize {
                return Err(Error::ValidationFailed(Field::IpfsHash, Reason::WrongLength));
            }
        }
        if let Some(u) = &update.username {
            if let Some(k) = self.username_position(u) {
                if k != kw {
                    return Err(Error::Conflict(ConflictReason::UsernameTaken));
                }
            }
            proof {
                assert forall|k: int| 0 <= k < self.accounts@.len() && (#[trigger] self.accounts@[k]).account != who
                    && self.accounts@[k].social.profile is Some
                    implies self.accounts@[k].social.profile->Some_0.username@ != u@ by {
                    if k != kw {
                        assert(self.accounts@[kw as int].social.profile is Some);
                    }
                }
            }
        }
        let ghost pre = *self;
        let stamp = Change { account: who, block: self.block, time: self.time };
        let mut prof = match self.accounts[kw].social.profile.take() {
            Some(p) => p,
            None => {
                proof {
                    assert(false);
                }
                return Err(Error::NotFound(Entity::Profile));
            },
        };
        let ghost o = prof;
        let old_username = match &update.username {
            Some(_) => Some(copy_bytes(&prof.username)),
            None => None,
        };
        let old_hash = match &update.ipfs_hash {
            Some(_) => Some(copy_bytes(&prof.ipfs_hash)),
            None => None,
        };
        prof.edit_history.push(ProfileHistoryRecord {
            edited: stamp,
            old_data: ProfileUpdate { username: old_username, ipfs_hash: old_hash },
        });
        if let Some(u) = update.username {
            prof.username = u;
        }
        if let Some(h) = update.ipfs_hash {
            prof.ipfs_hash = h;
        }
        prof.updated = Some(stamp);
        self.accounts[kw].social.profile = Some(prof);
        self.events.push(Event::ProfileUpdated(who));
        proof {
            Module::lemma_accounts_wf_graph_frame(pre, *self);
            self.lemma_account_index(kw as int);
            pre.lemma_account_index(kw as int);
            assert(self.accounts_framed(pre, who, who));
            assert(prof.edit_history@.take(o.edit_history@.len() as int) =~= o.edit_history@);
            assert forall|k: int| 0 <= k < self.accounts@.len() && k != kw implies
                #[trigger] self.accounts@[k] == pre.accounts@[k] by {}
            assert forall|x: u64| x != who implies #[trigger] self.profile_of(x) == pre.profile_of(x) by {
                if pre.has_account(x) {
                    pre.lemma_account_index(pre.account_index(x));
                    self.lemma_account_index(pre.account_index(x));
                }
            }
            assert forall|k1: int, k2: int|
                0 <= k1 < self.accounts@.len() && 0 <= k2 < self.accounts@.len() && k1 != k2
                    && (#[trigger] self.accounts@[k1]).social.profile is Some
                    && (#[trigger] self.accounts@[k2]).social.profile is Some
                    implies self.accounts@[k1].social.profile->Some_0.username@
                        != self.accounts@[k2].social.profile->Some_0.username@ by {
                if k1 == kw {
                    assert(pre.accounts@[k2].account != who);
                    assert(pre.accounts@[k2] == self.accounts@[k2]);
                } else if k2 == kw {
                    assert(pre.accounts@[k1].account != who);
                    assert(pre.accounts@[k1] == self.accounts@[k1]);
                } else {
                    assert(pre.profiles_wf());
                }
            }
        }
        Ok(())
    }
}

} // verus!
