use social_graph::config::{Config, DEFAULT_FOLLOW_ACCOUNT_ACTION_WEIGHT, DEFAULT_IPFS_HASH_LEN};
use social_graph::ledger::{LedgerKey, ScoreLedger};
use social_graph::types::{Error, LedgerFault, PostExtension, ReactionKind, ScoringAction};

fn key(actor: u64, target: u64, action: ScoringAction) -> LedgerKey {
    LedgerKey { actor, target, action }
}

#[test]
fn apply_twice_is_refused() {
    let mut l = ScoreLedger::new();
    let k = key(1, 2, ScoringAction::UpvotePost);
    let v = l.apply_i32(10, k, 5).unwrap();
    assert_eq!(v, 15);
    assert_eq!(l.apply_i32(v, k, 5), Err(Error::LedgerConflict(LedgerFault::AlreadyApplied)));
    assert_eq!(l.get(k), Some(5));
    let mut r = ScoreLedger::new();
    let rep = r.apply_u32(3, k, 4).unwrap();
    assert_eq!(r.apply_u32(rep, k, 4), Err(Error::LedgerConflict(LedgerFault::AlreadyApplied)));
    assert_eq!(rep, 7);
}

#[test]
fn reverse_restores_value() {
    let mut l = ScoreLedger::new();
    let k = key(1, 2, ScoringAction::DownvotePost);
    let v = l.apply_u32(2, k, -5).unwrap();
    assert_eq!(v, 0);
    assert_eq!(l.get(k), Some(-2));
    assert_eq!(l.reverse_u32(v, k), Ok(2));
    assert_eq!(l.get(k), None);
    let s = l.apply_i32(i32::MAX - 1, k, 7).unwrap();
    assert_eq!(s, i32::MAX);
    assert_eq!(l.reverse_i32(s, k), Ok(i32::MAX - 1));
    assert_eq!(l.records.len(), 0);
}

#[test]
fn reverse_without_apply_fails() {
    let mut l = ScoreLedger::new();
    let k = key(4, 5, ScoringAction::FollowBlog);
    assert_eq!(l.reverse_i32(3, k), Err(Error::LedgerConflict(LedgerFault::NotApplied)));
    assert_eq!(l.reverse_u32(3, k), Err(Error::LedgerConflict(LedgerFault::NotApplied)));
    l.apply_i32(0, key(4, 6, ScoringAction::FollowBlog), 1).unwrap();
    l.apply_i32(0, key(4, 7, ScoringAction::FollowBlog), 2).unwrap();
    assert_eq!(l.reverse_i32(10, key(4, 6, ScoringAction::FollowBlog)), Ok(9));
    assert_eq!(l.get(key(4, 7, ScoringAction::FollowBlog)), Some(2));
}

#[test]
fn defaults_and_weights() {
    let c = Config::default();
    assert_eq!(c.ipfs_hash_len, DEFAULT_IPFS_HASH_LEN);
    assert_eq!(c.weight(ScoringAction::FollowAccount), DEFAULT_FOLLOW_ACCOUNT_ACTION_WEIGHT);
    assert_eq!(c.weight(ScoringAction::UpvotePost), 5);
    assert_eq!(c.weight(ScoringAction::DownvoteComment), -2);
    assert_eq!(ScoringAction::default(), ScoringAction::FollowAccount);
    assert_eq!(ReactionKind::default(), ReactionKind::Upvote);
    assert_eq!(PostExtension::default(), PostExtension::RegularPost);
}
