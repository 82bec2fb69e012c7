use social_graph::config::Config;
use social_graph::entities::{CommentUpdate, ProfileUpdate};
use social_graph::store::Module;
use social_graph::types::{
    ConflictReason, Entity, Error, Field, PostExtension, ReactionKind, Reason,
};

const A: u64 = 1;
const B: u64 = 2;
const C: u64 = 3;

fn small_config() -> Config {
    let mut c = Config::default();
    c.slug_min_len = 1;
    c.ipfs_hash_len = 5;
    c
}

fn store() -> Module {
    Module::new(small_config())
}

fn blog_of(m: &mut Module, owner: u64, slug: &str) -> u64 {
    m.create_blog(owner, slug.as_bytes().to_vec(), b"Qm111".to_vec()).unwrap()
}

#[test]
fn end_to_end_scenario() {
    let mut m = store();
    let w = m.config;
    assert_eq!(m.create_blog(A, b"b1".to_vec(), b"Qm111".to_vec()), Ok(1));
    assert_eq!(m.next_blog_id, 2);

    assert_eq!(m.follow_blog(B, 1), Ok(()));
    assert_eq!(m.blog_followers(1), vec![B]);
    assert_eq!(m.blogs_followed_by_account(B), vec![1]);
    assert_eq!(m.follow_blog(B, 1), Err(Error::Conflict(ConflictReason::AlreadyFollowing)));

    assert_eq!(m.create_post(A, 1, b"Qm222".to_vec(), PostExtension::RegularPost), Ok(1));
    assert_eq!(m.post_ids_by_blog_id(1), vec![1]);

    let before = m.reputation(A) as i64;
    let reaction_id = m.create_post_reaction(C, 1, ReactionKind::Upvote).unwrap();
    let after_upvote = m.reputation(A) as i64;
    assert_eq!(after_upvote, before + w.upvote_post_action_weight as i64);

    assert_eq!(m.update_post_reaction(C, 1, reaction_id, ReactionKind::Downvote), Ok(()));
    let after_update = m.reputation(A) as i64;
    assert_eq!(
        after_update - after_upvote,
        w.downvote_post_action_weight as i64 - w.upvote_post_action_weight as i64
    );
    assert_eq!(m.reactions[0].kind, ReactionKind::Downvote);
    assert_eq!(m.posts[0].upvotes_count, 0);
    assert_eq!(m.posts[0].downvotes_count, 1);
}

#[test]
fn followers_count_tracks_follower_set() {
    let mut m = store();
    blog_of(&mut m, A, "one");
    blog_of(&mut m, A, "two");
    let steps: [(bool, u64, u64); 12] = [
        (true, 2, 1), (true, 3, 1), (true, 2, 2), (false, 2, 1), (true, 4, 1), (false, 3, 1),
        (true, 2, 1), (false, 2, 2), (true, 5, 2), (false, 4, 1), (true, 3, 2), (false, 2, 1),
    ];
    for (follow, who, blog) in steps {
        let r = if follow { m.follow_blog(who, blog) } else { m.unfollow_blog(who, blog) };
        assert_eq!(r, Ok(()));
        for id in 1..=2u64 {
            let followers = m.blog_followers(id);
            assert_eq!(m.blogs[(id - 1) as usize].followers_count as usize, followers.len());
            let mut sorted = followers.clone();
            sorted.sort();
            sorted.dedup();
            assert_eq!(sorted.len(), followers.len());
            for f in &followers {
                assert!(m.blogs_followed_by_account(*f).contains(&id));
            }
        }
    }
    assert_eq!(m.blog_followers(1), Vec::<u64>::new());
    assert_eq!(m.blog_followers(2), vec![5, 3]);
}

#[test]
fn unfollow_blog_restores_scores() {
    let mut m = store();
    blog_of(&mut m, A, "blog");
    assert_eq!(m.follow_blog(B, 1), Ok(()));
    assert_eq!(m.reputation(A), 7);
    assert_eq!(m.blogs[0].score, 7);
    assert_eq!(m.unfollow_blog(B, 1), Ok(()));
    assert_eq!(m.reputation(A), 0);
    assert_eq!(m.blogs[0].score, 0);
    assert_eq!(m.blogs[0].followers_count, 0);
    assert_eq!(m.unfollow_blog(B, 1), Err(Error::Conflict(ConflictReason::NotFollowing)));
    assert_eq!(m.follow_blog(B, 9), Err(Error::NotFound(Entity::Blog)));
}

#[test]
fn duplicate_slug_is_refused() {
    let mut m = store();
    assert_eq!(m.create_blog(A, b"same".to_vec(), b"Qm111".to_vec()), Ok(1));
    assert_eq!(
        m.create_blog(B, b"same".to_vec(), b"Qm222".to_vec()),
        Err(Error::Conflict(ConflictReason::SlugTaken))
    );
    assert_eq!(m.blog_id_by_slug(&b"same".to_vec()), Some(1));
    assert_eq!(m.next_blog_id, 2);
    assert_eq!(m.blogs.len(), 1);
}

#[test]
fn create_blog_validates_inputs() {
    let mut m = Module::new(Config::default());
    assert_eq!(
        m.create_blog(A, b"abc".to_vec(), vec![b'h'; 46]),
        Err(Error::ValidationFailed(Field::Slug, Reason::TooShort))
    );
    assert_eq!(
        m.create_blog(A, vec![b's'; 51], vec![b'h'; 46]),
        Err(Error::ValidationFailed(Field::Slug, Reason::TooLong))
    );
    assert_eq!(
        m.create_blog(A, b"slugs".to_vec(), vec![b'h'; 45]),
        Err(Error::ValidationFailed(Field::IpfsHash, Reason::WrongLength))
    );
    assert_eq!(m.create_blog(A, b"slugs".to_vec(), vec![b'h'; 46]), Ok(1));
    assert_eq!(m.next_blog_id, 2);
    assert_eq!(m.blog_id_by_slug(&b"other".to_vec()), None);
}

#[test]
fn create_post_checks_owner_and_extension() {
    let mut m = store();
    blog_of(&mut m, A, "blog");
    assert_eq!(
        m.create_post(B, 1, b"Qm222".to_vec(), PostExtension::RegularPost),
        Err(Error::Unauthorized)
    );
    assert_eq!(
        m.create_post(A, 2, b"Qm222".to_vec(), PostExtension::RegularPost),
        Err(Error::NotFound(Entity::Blog))
    );
    assert_eq!(
        m.create_post(A, 1, b"Qm222".to_vec(), PostExtension::SharedPost(1)),
        Err(Error::NotFound(Entity::Post))
    );
    assert_eq!(
        m.create_post(A, 1, b"Qm222".to_vec(), PostExtension::SharedComment(1)),
        Err(Error::NotFound(Entity::Comment))
    );
    assert_eq!(m.create_post(A, 1, b"Qm222".to_vec(), PostExtension::RegularPost), Ok(1));
    assert_eq!(m.create_post(A, 1, b"Qm333".to_vec(), PostExtension::SharedPost(1)), Ok(2));
    assert_eq!(m.blogs[0].posts_count, 2);
    assert_eq!(m.posts[1].extension, PostExtension::SharedPost(1));
    assert_eq!(m.post_ids_by_blog_id(1), vec![1, 2]);
    assert_eq!(m.post_ids_by_blog_id(2), Vec::<u64>::new());
}

#[test]
fn comment_history_replays_every_hash() {
    let mut m = store();
    blog_of(&mut m, A, "blog");
    m.create_post(A, 1, b"Qm222".to_vec(), PostExtension::RegularPost).unwrap();
    let id = m.create_comment(B, 1, None, b"h0000".to_vec()).unwrap();
    let hashes: Vec<Vec<u8>> = vec![b"h1111".to_vec(), b"h2222".to_vec(), b"h3333".to_vec(), b"h4444".to_vec()];
    for (n, h) in hashes.iter().enumerate() {
        m.set_clock(10 + n as u64, 100 + n as u64);
        assert_eq!(m.update_comment(B, id, CommentUpdate { ipfs_hash: h.clone() }), Ok(()));
    }
    let c = &m.comments[(id - 1) as usize];
    assert_eq!(c.edit_history.len(), hashes.len());
    assert_eq!(c.ipfs_hash, b"h4444".to_vec());
    let mut expected = vec![b"h0000".to_vec()];
    expected.extend(hashes[..3].iter().cloned());
    for (rec, old) in c.edit_history.iter().zip(expected.iter()) {
        assert_eq!(&rec.old_data.ipfs_hash, old);
        assert_eq!(rec.edited.account, B);
    }
    assert_eq!(c.edit_history[3].edited.block, 13);
    assert_eq!(c.updated.unwrap().time, 103);
}

#[test]
fn update_comment_checks_author_and_hash() {
    let mut m = store();
    blog_of(&mut m, A, "blog");
    m.create_post(A, 1, b"Qm222".to_vec(), PostExtension::RegularPost).unwrap();
    m.create_comment(B, 1, None, b"h0000".to_vec()).unwrap();
    assert_eq!(m.update_comment(C, 1, CommentUpdate { ipfs_hash: b"h1111".to_vec() }), Err(Error::Unauthorized));
    assert_eq!(
        m.update_comment(B, 1, CommentUpdate { ipfs_hash: b"h1".to_vec() }),
        Err(Error::ValidationFailed(Field::IpfsHash, Reason::WrongLength))
    );
    assert_eq!(
        m.update_comment(B, 2, CommentUpdate { ipfs_hash: b"h1111".to_vec() }),
        Err(Error::NotFound(Entity::Comment))
    );
    assert_eq!(m.comments[0].edit_history.len(), 0);
}

#[test]
fn comments_reply_and_score_once() {
    let mut m = store();
    blog_of(&mut m, A, "blog");
    m.create_post(A, 1, b"Qm222".to_vec(), PostExtension::RegularPost).unwrap();
    m.create_post(A, 1, b"Qm333".to_vec(), PostExtension::RegularPost).unwrap();
    assert_eq!(m.create_comment(B, 1, None, b"h0000".to_vec()), Ok(1));
    assert_eq!(m.reputation(A), 5);
    assert_eq!(m.posts[0].score, 5);
    assert_eq!(m.create_comment(B, 1, Some(1), b"h1111".to_vec()), Ok(2));
    assert_eq!(m.reputation(A), 5);
    assert_eq!(m.posts[0].comments_count, 2);
    assert_eq!(m.comments[0].direct_replies_count, 1);
    assert_eq!(m.comments[1].parent_id, Some(1));
    assert_eq!(m.create_comment(B, 2, Some(1), b"h2222".to_vec()), Err(Error::NotFound(Entity::Comment)));
    assert_eq!(m.create_comment(B, 3, None, b"h2222".to_vec()), Err(Error::NotFound(Entity::Post)));
    assert_eq!(m.next_comment_id, 3);
}

#[test]
fn follow_account_round_trip() {
    let mut m = store();
    assert_eq!(m.follow_account(B, A), Ok(()));
    assert_eq!(m.follow_account(B, A), Err(Error::Conflict(ConflictReason::AlreadyFollowing)));
    assert_eq!(m.follow_account(C, A), Ok(()));
    assert_eq!(m.account_followers(A), vec![B, C]);
    assert_eq!(m.accounts_followed_by_account(B), vec![A]);
    assert!(m.account_followed_by_account(B, A));
    assert!(!m.account_followed_by_account(A, B));
    assert_eq!(m.reputation(A), 6);
    assert_eq!(m.unfollow_account(B, A), Ok(()));
    assert_eq!(m.account_followers(A), vec![C]);
    assert_eq!(m.accounts_followed_by_account(B), Vec::<u64>::new());
    assert_eq!(m.reputation(A), 3);
    assert_eq!(m.unfollow_account(B, A), Err(Error::Conflict(ConflictReason::NotFollowing)));
    let k = m.accounts.iter().position(|r| r.account == A).unwrap();
    assert_eq!(m.accounts[k].social.followers_count, 1);
}

#[test]
fn reactions_are_unique_per_account() {
    let mut m = store();
    blog_of(&mut m, A, "blog");
    m.create_post(A, 1, b"Qm222".to_vec(), PostExtension::RegularPost).unwrap();
    assert_eq!(m.create_post_reaction(C, 1, ReactionKind::Upvote), Ok(1));
    assert_eq!(
        m.create_post_reaction(C, 1, ReactionKind::Downvote),
        Err(Error::Conflict(ConflictReason::ReactionExists))
    );
    assert_eq!(m.post_reaction_id_by_account(C, 1), Some(1));
    assert_eq!(
        m.update_post_reaction(C, 1, 1, ReactionKind::Upvote),
        Err(Error::Conflict(ConflictReason::SameReactionKind))
    );
    assert_eq!(m.update_post_reaction(B, 1, 1, ReactionKind::Downvote), Err(Error::Unauthorized));
    assert_eq!(m.delete_post_reaction(B, 1, 1), Err(Error::Unauthorized));
    assert_eq!(m.update_post_reaction(C, 1, 7, ReactionKind::Downvote), Err(Error::NotFound(Entity::Reaction)));
    assert_eq!(m.reactions[0].kind, ReactionKind::Upvote);
    assert_eq!(m.create_post_reaction(C, 2, ReactionKind::Upvote), Err(Error::NotFound(Entity::Post)));
}

#[test]
fn delete_post_reaction_reverses_scores() {
    let mut m = store();
    blog_of(&mut m, A, "blog");
    m.create_post(A, 1, b"Qm222".to_vec(), PostExtension::RegularPost).unwrap();
    m.follow_account(B, A).unwrap();
    let r = m.create_post_reaction(C, 1, ReactionKind::Downvote).unwrap();
    assert_eq!(m.reputation(A), 0);
    assert_eq!(m.posts[0].score, -3);
    assert_eq!(m.delete_post_reaction(C, 1, r), Ok(()));
    assert_eq!(m.reputation(A), 3);
    assert_eq!(m.posts[0].score, 0);
    assert_eq!(m.posts[0].downvotes_count, 0);
    assert_eq!(m.post_reaction_id_by_account(C, 1), None);
    assert_eq!(m.delete_post_reaction(C, 1, r), Err(Error::NotFound(Entity::Reaction)));
    assert_eq!(m.create_post_reaction(C, 1, ReactionKind::Upvote), Ok(2));
    assert_eq!(m.next_reaction_id, 3);
}

#[test]
fn comment_reactions_follow_the_same_rules() {
    let mut m = store();
    blog_of(&mut m, A, "blog");
    m.create_post(A, 1, b"Qm222".to_vec(), PostExtension::RegularPost).unwrap();
    m.create_comment(B, 1, None, b"h0000".to_vec()).unwrap();
    let r = m.create_comment_reaction(C, 1, ReactionKind::Upvote).unwrap();
    assert_eq!(m.reputation(B), 4);
    assert_eq!(m.comments[0].upvotes_count, 1);
    assert_eq!(
        m.create_comment_reaction(C, 1, ReactionKind::Upvote),
        Err(Error::Conflict(ConflictReason::ReactionExists))
    );
    assert_eq!(m.update_comment_reaction(C, 1, r, ReactionKind::Downvote), Ok(()));
    assert_eq!(m.reputation(B), 0);
    assert_eq!(m.comments[0].score, -2);
    assert_eq!(m.comment_reaction_id_by_account(C, 1), Some(r));
    assert_eq!(m.delete_comment_reaction(C, 1, r), Ok(()));
    assert_eq!(m.comments[0].score, 0);
    assert_eq!(m.comments[0].downvotes_count, 0);
    assert_eq!(m.comment_reaction_id_by_account(C, 1), None);
    assert_eq!(m.create_comment_reaction(C, 2, ReactionKind::Upvote), Err(Error::NotFound(Entity::Comment)));
}

#[test]
fn profiles_keep_usernames_unique() {
    let mut m = store();
    assert_eq!(m.create_profile(A, b"alice".to_vec(), b"Qm111".to_vec()), Ok(()));
    assert_eq!(
        m.create_profile(A, b"alice2".to_vec(), b"Qm111".to_vec()),
        Err(Error::Conflict(ConflictReason::ProfileExists))
    );
    assert_eq!(
        m.create_profile(B, b"alice".to_vec(), b"Qm111".to_vec()),
        Err(Error::Conflict(ConflictReason::UsernameTaken))
    );
    assert_eq!(
        m.create_profile(B, b"bo".to_vec(), b"Qm111".to_vec()),
        Err(Error::ValidationFailed(Field::Username, Reason::TooShort))
    );
    assert_eq!(m.create_profile(B, b"bob".to_vec(), b"Qm222".to_vec()), Ok(()));
    assert_eq!(m.account_by_profile_username(&b"alice".to_vec()), Some(A));
    assert_eq!(
        m.update_profile(B, ProfileUpdate { username: Some(b"alice".to_vec()), ipfs_hash: None }),
        Err(Error::Conflict(ConflictReason::UsernameTaken))
    );
    assert_eq!(
        m.update_profile(C, ProfileUpdate { username: None, ipfs_hash: None }),
        Err(Error::NotFound(Entity::Profile))
    );
    assert_eq!(
        m.update_profile(B, ProfileUpdate { username: Some(b"robert".to_vec()), ipfs_hash: None }),
        Ok(())
    );
    assert_eq!(m.account_by_profile_username(&b"bob".to_vec()), None);
    assert_eq!(m.account_by_profile_username(&b"robert".to_vec()), Some(B));
    let k = m.accounts.iter().position(|r| r.account == B).unwrap();
    let p = m.accounts[k].social.profile.as_ref().unwrap();
    assert_eq!(p.edit_history.len(), 1);
    assert_eq!(p.edit_history[0].old_data.username, Some(b"bob".to_vec()));
    assert_eq!(p.edit_history[0].old_data.ipfs_hash, None);
    assert_eq!(p.ipfs_hash, b"Qm222".to_vec());
}

#[test]
fn an_account_may_follow_itself() {
    let mut m = store();
    assert_eq!(m.follow_account(A, A), Ok(()));
    assert_eq!(m.account_followers(A), vec![A]);
    assert_eq!(m.accounts_followed_by_account(A), vec![A]);
    assert_eq!(m.reputation(A), 3);
    assert_eq!(m.follow_account(A, A), Err(Error::Conflict(ConflictReason::AlreadyFollowing)));
    assert_eq!(m.unfollow_account(A, A), Ok(()));
    assert_eq!(m.account_followers(A), Vec::<u64>::new());
    assert_eq!(m.reputation(A), 0);
}

#[test]
fn comment_reaction_of_another_account_is_unauthorized() {
    let mut m = store();
    blog_of(&mut m, A, "blog");
    m.create_post(A, 1, b"Qm222".to_vec(), PostExtension::RegularPost).unwrap();
    m.create_comment(B, 1, None, b"h0000".to_vec()).unwrap();
    let r = m.create_comment_reaction(C, 1, ReactionKind::Upvote).unwrap();
    assert_eq!(m.update_comment_reaction(A, 1, r, ReactionKind::Downvote), Err(Error::Unauthorized));
    assert_eq!(m.delete_comment_reaction(A, 1, r), Err(Error::Unauthorized));
    assert_eq!(m.delete_comment_reaction(C, 1, r + 1), Err(Error::NotFound(Entity::Reaction)));
    assert_eq!(m.comments[0].upvotes_count, 1);
}
