use social_graph::config::Config;
use social_graph::entities::{BlogUpdate, PostUpdate};
use social_graph::store::Module;
use social_graph::types::{ConflictReason, Entity, Error, Field, PostExtension, ReactionKind, Reason};

fn store() -> Module {
    let mut c = Config::default();
    c.slug_min_len = 1;
    c.ipfs_hash_len = 5;
    Module::new(c)
}

#[test]
fn update_blog_records_history_and_moves_slug() {
    let mut m = store();
    m.create_blog(1, b"first".to_vec(), b"Qm111".to_vec()).unwrap();
    m.create_blog(2, b"second".to_vec(), b"Qm222".to_vec()).unwrap();
    m.set_clock(4, 40);
    let upd = BlogUpdate { writers: Some(vec![5]), slug: Some(b"renamed".to_vec()), ipfs_hash: None };
    assert_eq!(m.update_blog(1, 1, upd), Ok(()));
    let b = &m.blogs[0];
    assert_eq!(b.slug, b"renamed".to_vec());
    assert_eq!(b.writers, vec![5]);
    assert_eq!(b.ipfs_hash, b"Qm111".to_vec());
    assert_eq!(b.edit_history.len(), 1);
    assert_eq!(b.edit_history[0].old_data.slug, Some(b"first".to_vec()));
    assert_eq!(b.edit_history[0].old_data.writers, Some(Vec::new()));
    assert_eq!(b.edit_history[0].old_data.ipfs_hash, None);
    assert_eq!(b.edit_history[0].edited.block, 4);
    assert_eq!(b.updated.unwrap().time, 40);
    assert_eq!(m.blog_id_by_slug(&b"renamed".to_vec()), Some(1));
    assert_eq!(m.blog_id_by_slug(&b"first".to_vec()), None);
}

#[test]
fn update_blog_refuses_taken_slug_and_strangers() {
    let mut m = store();
    m.create_blog(1, b"first".to_vec(), b"Qm111".to_vec()).unwrap();
    m.create_blog(2, b"second".to_vec(), b"Qm222".to_vec()).unwrap();
    let taken = BlogUpdate { writers: None, slug: Some(b"second".to_vec()), ipfs_hash: None };
    assert_eq!(m.update_blog(1, 1, taken), Err(Error::Conflict(ConflictReason::SlugTaken)));
    let same = BlogUpdate { writers: None, slug: Some(b"first".to_vec()), ipfs_hash: None };
    assert_eq!(m.update_blog(1, 1, same), Ok(()));
    let stranger = BlogUpdate { writers: None, slug: None, ipfs_hash: Some(b"Qm999".to_vec()) };
    assert_eq!(m.update_blog(3, 1, stranger), Err(Error::Unauthorized));
    let bad = BlogUpdate { writers: None, slug: None, ipfs_hash: Some(b"Q".to_vec()) };
    assert_eq!(m.update_blog(1, 1, bad), Err(Error::ValidationFailed(Field::IpfsHash, Reason::WrongLength)));
    let missing = BlogUpdate { writers: None, slug: None, ipfs_hash: None };
    assert_eq!(m.update_blog(1, 7, missing), Err(Error::NotFound(Entity::Blog)));
    assert_eq!(m.blogs[0].edit_history.len(), 1);
}

#[test]
fn writers_may_post_and_edit() {
    let mut m = store();
    m.create_blog(1, b"first".to_vec(), b"Qm111".to_vec()).unwrap();
    assert_eq!(m.create_post(9, 1, b"Qm222".to_vec(), PostExtension::RegularPost), Err(Error::Unauthorized));
    let add = BlogUpdate { writers: Some(vec![9]), slug: None, ipfs_hash: None };
    m.update_blog(1, 1, add).unwrap();
    assert_eq!(m.create_post(9, 1, b"Qm222".to_vec(), PostExtension::RegularPost), Ok(1));
    let edit = BlogUpdate { writers: None, slug: None, ipfs_hash: Some(b"Qm333".to_vec()) };
    assert_eq!(m.update_blog(9, 1, edit), Ok(()));
    assert_eq!(m.blogs[0].ipfs_hash, b"Qm333".to_vec());
}

#[test]
fn relationship_queries() {
    let mut m = store();
    m.create_blog(1, b"a".to_vec(), b"Qm111".to_vec()).unwrap();
    m.create_blog(2, b"b".to_vec(), b"Qm111".to_vec()).unwrap();
    m.create_blog(1, b"c".to_vec(), b"Qm111".to_vec()).unwrap();
    assert_eq!(m.blog_ids_by_owner(1), vec![1, 3]);
    assert_eq!(m.blog_ids_by_owner(2), vec![2]);
    m.create_post(1, 3, b"Qm222".to_vec(), PostExtension::RegularPost).unwrap();
    m.create_post(2, 2, b"Qm222".to_vec(), PostExtension::RegularPost).unwrap();
    assert_eq!(m.post_ids_by_blog_id(3), vec![1]);
    m.create_comment(5, 2, None, b"c0000".to_vec()).unwrap();
    m.create_comment(6, 1, None, b"c0000".to_vec()).unwrap();
    m.create_comment(6, 2, Some(1), b"c0000".to_vec()).unwrap();
    assert_eq!(m.comment_ids_by_post_id(2), vec![1, 3]);
    m.create_post_reaction(7, 2, ReactionKind::Upvote).unwrap();
    m.create_post_reaction(8, 2, ReactionKind::Upvote).unwrap();
    m.create_comment_reaction(7, 3, ReactionKind::Downvote).unwrap();
    assert_eq!(m.reaction_ids_by_post_id(2), vec![1, 2]);
    assert_eq!(m.reaction_ids_by_comment_id(3), vec![3]);
    m.delete_post_reaction(7, 2, 1).unwrap();
    assert_eq!(m.reaction_ids_by_post_id(2), vec![2]);
    assert!(m.blog_followed_by_account(4, 1) == false);
    m.follow_blog(4, 1).unwrap();
    assert!(m.blog_followed_by_account(4, 1));
    assert_eq!(m.events.len(), 21);
}

#[test]
fn shares_count_and_score_once() {
    let mut m = store();
    m.create_blog(1, b"a".to_vec(), b"Qm111".to_vec()).unwrap();
    m.create_blog(2, b"b".to_vec(), b"Qm111".to_vec()).unwrap();
    assert_eq!(m.create_post(1, 1, b"Qm222".to_vec(), PostExtension::RegularPost), Ok(1));
    assert_eq!(m.create_post(2, 2, b"Qm333".to_vec(), PostExtension::SharedPost(1)), Ok(2));
    assert_eq!(m.posts[0].shares_count, 1);
    assert_eq!(m.posts[0].score, 5);
    assert_eq!(m.reputation(1), 5);
    assert_eq!(m.create_post(2, 2, b"Qm444".to_vec(), PostExtension::SharedPost(1)), Ok(3));
    assert_eq!(m.posts[0].shares_count, 2);
    assert_eq!(m.posts[0].score, 5);
    assert_eq!(m.reputation(1), 5);
    m.create_comment(3, 1, None, b"c0000".to_vec()).unwrap();
    assert_eq!(m.create_post(2, 2, b"Qm555".to_vec(), PostExtension::SharedComment(1)), Ok(4));
    assert_eq!(m.comments[0].shares_count, 1);
    assert_eq!(m.comments[0].score, 3);
    assert_eq!(m.reputation(3), 3);
    assert_eq!(m.posts[3].extension, PostExtension::SharedComment(1));
    assert_eq!(m.blogs[1].posts_count, 3);
}

#[test]
fn update_post_moves_between_blogs() {
    let mut m = store();
    m.create_blog(1, b"a".to_vec(), b"Qm111".to_vec()).unwrap();
    m.create_blog(1, b"b".to_vec(), b"Qm111".to_vec()).unwrap();
    m.create_blog(2, b"c".to_vec(), b"Qm111".to_vec()).unwrap();
    m.create_post(1, 1, b"Qm222".to_vec(), PostExtension::RegularPost).unwrap();
    let mv = PostUpdate { blog_id: Some(2), ipfs_hash: Some(b"Qm999".to_vec()) };
    assert_eq!(m.update_post(1, 1, mv), Ok(()));
    assert_eq!(m.posts[0].blog_id, 2);
    assert_eq!(m.posts[0].ipfs_hash, b"Qm999".to_vec());
    assert_eq!(m.blogs[0].posts_count, 0);
    assert_eq!(m.blogs[1].posts_count, 1);
    assert_eq!(m.posts[0].edit_history[0].old_data.blog_id, Some(1));
    assert_eq!(m.posts[0].edit_history[0].old_data.ipfs_hash, Some(b"Qm222".to_vec()));
    assert_eq!(m.post_ids_by_blog_id(2), vec![1]);
    let foreign = PostUpdate { blog_id: Some(3), ipfs_hash: None };
    assert_eq!(m.update_post(1, 1, foreign), Err(Error::Unauthorized));
    let stranger = PostUpdate { blog_id: None, ipfs_hash: Some(b"Qm888".to_vec()) };
    assert_eq!(m.update_post(2, 1, stranger), Err(Error::Unauthorized));
    let nowhere = PostUpdate { blog_id: Some(9), ipfs_hash: None };
    assert_eq!(m.update_post(1, 1, nowhere), Err(Error::NotFound(Entity::Blog)));
    let missing = PostUpdate { blog_id: None, ipfs_hash: None };
    assert_eq!(m.update_post(1, 5, missing), Err(Error::NotFound(Entity::Post)));
    assert_eq!(m.posts[0].edit_history.len(), 1);
}
