use tagging::dedup::dedup_tags;
use tagging::store::TaggingStore;
use tagging::types::{PropertyConfig, TagError, TaggingInput, UntagInput, Visibility};

fn store() -> TaggingStore {
    TaggingStore::new(PropertyConfig { min_tag_name_length: 1, max_tag_name_length: 10 })
}

fn tagging(tags: &[&str], target: usize, payload: &str) -> TaggingInput {
    TaggingInput {
        tags: tags.iter().map(|t| t.to_string()).collect(),
        target,
        link_tag_to_entry: payload.to_string(),
    }
}

fn untag(tag: &str, target: usize) -> UntagInput {
    UntagInput { tag: tag.to_string(), target }
}

fn live_links(s: &TaggingStore) -> usize {
    (0..s.link_count()).filter(|k| s.is_link_live(*k)).count()
}

#[test]
fn second_private_create_is_duplicate() {
    let mut s = store();
    let h1 = s.commit_private_tag("red".to_string(), 5).unwrap();
    assert_eq!(s.commit_private_tag("red".to_string(), 6), Err(TagError::DuplicateTag));
    assert_eq!(s.query_all_PrivateTag(), vec![(h1, 5, "red".to_string())]);
}

#[test]
fn private_create_checks_length() {
    let mut s = store();
    assert_eq!(s.commit_private_tag(String::new(), 1), Err(TagError::InvalidLength));
    assert_eq!(s.commit_private_tag("elevenchars".to_string(), 1), Err(TagError::InvalidLength));
    assert!(s.commit_private_tag("tenchars!!".to_string(), 1).is_ok());
    assert_eq!(s.query_all_PrivateTag().len(), 1);
}

#[test]
fn length_counts_bytes() {
    let s = store();
    assert!(s.valid_length(&"ééééé".to_string()));
    assert!(!s.valid_length(&"éééééé".to_string()));
    let mut one = TaggingStore::new(PropertyConfig { min_tag_name_length: 1, max_tag_name_length: 1 });
    assert_eq!(one.commit_private_tag("é".to_string(), 1), Err(TagError::InvalidLength));
    assert_eq!(one.publish_public_tag("é".to_string()), Err(TagError::InvalidLength));
    let mut two = TaggingStore::new(PropertyConfig { min_tag_name_length: 2, max_tag_name_length: 2 });
    assert!(two.commit_private_tag("é".to_string(), 1).is_ok());
    assert!(two.publish_public_tag("é".to_string()).is_ok());
}

#[test]
fn publish_twice_returns_same_address() {
    let mut s = store();
    let a = s.publish_public_tag("x".to_string()).unwrap();
    let nodes = s.node_count();
    assert_eq!(s.publish_public_tag("x".to_string()), Ok(a));
    assert_eq!(s.node_count(), nodes);
    assert_eq!(s.probe_public_tags(), vec![(a, "x".to_string())]);
}

#[test]
fn publish_checks_length() {
    let mut s = store();
    assert_eq!(s.publish_public_tag("elevenchars".to_string()), Err(TagError::InvalidLength));
    assert!(s.probe_public_tags().is_empty());
}

#[test]
fn private_tag_then_untag_leaves_no_tags() {
    let mut s = store();
    let e = s.create_entry(Visibility::Private);
    s.tag_private_entry(tagging(&["v"], e, "p"), 1).unwrap();
    assert_eq!(s.find_private_tags_for_entry(e).unwrap().len(), 1);
    s.untag_private_entry(untag("v", e)).unwrap();
    assert_eq!(s.find_private_tags_for_entry(e), Ok(vec![]));
}

#[test]
fn repeated_tags_write_the_same_links() {
    let mut s1 = store();
    let e1 = s1.create_entry(Visibility::Private);
    s1.tag_private_entry(tagging(&["a", "a", "b"], e1, "p"), 1).unwrap();
    let mut s2 = store();
    let e2 = s2.create_entry(Visibility::Private);
    s2.tag_private_entry(tagging(&["a", "b"], e2, "p"), 1).unwrap();
    assert_eq!(s1.link_count(), 4);
    assert_eq!(s2.link_count(), 4);
    assert_eq!(s1.find_private_tags_for_entry(e1), s2.find_private_tags_for_entry(e2));
    assert_eq!(s1.query_all_PrivateTag(), s2.query_all_PrivateTag());
    assert_eq!(s1.find_private_entries_with_tag("a".to_string()), vec![(e1, "p".to_string())]);
}

#[test]
fn dedup_keeps_first_occurrences() {
    let tags: Vec<String> = ["b", "a", "b", "c", "a"].iter().map(|t| t.to_string()).collect();
    assert_eq!(dedup_tags(&tags), vec!["b".to_string(), "a".to_string(), "c".to_string()]);
    assert!(dedup_tags(&vec![]).is_empty());
}

#[test]
fn private_tags_need_private_target() {
    let mut s = store();
    let public = s.create_entry(Visibility::Public);
    assert_eq!(
        s.tag_private_entry(tagging(&["a"], public, "p"), 1),
        Err(TagError::VisibilityViolation)
    );
    assert_eq!(s.link_count(), 0);
    assert_eq!(s.untag_private_entry(untag("a", public)), Err(TagError::VisibilityViolation));
    assert_eq!(s.find_private_tags_for_entry(public), Err(TagError::VisibilityViolation));
    assert_eq!(s.query_private_entry(public), Err(TagError::VisibilityViolation));
}

#[test]
fn public_tags_need_public_target() {
    let mut s = store();
    let private = s.create_entry(Visibility::Private);
    assert_eq!(
        s.tag_public_entry(tagging(&["a"], private, "p")),
        Err(TagError::VisibilityViolation)
    );
    assert_eq!(s.link_count(), 0);
    assert_eq!(s.find_public_tags_for_entry(private), Err(TagError::VisibilityViolation));
    assert_eq!(s.fetch_public_entry(private), Err(TagError::VisibilityViolation));
}

#[test]
fn unknown_target_is_not_found() {
    let mut s = store();
    assert_eq!(s.tag_private_entry(tagging(&["a"], 7, "p"), 1), Err(TagError::NotFound));
    assert_eq!(s.tag_public_entry(tagging(&["a"], 7, "p")), Err(TagError::NotFound));
    assert_eq!(s.find_private_tags_for_entry(7), Err(TagError::NotFound));
}

#[test]
fn private_scenario() {
    let mut s = store();
    let h1 = s.commit_private_tag("red".to_string(), 1).unwrap();
    assert_eq!(s.commit_private_tag("red".to_string(), 2), Err(TagError::DuplicateTag));
    let e = s.create_entry(Visibility::Private);
    s.tag_private_entry(tagging(&["red", "blue"], e, "p1"), 3).unwrap();
    assert_eq!(s.link_count(), 4);
    assert_eq!(live_links(&s), 4);
    let tags = s.query_all_PrivateTag();
    assert_eq!(tags.len(), 2);
    assert_eq!(tags[0], (h1, 1, "red".to_string()));
    let blue = tags[1].0;
    assert_eq!(tags[1], (blue, 3, "blue".to_string()));
    s.untag_private_entry(untag("red", e)).unwrap();
    assert_eq!(s.link_count(), 4);
    assert_eq!(live_links(&s), 2);
    assert!(!s.is_link_live(0));
    assert!(!s.is_link_live(1));
    assert_eq!(s.find_private_tags_for_entry(e), Ok(vec![(blue, "blue".to_string())]));
    assert_eq!(s.find_private_entries_with_tag("red".to_string()), vec![]);
    assert_eq!(s.find_private_entries_with_tag("blue".to_string()), vec![(e, "p1".to_string())]);
}

#[test]
fn untag_missing_private_tag() {
    let mut s = store();
    let e = s.create_entry(Visibility::Private);
    assert_eq!(s.untag_private_entry(untag("red", e)), Err(TagError::TagNotFound));
    s.tag_private_entry(tagging(&["red"], e, "p"), 1).unwrap();
    s.untag_private_entry(untag("red", e)).unwrap();
    assert_eq!(s.untag_private_entry(untag("red", e)), Err(TagError::TagNotFound));
}

#[test]
fn untag_private_with_two_pairs() {
    let mut s = store();
    let e = s.create_entry(Visibility::Private);
    s.tag_private_entry(tagging(&["red"], e, "p"), 1).unwrap();
    s.tag_private_entry(tagging(&["red"], e, "q"), 2).unwrap();
    // two pairs: the entry-to-tag match is not unique
    assert_eq!(s.untag_private_entry(untag("red", e)), Err(TagError::TagNotFound));
    assert_eq!(live_links(&s), 4);
}

#[test]
fn public_scenario() {
    let mut s = store();
    let t = s.create_entry(Visibility::Public);
    let created = s.tag_public_entry(tagging(&["x"], t, "p")).unwrap();
    assert_eq!(created.len(), 1);
    let f = created[0];
    assert_eq!(s.find_public_tags_for_entry(t), Ok(vec!["x".to_string()]));
    assert_eq!(s.find_public_entries_with_tag("x".to_string()), vec![(f, t, "p".to_string())]);
    assert_eq!(s.untag_public_entry(f), Ok(f));
    assert_eq!(live_links(&s), 0);
    let again = s.untag_public_entry(f);
    assert!(again == Err(TagError::NotFound) || again == Err(TagError::ReverseLinkMissing));
    assert_eq!(s.find_public_tags_for_entry(t), Ok(vec![]));
    assert_eq!(s.find_public_entries_with_tag("x".to_string()), vec![]);
}

#[test]
fn untag_public_unknown_link() {
    let mut s = store();
    assert_eq!(s.untag_public_entry(0), Err(TagError::NotFound));
}

#[test]
fn public_tagging_reuses_published_tags() {
    let mut s = store();
    let a = s.publish_public_tag("x".to_string()).unwrap();
    let t = s.create_entry(Visibility::Public);
    let created = s.tag_public_entry(tagging(&["x", "y", "x"], t, "p")).unwrap();
    assert_eq!(created, vec![0, 2]);
    let tags = s.probe_public_tags();
    assert_eq!(tags.len(), 2);
    assert_eq!(tags[0], (a, "x".to_string()));
    assert_eq!(tags[1].1, "y".to_string());
    assert_eq!(
        s.find_public_tags_for_entry(t),
        Ok(vec!["x".to_string(), "y".to_string()])
    );
}

#[test]
fn partial_batch_stays_written() {
    let mut s = store();
    let e = s.create_entry(Visibility::Private);
    let r = s.tag_private_entry(tagging(&["ok", "much too long"], e, "p"), 1);
    assert_eq!(r, Err(TagError::InvalidLength));
    assert_eq!(s.link_count(), 2);
    assert_eq!(s.find_private_tags_for_entry(e).unwrap().len(), 1);
}

#[test]
fn unknown_private_tag_has_no_entries() {
    let s = store();
    assert!(s.find_private_entries_with_tag("nothing".to_string()).is_empty());
    assert!(s.find_public_entries_with_tag("nothing".to_string()).is_empty());
}

#[test]
fn public_links_split_live_and_tombstoned() {
    let mut s = store();
    let t1 = s.create_entry(Visibility::Public);
    let t2 = s.create_entry(Visibility::Public);
    let f1 = s.tag_public_entry(tagging(&["x"], t1, "p")).unwrap();
    let f2 = s.tag_public_entry(tagging(&["x"], t2, "q")).unwrap();
    assert_eq!(s.untag_public_entry(f1[0]), Ok(f1[0]));
    assert_eq!(s.find_public_entry_links_with_tag("x".to_string()), (f2.clone(), f1));
    assert_eq!(s.find_public_entries_with_tag("x".to_string()), vec![(f2[0], t2, "q".to_string())]);
    assert_eq!(s.find_public_entry_links_with_tag("y".to_string()), (vec![], vec![]));
}
