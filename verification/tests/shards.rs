use dynamo_subscriber::types::lineages::Lineages;
use dynamo_subscriber::types::shard::{Shard, ShardDescription};

fn shard(id: &str, parent: Option<&str>) -> Shard {
    Shard::new(id.to_string(), parent.map(str::to_string), None)
}

#[test]
fn shard_keeps_what_it_is_made_of() {
    let made = Shard::new("b".to_string(), Some("a".to_string()), Some("it".to_string()));
    assert_eq!(made.id(), "b");
    assert_eq!(made.parent_shard_id(), Some("a"));
    assert_eq!(made.iterator(), Some("it"));
}

#[test]
fn shard_is_made_from_a_description_with_an_id() {
    let description = ShardDescription {
        shard_id: Some("b".to_string()),
        parent_shard_id: Some("a".to_string()),
    };
    let made = Shard::from_shard(description).unwrap();
    assert_eq!(made.id(), "b");
    assert_eq!(made.parent_shard_id(), Some("a"));
    assert_eq!(made.iterator(), None);

    let description = ShardDescription { shard_id: None, parent_shard_id: Some("a".to_string()) };
    assert!(Shard::from_shard(description).is_none());
}

#[test]
fn shard_without_next_iterator_is_no_shard() {
    let moved = shard("b", Some("a")).set_iterator(Some("it".to_string())).unwrap();
    assert_eq!(moved.id(), "b");
    assert_eq!(moved.parent_shard_id(), Some("a"));
    assert_eq!(moved.iterator(), Some("it"));
    assert!(shard("b", Some("a")).set_iterator(None).is_none());
}

#[test]
fn shard_continues_its_parent_only() {
    assert!(shard("b", Some("a")).continues(&shard("a", None)));
    assert!(!shard("b", Some("a")).continues(&shard("c", None)));
    assert!(!shard("b", None).continues(&shard("a", None)));
}

#[test]
fn lineages_place_each_shard_behind_its_parent() {
    let lineages = Lineages::new(vec![
        shard("c", Some("b")),
        shard("a", Some("gone")),
        shard("b", Some("a")),
        shard("d", None),
        shard("e", Some("b")),
    ]);
    assert_eq!(lineages.len(), 5);
    assert_eq!(lineages.roots(), vec![1, 3]);
    assert_eq!(lineages.children(1), vec![2]);
    assert_eq!(lineages.children(2), vec![0, 4]);
    assert!(lineages.children(3).is_empty());
    assert_eq!(lineages.parent(4), Some(2));
    assert_eq!(lineages.parent(1), None);
    assert_eq!(lineages.shard(4).id(), "e");
}

#[test]
fn lineages_of_equal_ids_use_the_first() {
    let lineages = Lineages::new(vec![shard("a", None), shard("a", None), shard("b", Some("a"))]);
    assert_eq!(lineages.roots(), vec![0, 1]);
    assert_eq!(lineages.children(0), vec![2]);
    assert!(lineages.children(1).is_empty());
}

#[test]
fn lineages_of_no_shards_are_empty() {
    let lineages = Lineages::new(vec![]);
    assert_eq!(lineages.len(), 0);
    assert!(lineages.roots().is_empty());
}
