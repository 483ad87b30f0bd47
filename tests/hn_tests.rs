use std::collections::{HashMap, HashSet};

use lazynews::hn::{build_comments_from_cache, CommentLoader, CommentsAction, Item, StoryFeed};

fn base_item(id: u64) -> Item {
    Item {
        id,
        title: None,
        url: None,
        score: None,
        descendants: None,
        by: None,
        time: None,
        text: None,
        kids: None,
        kind: None,
        dead: false,
        deleted: false,
    }
}

fn comment_item(id: u64, text: &str, kids: Vec<u64>) -> Item {
    let mut item = base_item(id);
    item.kind = Some("comment".to_string());
    item.text = Some(text.to_string());
    if !kids.is_empty() {
        item.kids = Some(kids);
    }
    item
}

#[test]
fn build_comments_from_cache_waits_for_missing_items() {
    let root_kids = vec![1];
    let mut items_by_id = HashMap::new();
    let mut root = base_item(1);
    root.kind = Some("comment".to_string());
    root.text = Some("Root".to_string());
    root.kids = Some(vec![2]);
    items_by_id.insert(1, root);

    let comments = build_comments_from_cache(&root_kids, 10, &items_by_id, &HashSet::new());

    assert!(comments.is_none());
}

#[test]
fn build_comments_from_cache_skips_failed_and_filters_unsupported_items() {
    let root_kids = vec![10, 20, 30];
    let mut items_by_id = HashMap::new();
    let mut failed_ids = HashSet::new();
    failed_ids.insert(30);

    let mut root = base_item(10);
    root.kind = Some("comment".to_string());
    root.by = Some("alice".to_string());
    root.time = Some(100);
    root.text = Some("<p>First<br>line</p>".to_string());
    root.kids = Some(vec![11, 12]);
    items_by_id.insert(10, root);

    let mut dead_child = base_item(11);
    dead_child.kind = Some("comment".to_string());
    dead_child.dead = true;
    dead_child.text = Some("should not render".to_string());
    items_by_id.insert(11, dead_child);

    let mut rendered_child = base_item(12);
    rendered_child.kind = Some("comment".to_string());
    rendered_child.by = Some(String::new());
    rendered_child.time = Some(120);
    rendered_child.text = Some("Parent two".to_string());
    rendered_child.kids = Some(vec![13]);
    items_by_id.insert(12, rendered_child);

    let mut grandchild = base_item(13);
    grandchild.kind = Some("comment".to_string());
    grandchild.by = Some("carol".to_string());
    grandchild.time = Some(140);
    grandchild.text = Some("&lt;tag&gt; and &#x27;quotes&#x27;".to_string());
    items_by_id.insert(13, grandchild);

    let mut non_comment_root = base_item(20);
    non_comment_root.kind = Some("story".to_string());
    non_comment_root.text = Some("not a comment".to_string());
    items_by_id.insert(20, non_comment_root);

    let comments =
        build_comments_from_cache(&root_kids, 10, &items_by_id, &failed_ids).unwrap();

    assert_eq!(comments.len(), 3);
    assert_eq!(comments[0].author, "alice");
    assert_eq!(comments[0].text, "First\nline");
    assert_eq!(comments[0].depth, 0);
    assert!(comments[0].ancestor_has_next_sibling.is_empty());
    assert!(!comments[0].is_last_sibling);

    assert_eq!(comments[1].author, "unknown");
    assert_eq!(comments[1].text, "Parent two");
    assert_eq!(comments[1].depth, 1);
    assert_eq!(comments[1].ancestor_has_next_sibling, vec![true]);
    assert!(comments[1].is_last_sibling);

    assert_eq!(comments[2].author, "carol");
    assert_eq!(comments[2].text, "<tag> and 'quotes'");
    assert_eq!(comments[2].depth, 2);
    assert_eq!(comments[2].ancestor_has_next_sibling, vec![true, false]);
    assert!(comments[2].is_last_sibling);
}

#[test]
fn build_comments_from_cache_respects_limit() {
    let root_kids = vec![1, 2];
    let mut items_by_id = HashMap::new();

    let mut first = base_item(1);
    first.kind = Some("comment".to_string());
    first.text = Some("first".to_string());
    items_by_id.insert(1, first);

    let mut second = base_item(2);
    second.kind = Some("comment".to_string());
    second.text = Some("second".to_string());
    items_by_id.insert(2, second);

    let comments =
        build_comments_from_cache(&root_kids, 1, &items_by_id, &HashSet::new()).unwrap();

    assert_eq!(comments.len(), 1);
    assert_eq!(comments[0].text, "first");
}

#[test]
fn build_prunes_failed_subtree_even_when_descendants_are_cached() {
    let mut items = HashMap::new();
    items.insert(2, comment_item(2, "orphan", vec![]));
    items.insert(3, comment_item(3, "kept", vec![]));
    let mut failed = HashSet::new();
    failed.insert(1);
    // Id 1 failed; id 2 would be its child but can only be reached through it.
    let comments = build_comments_from_cache(&[1, 3], 10, &items, &failed).unwrap();
    assert_eq!(comments.len(), 1);
    assert_eq!(comments[0].text, "kept");
    assert!(comments[0].is_last_sibling);
}

#[test]
fn build_with_zero_limit_is_empty_even_with_missing_items() {
    let items = HashMap::new();
    let comments = build_comments_from_cache(&[1, 2], 0, &items, &HashSet::new()).unwrap();
    assert!(comments.is_empty());
}

#[test]
fn build_cuts_a_cycle_back_to_an_ancestor() {
    let mut items = HashMap::new();
    items.insert(1, comment_item(1, "loop", vec![1, 2]));
    items.insert(2, comment_item(2, "child", vec![1]));
    let comments = build_comments_from_cache(&[1], 10, &items, &HashSet::new()).unwrap();
    let texts: Vec<&str> = comments.iter().map(|c| c.text.as_str()).collect();
    assert_eq!(texts, vec!["loop", "child"]);
    assert_eq!(comments[1].depth, 1);
}

#[test]
fn build_is_identical_when_repeated_on_a_complete_cache() {
    let mut items = HashMap::new();
    items.insert(10, comment_item(10, "<p>Hi</p>", vec![11]));
    items.insert(11, comment_item(11, "Reply", vec![]));
    items.insert(20, comment_item(20, "Second", vec![]));
    let first = build_comments_from_cache(&[10, 20], 10, &items, &HashSet::new()).unwrap();
    let second = build_comments_from_cache(&[10, 20], 10, &items, &HashSet::new()).unwrap();
    assert_eq!(first.len(), 3);
    assert_eq!(first.len(), second.len());
    for (a, b) in first.iter().zip(second.iter()) {
        assert_eq!(a.text, b.text);
        assert_eq!(a.depth, b.depth);
        assert_eq!(a.ancestor_has_next_sibling, b.ancestor_has_next_sibling);
        assert_eq!(a.is_last_sibling, b.is_last_sibling);
    }
}

fn fetch_ids(action: CommentsAction) -> Vec<u64> {
    match action {
        CommentsAction::FetchItems(ids) => ids,
        _ => panic!("expected a fetch round"),
    }
}

#[test]
fn loader_builds_the_scenario_thread() {
    let mut loader = CommentLoader::new(1, 10);
    assert!(matches!(loader.next_action(), CommentsAction::FetchPost(1)));
    loader.post_fetched(vec![10, 20]);
    assert_eq!(fetch_ids(loader.next_action()), vec![10, 20]);
    loader.items_fetched(vec![
        (10, Some(comment_item(10, "<p>Hi</p>", vec![11]))),
        (20, Some(comment_item(20, "Second", vec![]))),
    ]);
    assert_eq!(fetch_ids(loader.next_action()), vec![11]);
    loader.items_fetched(vec![(11, Some(comment_item(11, "Reply", vec![])))]);
    let comments = match loader.next_action() {
        CommentsAction::Done(c) => c,
        _ => panic!("expected the thread"),
    };
    assert_eq!(comments.len(), 3);
    assert_eq!(comments[0].text, "Hi");
    assert_eq!(comments[0].depth, 0);
    assert!(comments[0].ancestor_has_next_sibling.is_empty());
    assert!(!comments[0].is_last_sibling);
    assert_eq!(comments[1].text, "Reply");
    assert_eq!(comments[1].depth, 1);
    assert_eq!(comments[1].ancestor_has_next_sibling, vec![true]);
    assert!(comments[1].is_last_sibling);
    assert_eq!(comments[2].text, "Second");
    assert_eq!(comments[2].depth, 0);
    assert!(comments[2].ancestor_has_next_sibling.is_empty());
    assert!(comments[2].is_last_sibling);
}

#[test]
fn loader_with_limit_one_stops_after_first_node() {
    let mut loader = CommentLoader::new(1, 1);
    assert!(matches!(loader.next_action(), CommentsAction::FetchPost(1)));
    loader.post_fetched(vec![10, 20]);
    assert_eq!(fetch_ids(loader.next_action()), vec![10, 20]);
    loader.items_fetched(vec![
        (10, Some(comment_item(10, "<p>Hi</p>", vec![11]))),
        (20, Some(comment_item(20, "Second", vec![]))),
    ]);
    match loader.next_action() {
        CommentsAction::Done(c) => {
            assert_eq!(c.len(), 1);
            assert_eq!(c[0].text, "Hi");
        }
        _ => panic!("no fetch of id 11 is needed"),
    }
}

#[test]
fn loader_with_zero_limit_fetches_nothing() {
    let mut loader = CommentLoader::new(1, 0);
    match loader.next_action() {
        CommentsAction::Done(c) => assert!(c.is_empty()),
        _ => panic!("nothing is to be fetched"),
    }
}

#[test]
fn loader_of_post_without_children_is_empty() {
    let mut loader = CommentLoader::new(7, 5);
    assert!(matches!(loader.next_action(), CommentsAction::FetchPost(7)));
    loader.post_fetched(Vec::new());
    match loader.next_action() {
        CommentsAction::Done(c) => assert!(c.is_empty()),
        _ => panic!("expected an empty thread"),
    }
}

#[test]
fn loader_prunes_failed_ids_and_batches_by_twenty() {
    let mut loader = CommentLoader::new(1, 100);
    let _ = loader.next_action();
    let roots: Vec<u64> = (100..125).collect();
    loader.post_fetched(roots.clone());
    let first = fetch_ids(loader.next_action());
    assert_eq!(first, (100..120).collect::<Vec<u64>>());
    let mut outcomes: Vec<(u64, Option<Item>)> = first
        .iter()
        .map(|id| (*id, Some(comment_item(*id, "x", vec![]))))
        .collect();
    outcomes[0] = (100, None);
    loader.items_fetched(outcomes);
    let second = fetch_ids(loader.next_action());
    assert_eq!(second, (120..125).collect::<Vec<u64>>());
    loader.items_fetched(
        second
            .iter()
            .map(|id| (*id, Some(comment_item(*id, "y", vec![]))))
            .collect(),
    );
    match loader.next_action() {
        CommentsAction::Done(c) => assert_eq!(c.len(), 24),
        _ => panic!("expected the thread"),
    }
}

#[test]
fn story_feed_endpoints() {
    assert_eq!(StoryFeed::Top.endpoint(), "topstories");
    assert_eq!(StoryFeed::Jobs.endpoint(), "jobstories");
    assert_eq!(StoryFeed::Best.endpoint(), "beststories");
}

#[test]
fn build_skips_a_failed_id_even_when_it_is_cached() {
    let mut items = HashMap::new();
    items.insert(7, comment_item(7, "x", vec![8]));
    items.insert(8, comment_item(8, "below", vec![]));
    items.insert(9, comment_item(9, "sibling", vec![]));
    let mut failed = HashSet::new();
    failed.insert(7);
    let comments = build_comments_from_cache(&[7], 10, &items, &failed).unwrap();
    assert!(comments.is_empty());
    let comments = build_comments_from_cache(&[7, 9], 10, &items, &failed).unwrap();
    assert_eq!(comments.len(), 1);
    assert_eq!(comments[0].text, "sibling");
}

#[test]
fn loader_treats_unreported_ids_as_failed_when_nothing_is_pending() {
    let mut loader = CommentLoader::new(1, 10);
    let _ = loader.next_action();
    loader.post_fetched(vec![10, 20, 30]);
    assert_eq!(fetch_ids(loader.next_action()), vec![10, 20, 30]);
    // The outcome of id 20 is never reported.
    loader.items_fetched(vec![
        (10, Some(comment_item(10, "one", vec![]))),
        (30, Some(comment_item(30, "three", vec![]))),
    ]);
    match loader.next_action() {
        CommentsAction::Done(c) => {
            let texts: Vec<&str> = c.iter().map(|x| x.text.as_str()).collect();
            assert_eq!(texts, vec!["one", "three"]);
        }
        _ => panic!("nothing is left to fetch"),
    }
}
