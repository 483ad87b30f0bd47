use lazynews::comments_nav::{
    current_index_from_scroll, nearest_parent_index, next_comment_index,
    next_sibling_or_outer_index, previous_comment_index, previous_sibling_or_parent_index,
};
use lazynews::hn::Comment;

fn comment(depth: usize) -> Comment {
    Comment {
        author: "a".to_string(),
        text: "t".to_string(),
        published_at: 0,
        depth,
        ancestor_has_next_sibling: Vec::new(),
        is_last_sibling: true,
    }
}

#[test]
fn current_index_clamps_to_comment_len() {
    assert_eq!(current_index_from_scroll(&[0, 2, 4], 2, 10), Some(1));
}

#[test]
fn current_index_follows_scroll_and_handles_empty() {
    assert_eq!(current_index_from_scroll(&[0, 2, 4], 3, 0), Some(0));
    assert_eq!(current_index_from_scroll(&[0, 2, 4], 3, 3), Some(1));
    assert_eq!(current_index_from_scroll(&[5, 7], 2, 1), Some(0));
    assert_eq!(current_index_from_scroll(&[], 3, 1), None);
    assert_eq!(current_index_from_scroll(&[0], 0, 1), None);
}

#[test]
fn sibling_navigation_prefers_same_depth_then_outer() {
    let comments = vec![comment(0), comment(1), comment(2), comment(1), comment(0)];
    assert_eq!(next_sibling_or_outer_index(&comments, 1), Some(3));
    assert_eq!(next_sibling_or_outer_index(&comments, 3), Some(4));
}

#[test]
fn previous_navigation_finds_sibling_or_parent() {
    let comments = vec![comment(0), comment(1), comment(2), comment(1), comment(0)];
    assert_eq!(previous_sibling_or_parent_index(&comments, 3), Some(1));
    assert_eq!(previous_sibling_or_parent_index(&comments, 2), Some(1));
}

#[test]
fn navigation_at_the_edges() {
    let comments = vec![comment(0), comment(1), comment(2), comment(1), comment(0)];
    assert_eq!(next_sibling_or_outer_index(&comments, 4), None);
    assert_eq!(next_sibling_or_outer_index(&comments, 9), None);
    assert_eq!(previous_sibling_or_parent_index(&comments, 0), None);
    assert_eq!(previous_sibling_or_parent_index(&comments, 4), Some(0));
    assert_eq!(nearest_parent_index(&comments, 2), Some(1));
    assert_eq!(nearest_parent_index(&comments, 0), None);
    assert_eq!(next_comment_index(5, 3), Some(4));
    assert_eq!(next_comment_index(5, 4), None);
    assert_eq!(next_comment_index(0, usize::MAX), None);
    assert_eq!(previous_comment_index(3), Some(2));
    assert_eq!(previous_comment_index(0), None);
}
