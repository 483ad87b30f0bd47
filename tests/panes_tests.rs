use lazynews::app::{Post, PostType};
use lazynews::comments_nav::CommentsScroll;
use lazynews::hn::{fill_discussion_url, Item};
use lazynews::panes::{visible_panes, Panes};
use lazynews::ui::Pane;

fn post(id: u64, title: &str) -> Post {
    Post {
        id,
        title: title.to_string(),
        url: format!("https://example.com/{id}"),
        post_type: PostType::Story,
        points: 0,
        comments: 0,
        author: "author".to_string(),
        published_at: 0,
    }
}

#[test]
fn bookmarking_adds_once_per_post_id_and_shows_pane_collapsed() {
    let mut panes = Panes::new();
    assert!(!panes.bookmarks_visible());
    panes.bookmark_post(post(1, "first"));
    panes.bookmark_post(post(1, "first again"));
    panes.bookmark_post(post(2, "second"));
    assert_eq!(panes.bookmarks.len(), 2);
    assert!(panes.bookmarks_visible());
    assert!(panes.bookmarks_collapsed);
    assert_eq!(panes.selected_bookmark, Some(0));
    assert_eq!(panes.bookmarks_width_percent(false), 12);
    assert_eq!(panes.bookmarks_width_percent(true), 10);
}

#[test]
fn focus_cycles_over_shown_panes() {
    let mut panes = Panes::new();
    assert_eq!(visible_panes(false, false), vec![Pane::Feeds, Pane::Posts]);
    assert_eq!(
        visible_panes(true, true),
        vec![Pane::Feeds, Pane::Bookmarks, Pane::Posts, Pane::Comments]
    );
    panes.cycle_focus(1, true);
    assert_eq!(panes.focus, Pane::Comments);
    panes.cycle_focus(1, true);
    assert_eq!(panes.focus, Pane::Feeds);
    panes.cycle_focus(-1, true);
    assert_eq!(panes.focus, Pane::Comments);
    panes.bookmark_post(post(1, "first"));
    // The comments pane is no longer shown: the focus counts as on the first pane.
    panes.cycle_focus(-1, false);
    assert_eq!(panes.focus, Pane::Posts);
    panes.cycle_focus(1, false);
    assert_eq!(panes.focus, Pane::Feeds);
    panes.cycle_focus(1, false);
    assert_eq!(panes.focus, Pane::Bookmarks);
    assert!(!panes.bookmarks_collapsed);
    panes.cycle_focus(1, false);
    assert_eq!(panes.focus, Pane::Posts);
    assert!(panes.bookmarks_collapsed);
}

#[test]
fn pane_shortcuts_focus_and_toggle() {
    let mut panes = Panes::new();
    panes.pane_shortcut('1', false);
    assert_eq!(panes.focus, Pane::Posts);
    panes.pane_shortcut('3', false);
    assert_eq!(panes.focus, Pane::Feeds);
    panes.pane_shortcut('4', false);
    assert_eq!(panes.focus, Pane::Feeds);
    panes.pane_shortcut('4', true);
    assert_eq!(panes.focus, Pane::Comments);
    panes.bookmark_post(post(1, "first"));
    panes.pane_shortcut('1', true);
    assert_eq!(panes.focus, Pane::Bookmarks);
    assert!(!panes.bookmarks_collapsed);
    panes.pane_shortcut('1', true);
    assert_eq!(panes.focus, Pane::Bookmarks);
    assert!(panes.bookmarks_collapsed);
    panes.pane_shortcut('2', true);
    assert_eq!(panes.focus, Pane::Posts);
}

#[test]
fn removing_bookmarks_moves_selection_and_hides_pane() {
    let mut panes = Panes::new();
    panes.bookmark_post(post(1, "first"));
    panes.bookmark_post(post(2, "second"));
    panes.open_bookmarks_pane();
    assert_eq!(panes.focus, Pane::Bookmarks);
    panes.select_next_bookmark();
    assert_eq!(panes.selected_bookmark, Some(1));
    panes.select_next_bookmark();
    assert_eq!(panes.selected_bookmark, Some(0));
    panes.select_previous_bookmark();
    assert_eq!(panes.selected_bookmark, Some(1));
    panes.remove_selected_bookmark();
    assert_eq!(panes.bookmarks.len(), 1);
    assert_eq!(panes.bookmarks[0].title, "first");
    assert_eq!(panes.selected_bookmark, Some(0));
    panes.remove_selected_bookmark();
    assert!(panes.bookmarks.is_empty());
    assert_eq!(panes.selected_bookmark, None);
    assert_eq!(panes.focus, Pane::Posts);
    assert!(!panes.bookmarks_collapsed);
}

#[test]
fn closing_bookmarks_collapses_but_keeps_them() {
    let mut panes = Panes::new();
    panes.bookmark_post(post(1, "first"));
    panes.open_bookmarks_pane();
    panes.close_bookmarks_pane();
    assert_eq!(panes.focus, Pane::Posts);
    assert!(panes.bookmarks_collapsed);
    assert!(panes.bookmarks_visible());
    assert_eq!(panes.selected_bookmark().map(|p| p.id), Some(1));
}

#[test]
fn comment_scroll_stays_within_the_thread() {
    let mut scroll = CommentsScroll::new();
    scroll.line_count = 50;
    scroll.viewport_height = 20;
    scroll.start_lines = vec![0, 10, 40];
    assert_eq!(scroll.max_comment_scroll(), 30);
    assert_eq!(scroll.comment_page_step(), 19);
    scroll.scroll_comments_down(25);
    assert_eq!(scroll.scroll, 25);
    scroll.scroll_comments_down(25);
    assert_eq!(scroll.scroll, 30);
    scroll.scroll_comments_up(40);
    assert_eq!(scroll.scroll, 0);
    scroll.jump_to_comment(2);
    assert_eq!(scroll.scroll, 30);
    assert_eq!(scroll.current_index(3), Some(1));
    scroll.jump_to_comment(1);
    assert_eq!(scroll.scroll, 10);
    scroll.jump_to_comment(7);
    assert_eq!(scroll.scroll, 10);
    scroll.line_count = 5;
    scroll.clamp_comments_scroll();
    assert_eq!(scroll.scroll, 0);
}

#[test]
fn items_without_link_get_their_discussion_page() {
    let mut item = Item {
        id: 4242,
        title: Some("t".to_string()),
        url: None,
        score: None,
        descendants: None,
        by: None,
        time: None,
        text: None,
        kids: None,
        kind: Some("story".to_string()),
        dead: false,
        deleted: false,
    };
    fill_discussion_url(&mut item);
    assert_eq!(item.url.as_deref(), Some("https://news.ycombinator.com/item?id=4242"));
    item.url = Some("https://example.com".to_string());
    fill_discussion_url(&mut item);
    assert_eq!(item.url.as_deref(), Some("https://example.com"));
}
