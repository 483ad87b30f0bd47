use lazynews::input::{
    map_bookmarks_action, map_comments_action, map_feeds_action, map_global_action,
    map_posts_action, BookmarksKeyAction, CommentsKeyAction, FeedsKeyAction, GlobalKeyAction,
    KeyCode, KeyEvent, PostsKeyAction,
};

fn key(code: KeyCode, control: bool) -> KeyEvent {
    KeyEvent { code, control }
}

#[test]
fn global_mapping_handles_ctrl_c_and_shortcuts() {
    assert_eq!(
        map_global_action(key(KeyCode::Char('c'), true)),
        Some(GlobalKeyAction::Exit)
    );
    assert_eq!(
        map_global_action(key(KeyCode::Char('2'), false)),
        Some(GlobalKeyAction::PaneShortcut('2'))
    );
    assert_eq!(map_global_action(key(KeyCode::Char('x'), false)), None);
}

#[test]
fn bookmarks_mapping_depends_on_collapsed_state() {
    assert_eq!(
        map_bookmarks_action(KeyCode::Enter, true),
        Some(BookmarksKeyAction::Expand)
    );
    assert_eq!(map_bookmarks_action(KeyCode::Down, true), None);
    assert_eq!(
        map_bookmarks_action(KeyCode::Down, false),
        Some(BookmarksKeyAction::SelectNext)
    );
    assert_eq!(
        map_bookmarks_action(KeyCode::Char('a'), false),
        Some(BookmarksKeyAction::OpenAll)
    );
}

#[test]
fn pane_key_tables() {
    assert_eq!(map_global_action(key(KeyCode::Char('c'), false)), None);
    assert_eq!(map_global_action(key(KeyCode::Char('R'), false)), Some(GlobalKeyAction::Refresh));
    assert_eq!(map_global_action(key(KeyCode::Char('5'), false)), None);
    assert_eq!(map_global_action(key(KeyCode::BackTab, false)), Some(GlobalKeyAction::FocusPreviousPane));
    assert_eq!(map_feeds_action(KeyCode::Char('H')), Some(FeedsKeyAction::SelectPrevious));
    assert_eq!(map_feeds_action(KeyCode::Enter), Some(FeedsKeyAction::FocusPosts));
    assert_eq!(map_posts_action(KeyCode::Esc, false), None);
    assert_eq!(map_posts_action(KeyCode::Esc, true), Some(PostsKeyAction::CloseComments));
    assert_eq!(map_posts_action(KeyCode::Char('j'), false), Some(PostsKeyAction::SelectNextAndLoadMore));
    assert_eq!(map_comments_action(KeyCode::Char('l')), Some(CommentsKeyAction::JumpNextSibling));
    assert_eq!(map_comments_action(KeyCode::End), Some(CommentsKeyAction::ScrollEnd));
    assert_eq!(map_comments_action(KeyCode::Other), None);
    assert_eq!(map_bookmarks_action(KeyCode::Backspace, false), Some(BookmarksKeyAction::Delete));
    assert_eq!(map_bookmarks_action(KeyCode::Esc, true), Some(BookmarksKeyAction::Close));
}
