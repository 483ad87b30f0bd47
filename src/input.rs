use vstd::prelude::*;

verus! {

/// A key, as the key tables read it.
#[derive(Debug, Clone, Copy, PartialEq, Eq, Structural)]
pub enum KeyCode {
    Char(char),
    Tab,
    BackTab,
    Enter,
    Esc,
    Left,
    Right,
    Up,
    Down,
    PageUp,
    PageDown,
    Home,
    End,
    Delete,
    Backspace,
    /// Any key that no table uses.
    Other,
}

/// A key press with the one modifier the tables read.
#[derive(Debug, Clone, Copy, PartialEq, Eq, Structural)]
pub struct KeyEvent {
    pub code: KeyCode,
    pub control: bool,
}

#[derive(Debug, Clone, Copy, PartialEq, Eq, Structural)]
pub enum GlobalKeyAction {
    Exit,
    FocusNextPane,
    FocusPreviousPane,
    PaneShortcut(char),
    Refresh,
    Quit,
}

#[derive(Debug, Clone, Copy, PartialEq, Eq, Structural)]
pub enum FeedsKeyAction {
    SelectPrevious,
    SelectNext,
    FocusPosts,
}

#[derive(Debug, Clone, Copy, PartialEq, Eq, Structural)]
pub enum PostsKeyAction {
    SelectPrevious,
    SelectNextAndLoadMore,
    BookmarkSelected,
    OpenComments,
    OpenPost,
    CloseComments,
}

#[derive(Debug, Clone, Copy, PartialEq, Eq, Structural)]
pub enum CommentsKeyAction {
    Close,
    BookmarkPost,
    OpenPost,
    JumpPrevious,
    JumpNext,
    JumpPreviousSibling,
    JumpNextSibling,
    ScrollUp,
    ScrollDown,
    ScrollPageUp,
    ScrollPageDown,
    ScrollHome,
    ScrollEnd,
}

#[derive(Debug, Clone, Copy, PartialEq, Eq, Structural)]
pub enum BookmarksKeyAction {
    Expand,
    Close,
    BookmarkSelected,
    SelectPrevious,
    SelectNext,
    OpenComments,
    OpenPost,
    OpenAll,
    Delete,
}

/// `key` is the letter `lower` in either case.
pub open spec fn is_letter(key: KeyCode, lower: char, upper: char) -> bool {
    key == KeyCode::Char(lower) || key == KeyCode::Char(upper)
}

pub open spec fn global_action(key: KeyEvent) -> Option<GlobalKeyAction> {
    if key.code == KeyCode::Char('c') && key.control {
        Some(GlobalKeyAction::Exit)
    } else {
        match key.code {
            KeyCode::Tab => Some(GlobalKeyAction::FocusNextPane),
            KeyCode::BackTab => Some(GlobalKeyAction::FocusPreviousPane),
            KeyCode::Char(c) => if '1' <= c <= '4' {
                Some(GlobalKeyAction::PaneShortcut(c))
            } else if c == 'r' || c == 'R' {
                Some(GlobalKeyAction::Refresh)
            } else if c == 'q' {
                Some(GlobalKeyAction::Quit)
            } else {
                None
            },
            _ => None,
        }
    }
}

/// The keys that work in every pane: Ctrl-C exits, Tab and Shift-Tab move
/// the focus, 1 to 4 focus a pane, R refreshes, q quits.
pub fn map_global_action(key_event: KeyEvent) -> (r: Option<GlobalKeyAction>)
    ensures
        r == global_action(key_event),
{
    if key_event.code == KeyCode::Char('c') && key_event.control {
        return Some(GlobalKeyAction::Exit);
    }
    match key_event.code {
        KeyCode::Tab => Some(GlobalKeyAction::FocusNextPane),
        KeyCode::BackTab => Some(GlobalKeyAction::FocusPreviousPane),
        KeyCode::Char(c) => if '1' <= c && c <= '4' {
            Some(GlobalKeyAction::PaneShortcut(c))
        } else if c == 'r' || c == 'R' {
            Some(GlobalKeyAction::Refresh)
        } else if c == 'q' {
            Some(GlobalKeyAction::Quit)
        } else {
            None
        },
        _ => None,
    }
}

pub open spec fn feeds_action(key: KeyCode) -> Option<FeedsKeyAction> {
    if key == KeyCode::Left || is_letter(key, 'h', 'H') {
        Some(FeedsKeyAction::SelectPrevious)
    } else if key == KeyCode::Right || is_letter(key, 'l', 'L') {
        Some(FeedsKeyAction::SelectNext)
    } else if key == KeyCode::Enter {
        Some(FeedsKeyAction::FocusPosts)
    } else {
        None
    }
}

/// The keys of the feeds pane.
pub fn map_feeds_action(key_code: KeyCode) -> (r: Option<FeedsKeyAction>)
    ensures
        r == feeds_action(key_code),
{
    match key_code {
        KeyCode::Left | KeyCode::Char('h') | KeyCode::Char('H') => Some(FeedsKeyAction::SelectPrevious),
        KeyCode::Right | KeyCode::Char('l') | KeyCode::Char('L') => Some(FeedsKeyAction::SelectNext),
        KeyCode::Enter => Some(FeedsKeyAction::FocusPosts),
        _ => None,
    }
}

pub open spec fn posts_action(key: KeyCode, comments_open: bool) -> Option<PostsKeyAction> {
    if key == KeyCode::Up || is_letter(key, 'k', 'K') {
        Some(PostsKeyAction::SelectPrevious)
    } else if key == KeyCode::Down || is_letter(key, 'j', 'J') {
        Some(PostsKeyAction::SelectNextAndLoadMore)
    } else if is_letter(key, 'b', 'B') {
        Some(PostsKeyAction::BookmarkSelected)
    } else if key == KeyCode::Enter {
        Some(PostsKeyAction::OpenComments)
    } else if is_letter(key, 'o', 'O') {
        Some(PostsKeyAction::OpenPost)
    } else if key == KeyCode::Esc && comments_open {
        Some(PostsKeyAction::CloseComments)
    } else {
        None
    }
}

/// The keys of the posts pane; Esc closes the comments when they are open.
pub fn map_posts_action(key_code: KeyCode, comments_open: bool) -> (r: Option<PostsKeyAction>)
    ensures
        r == posts_action(key_code, comments_open),
{
    match key_code {
        KeyCode::Up | KeyCode::Char('k') | KeyCode::Char('K') => Some(PostsKeyAction::SelectPrevious),
        KeyCode::Down | KeyCode::Char('j') | KeyCode::Char('J') => Some(PostsKeyAction::SelectNextAndLoadMore),
        KeyCode::Char('b') | KeyCode::Char('B') => Some(PostsKeyAction::BookmarkSelected),
        KeyCode::Enter => Some(PostsKeyAction::OpenComments),
        KeyCode::Char('o') | KeyCode::Char('O') => Some(PostsKeyAction::OpenPost),
        KeyCode::Esc => if comments_open {
            Some(PostsKeyAction::CloseComments)
        } else {
            None
        },
        _ => None,
    }
}

pub open spec fn comments_action(key: KeyCode) -> Option<CommentsKeyAction> {
    if key == KeyCode::Esc {
        Some(CommentsKeyAction::Close)
    } else if is_letter(key, 'b', 'B') {
        Some(CommentsKeyAction::BookmarkPost)
    } else if is_letter(key, 'o', 'O') {
        Some(CommentsKeyAction::OpenPost)
    } else if key == KeyCode::Up {
        Some(CommentsKeyAction::JumpPrevious)
    } else if key == KeyCode::Down {
        Some(CommentsKeyAction::JumpNext)
    } else if key == KeyCode::Left || is_letter(key, 'h', 'H') {
        Some(CommentsKeyAction::JumpPreviousSibling)
    } else if key == KeyCode::Right || is_letter(key, 'l', 'L') {
        Some(CommentsKeyAction::JumpNextSibling)
    } else if is_letter(key, 'k', 'K') {
        Some(CommentsKeyAction::ScrollUp)
    } else if is_letter(key, 'j', 'J') {
        Some(CommentsKeyAction::ScrollDown)
    } else if key == KeyCode::PageUp {
        Some(CommentsKeyAction::ScrollPageUp)
    } else if key == KeyCode::PageDown {
        Some(CommentsKeyAction::ScrollPageDown)
    } else if key == KeyCode::Home {
        Some(CommentsKeyAction::ScrollHome)
    } else if key == KeyCode::End {
        Some(CommentsKeyAction::ScrollEnd)
    } else {
        None
    }
}

/// The keys of the comments pane.
pub fn map_comments_action(key_code: KeyCode) -> (r: Option<CommentsKeyAction>)
    ensures
        r == comments_action(key_code),
{
    match key_code {
        KeyCode::Esc => Some(CommentsKeyAction::Close),
        KeyCode::Char('b') | KeyCode::Char('B') => Some(CommentsKeyAction::BookmarkPost),
        KeyCode::Char('o') | KeyCode::Char('O') => Some(CommentsKeyAction::OpenPost),
        KeyCode::Up => Some(CommentsKeyAction::JumpPrevious),
        KeyCode::Down => Some(CommentsKeyAction::JumpNext),
        KeyCode::Left | KeyCode::Char('h') | KeyCode::Char('H') => Some(CommentsKeyAction::JumpPreviousSibling),
        KeyCode::Right | KeyCode::Char('l') | KeyCode::Char('L') => Some(CommentsKeyAction::JumpNextSibling),
        KeyCode::Char('k') | KeyCode::Char('K') => Some(CommentsKeyAction::ScrollUp),
        KeyCode::Char('j') | KeyCode::Char('J') => Some(CommentsKeyAction::ScrollDown),
        KeyCode::PageUp => Some(CommentsKeyAction::ScrollPageUp),
        KeyCode::PageDown => Some(CommentsKeyAction::ScrollPageDown),
        KeyCode::Home => Some(CommentsKeyAction::ScrollHome),
        KeyCode::End => Some(CommentsKeyAction::ScrollEnd),
        _ => None,
    }
}

pub open spec fn bookmarks_action(key: KeyCode, collapsed: bool) -> Option<BookmarksKeyAction> {
    if collapsed {
        if key == KeyCode::Enter || key == KeyCode::Right || is_letter(key, 'l', 'L') {
            Some(BookmarksKeyAction::Expand)
        } else if key == KeyCode::Esc {
            Some(BookmarksKeyAction::Close)
        } else {
            None
        }
    } else if is_letter(key, 'b', 'B') {
        Some(BookmarksKeyAction::BookmarkSelected)
    } else if key == KeyCode::Up || is_letter(key, 'k', 'K') {
        Some(BookmarksKeyAction::SelectPrevious)
    } else if key == KeyCode::Down || is_letter(key, 'j', 'J') {
        Some(BookmarksKeyAction::SelectNext)
    } else if key == KeyCode::Enter {
        Some(BookmarksKeyAction::OpenComments)
    } else if is_letter(key, 'o', 'O') {
        Some(BookmarksKeyAction::OpenPost)
    } else if is_letter(key, 'a', 'A') {
        Some(BookmarksKeyAction::OpenAll)
    } else if is_letter(key, 'd', 'D') || key == KeyCode::Delete || key == KeyCode::Backspace {
        Some(BookmarksKeyAction::Delete)
    } else if key == KeyCode::Esc {
        Some(BookmarksKeyAction::Close)
    } else {
        None
    }
}

/// The keys of the bookmarks pane: collapsed, it only expands or closes.
pub fn map_bookmarks_action(key_code: KeyCode, bookmarks_collapsed: bool) -> (r: Option<BookmarksKeyAction>)
    ensures
        r == bookmarks_action(key_code, bookmarks_collapsed),
{
    if bookmarks_collapsed {
        return match key_code {
            KeyCode::Enter | KeyCode::Right | KeyCode::Char('l') | KeyCode::Char('L') => Some(BookmarksKeyAction::Expand),
            KeyCode::Esc => Some(BookmarksKeyAction::Close),
            _ => None,
        };
    }
    match key_code {
        KeyCode::Char('b') | KeyCode::Char('B') => Some(BookmarksKeyAction::BookmarkSelected),
        KeyCode::Up | KeyCode::Char('k') | KeyCode::Char('K') => Some(BookmarksKeyAction::SelectPrevious),
        KeyCode::Down | KeyCode::Char('j') | KeyCode::Char('J') => Some(BookmarksKeyAction::SelectNext),
        KeyCode::Enter => Some(BookmarksKeyAction::OpenComments),
        KeyCode::Char('o') | KeyCode::Char('O') => Some(BookmarksKeyAction::OpenPost),
        KeyCode::Char('a') | KeyCode::Char('A') => Some(BookmarksKeyAction::OpenAll),
        KeyCode::Char('d') | KeyCode::Char('D') | KeyCode::Delete | KeyCode::Backspace => Some(BookmarksKeyAction::Delete),
        KeyCode::Esc => Some(BookmarksKeyAction::Close),
        _ => None,
    }
}

} // verus!
