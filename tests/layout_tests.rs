use lazynews::hn::Comment;
use lazynews::layout::{comment_lines, SpanStyle, StyledSpan};

fn as_text(line: &[StyledSpan]) -> String {
    line.iter().map(|span| span.text.as_str()).collect::<String>()
}

fn sample_comment(
    author: &str,
    text: &str,
    depth: usize,
    ancestor_has_next_sibling: Vec<bool>,
    is_last_sibling: bool,
) -> Comment {
    Comment {
        author: author.to_string(),
        text: text.to_string(),
        published_at: 1,
        depth,
        ancestor_has_next_sibling,
        is_last_sibling,
    }
}

#[test]
fn comment_lines_returns_placeholder_states() {
    let (lines, starts) = comment_lines("|", 40, None, false, None, None, &[], 0);
    assert_eq!(lines.len(), 1);
    assert_eq!(as_text(&lines[0]), "Press Enter on a post to load comments.");
    assert!(starts.is_empty());

    let (lines, starts) = comment_lines("|", 40, Some(1), true, None, None, &[], 0);
    assert_eq!(lines.len(), 1);
    assert_eq!(as_text(&lines[0]), "Loading comments |");
    assert!(starts.is_empty());

    let (lines, starts) = comment_lines("|", 40, Some(1), false, Some("no comments"), None, &[], 0);
    assert_eq!(lines.len(), 1);
    assert_eq!(as_text(&lines[0]), "no comments");
    assert!(starts.is_empty());

    let (lines, starts) = comment_lines("|", 40, Some(1), false, None, Some("boom"), &[], 0);
    assert_eq!(lines.len(), 1);
    assert_eq!(as_text(&lines[0]), "Failed to load comments: boom");
    assert!(starts.is_empty());

    let (lines, starts) = comment_lines("|", 40, Some(1), false, None, None, &[], 0);
    assert_eq!(lines.len(), 1);
    assert_eq!(as_text(&lines[0]), "No comments found.");
    assert!(starts.is_empty());
}

#[test]
fn comment_lines_renders_cached_comments_while_refreshing() {
    let comments = vec![sample_comment("alice", "cached text", 0, vec![], true)];
    let (lines, starts) = comment_lines("|", 40, Some(1), true, None, None, &comments, 0);
    let rendered: Vec<String> = lines.iter().map(|l| as_text(l)).collect();

    assert_eq!(starts, vec![0]);
    assert!(rendered.iter().any(|line| line.contains("alice")));
    assert!(rendered.iter().any(|line| line.contains("cached text")));
    assert!(!rendered.iter().any(|line| line.contains("Loading comments")));
}

#[test]
fn comment_lines_tracks_comment_start_lines_and_tree_prefixes() {
    let comments = vec![
        sample_comment("alice", "hello world", 0, vec![], false),
        sample_comment("bob", "> quoted\nreply", 1, vec![true], true),
    ];

    let (lines, starts) = comment_lines("|", 24, Some(42), false, None, None, &comments, 0);
    let rendered: Vec<String> = lines.iter().map(|l| as_text(l)).collect();

    assert_eq!(starts, vec![0, 2]);
    assert_eq!(rendered.len(), 5);
    assert!(rendered[0].contains("alice"));
    assert!(rendered[2].contains("bob"));
    assert!(rendered[2].contains("└─ "));
    assert!(rendered[3].contains("> quoted"));
    assert!(rendered[4].contains("reply"));
}

#[test]
fn comment_lines_styles_header_quotes_and_wraps_body() {
    let comments = vec![sample_comment("carol", "one two three\r\n>q\n", 0, vec![], true)];
    let (lines, starts) = comment_lines("|", 10, Some(1), false, None, None, &comments, 61);
    assert_eq!(starts, vec![0]);
    let header: Vec<(String, SpanStyle)> =
        lines[0].iter().map(|s| (s.text.clone(), s.style)).collect();
    assert_eq!(
        header,
        vec![
            ("carol".to_string(), SpanStyle::Author),
            (" \u{2022} ".to_string(), SpanStyle::Meta),
            ("1m ago".to_string(), SpanStyle::Meta),
        ]
    );
    let rendered: Vec<String> = lines.iter().map(|l| as_text(l)).collect();
    assert_eq!(rendered, vec!["carol \u{2022} 1m ago", "   one two", "   three", "   >q"]);
    assert_eq!(lines[1][0].style, SpanStyle::Indent);
    assert_eq!(lines[1][1].style, SpanStyle::Body);
    assert_eq!(lines[3][1].style, SpanStyle::Quote);
}

use lazynews::layout::instructions_line;
use lazynews::ui::InstructionsPane;

fn line_text(line: &[StyledSpan]) -> String {
    as_text(line)
}

#[test]
fn instructions_show_tab_navigation_and_hide_numeric_shortcuts() {
    let panes = [
        InstructionsPane::Feeds,
        InstructionsPane::Bookmarks,
        InstructionsPane::Posts,
        InstructionsPane::Comments,
    ];

    for pane in panes {
        let line = instructions_line(pane, true, true, false, false, "|");
        let text = line_text(&line);

        assert!(text.contains("Pane"));
        assert!(text.contains("<Tab/Shift-Tab>"));
        assert!(!text.contains("<1>"));
        assert!(!text.contains("<2>"));
        assert!(!text.contains("<3>"));
        assert!(!text.contains("<4>"));
    }
}

#[test]
fn refresh_hint_shows_only_in_posts_pane() {
    let line = instructions_line(InstructionsPane::Posts, false, false, false, false, "|");
    let text = line_text(&line);
    assert!(text.contains("Refresh"));
    assert!(text.contains("<R>"));

    let line = instructions_line(InstructionsPane::Feeds, false, false, false, false, "|");
    let text = line_text(&line);
    assert!(!text.contains("Refresh"));
    assert!(!text.contains("<R>"));
}

#[test]
fn collapsed_bookmarks_instructions_only_show_collapsed_actions() {
    let line = instructions_line(InstructionsPane::Bookmarks, true, true, true, false, "|");
    let text = line_text(&line);

    assert!(text.contains("<Enter/Right/L>"));
    assert!(text.contains("<Esc>"));
    assert!(!text.contains("<Up/Down/J/K>"));
    assert!(!text.contains("<D/Del/Bksp>"));
}

#[test]
fn expanded_bookmarks_instructions_include_open_all() {
    let line = instructions_line(InstructionsPane::Bookmarks, true, true, false, false, "|");
    let text = line_text(&line);

    assert!(text.contains("<A>"));
    assert!(text.contains("Open all"));
}

#[test]
fn instructions_mark_keys_busy_state_and_empty_bookmarks() {
    let line = instructions_line(InstructionsPane::Posts, false, false, false, true, "/");
    assert_eq!(line[3].text, "Refreshing ");
    assert_eq!(line[3].style, SpanStyle::Busy);
    assert_eq!(line[4].text, "/");
    assert_eq!(line[1].style, SpanStyle::Key);
    let line = instructions_line(InstructionsPane::Bookmarks, false, false, false, false, "|");
    assert!(line_text(&line).ends_with(" (No bookmarks yet)"));
}
