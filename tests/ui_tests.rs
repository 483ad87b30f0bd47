use lazynews::hn::Comment;
use lazynews::ui::{
    format_age, format_age_at, instructions_pane_for, tree_prefix, wrap_text, InstructionsPane,
    Pane,
};

#[test]
fn wrap_text_wraps_by_word_when_it_fits() {
    let wrapped = wrap_text("alpha beta gamma", 10);
    assert_eq!(wrapped, vec!["alpha beta", "gamma"]);
}

#[test]
fn wrap_text_splits_long_words_into_chunks() {
    let wrapped = wrap_text("abcdefgh ij", 4);
    assert_eq!(wrapped, vec!["abcd", "efgh", "ij"]);
}

#[test]
fn wrap_text_splits_unicode_words_without_panicking() {
    let wrapped = wrap_text("åäö🙂🙂", 2);
    assert_eq!(wrapped, vec!["åä", "ö🙂", "🙂"]);
}

#[test]
fn wrap_text_returns_blank_for_zero_width() {
    let wrapped = wrap_text("alpha beta", 0);
    assert_eq!(wrapped, vec![String::new()]);
}

#[test]
fn wrap_text_of_blank_input_is_one_empty_line() {
    assert_eq!(wrap_text("", 5), vec![String::new()]);
    assert_eq!(wrap_text("   \t ", 5), vec![String::new()]);
}

#[test]
fn wrap_text_collapses_spacing_between_words() {
    assert_eq!(wrap_text("  a   b  ", 10), vec!["a b"]);
    assert_eq!(wrap_text("ab cd ef", 5), vec!["ab cd", "ef"]);
}

#[test]
fn format_age_returns_dash_for_zero_timestamp() {
    assert_eq!(format_age(0), "-");
}

#[test]
fn format_age_at_picks_the_largest_unit() {
    assert_eq!(format_age_at(1000, 1000), "0s ago");
    assert_eq!(format_age_at(1000, 1059), "59s ago");
    assert_eq!(format_age_at(1000, 1060), "1m ago");
    assert_eq!(format_age_at(1000, 1000 + 3_599), "59m ago");
    assert_eq!(format_age_at(1000, 1000 + 7_200), "2h ago");
    assert_eq!(format_age_at(1000, 1000 + 86_400 * 3), "3d ago");
    assert_eq!(format_age_at(1000, 1000 + 604_800 * 2), "2w ago");
    assert_eq!(format_age_at(1000, 1000 + 2_592_000 * 11), "11mo ago");
    assert_eq!(format_age_at(1000, 1000 + 31_536_000 * 120), "120y ago");
    assert_eq!(format_age_at(5000, 10), "0s ago");
    assert_eq!(format_age_at(0, 99), "-");
}

fn comment(depth: usize, ancestors: Vec<bool>, last: bool) -> Comment {
    Comment {
        author: "a".to_string(),
        text: "t".to_string(),
        published_at: 1,
        depth,
        ancestor_has_next_sibling: ancestors,
        is_last_sibling: last,
    }
}

#[test]
fn tree_prefix_draws_guides_and_branches() {
    let (header, body) = tree_prefix(&comment(0, vec![], false));
    assert_eq!(header, "");
    assert_eq!(body, "   ");

    let (header, body) = tree_prefix(&comment(1, vec![true], true));
    assert_eq!(header, "   └─ ");
    assert_eq!(body, "      ");

    let (header, body) = tree_prefix(&comment(2, vec![true, true], false));
    assert_eq!(header, "   │  ├─ ");
    assert_eq!(body, "   │  │  ");
}

#[test]
fn instructions_follow_the_focused_pane() {
    assert_eq!(instructions_pane_for(Pane::Feeds), InstructionsPane::Feeds);
    assert_eq!(instructions_pane_for(Pane::Bookmarks), InstructionsPane::Bookmarks);
    assert_eq!(instructions_pane_for(Pane::Posts), InstructionsPane::Posts);
    assert_eq!(instructions_pane_for(Pane::Comments), InstructionsPane::Comments);
}
