use lazynews::text::{clean_comment_text, decode_html_entities, str_equals, strip_html_tags};

#[test]
fn clean_comment_text_normalizes_html_and_entities() {
    let cleaned = clean_comment_text(
        "<p>Hello &amp; <em>world</em></p><p>Line 2</p><br />&quot;quote&quot;",
    );

    assert_eq!(cleaned, "Hello & world\nLine 2\n\"quote\"");
}

#[test]
fn clean_comment_text_collapses_extra_blank_lines() {
    let cleaned = clean_comment_text("<p>One</p><p></p><p></p><p>Two</p>");

    assert_eq!(cleaned, "One\n\nTwo");
}

#[test]
fn clean_comment_text_trims_each_line_and_the_whole() {
    let cleaned = clean_comment_text("  <p>  a  </p>\n\n\n<br>  b\t\n  ");
    assert_eq!(cleaned, "a\n\nb");
}

#[test]
fn clean_comment_text_of_empty_and_markup_only_is_empty() {
    assert_eq!(clean_comment_text(""), "");
    assert_eq!(clean_comment_text("<p></p><br/>"), "");
}

#[test]
fn strip_html_tags_removes_tags_only() {
    assert_eq!(strip_html_tags("a<b>c</b>d<i x=\"1\">e"), "acde");
    assert_eq!(strip_html_tags("no tags"), "no tags");
}

#[test]
fn decode_html_entities_decodes_each_entity() {
    assert_eq!(
        decode_html_entities("&quot;&#x27;&#x2F;&amp;&lt;&gt;"),
        "\"'/&<>"
    );
    assert_eq!(decode_html_entities("&amp;lt;"), "&lt;");
    assert_eq!(decode_html_entities("&amp;lt;b&amp;gt;"), "&lt;b&gt;");
    assert_eq!(decode_html_entities("&amp;amp;"), "&amp;");
    assert_eq!(decode_html_entities("&nbsp;"), "&nbsp;");
}

#[test]
fn str_equals_compares_characters() {
    assert!(str_equals("story", "story"));
    assert!(!str_equals("story", "stork"));
    assert!(!str_equals("job", "jobs"));
}
