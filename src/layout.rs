use vstd::prelude::*;

use crate::hn::{comment_views, Comment, CommentView};
use crate::text::{
    lemma_split_lines_nonempty, split_lines, split_lines_chars, string_of, trim_start, views,
};
use crate::ui::{
    age_text, body_prefix, format_age_at, header_prefix, string_views, tree_prefix, wrap_text,
    wrapped_lines, InstructionsPane,
};

verus! {

/// How a piece of text in the comments pane is drawn.
#[derive(Debug, Clone, Copy, PartialEq, Eq, Structural)]
pub enum SpanStyle {
    Plain,
    Meta,
    Indent,
    Author,
    Body,
    Quote,
    /// A key name in the instructions.
    Key,
    /// The busy indicator in the instructions.
    Busy,
}

/// A piece of text with its style.
#[derive(Debug, Clone)]
pub struct StyledSpan {
    pub text: String,
    pub style: SpanStyle,
}

pub open spec fn span_view(s: StyledSpan) -> (Seq<char>, SpanStyle) {
    (s.text@, s.style)
}

pub open spec fn line_view(l: Vec<StyledSpan>) -> Seq<(Seq<char>, SpanStyle)> {
    l@.map_values(|s: StyledSpan| span_view(s))
}

pub open spec fn lines_view(v: Seq<Vec<StyledSpan>>) -> Seq<Seq<(Seq<char>, SpanStyle)>> {
    v.map_values(|l: Vec<StyledSpan>| line_view(l))
}

// ---------------------------------------------------------------------------
// Lines of a comment's text
// ---------------------------------------------------------------------------

pub open spec fn strip_cr(l: Seq<char>) -> Seq<char> {
    if l.len() > 0 && l.last() == '\r' {
        l.drop_last()
    } else {
        l
    }
}

/// The lines of `s` as `str::lines` gives them: cut at each newline (with a
/// carriage return before it dropped), a final newline ending the last line
/// rather than starting an empty one.
pub open spec fn text_lines(s: Seq<char>) -> Seq<Seq<char>> {
    let parts = split_lines(s);
    let ended = s.len() == 0 || s.last() == '\n';
    let count = if ended {
        parts.len() - 1
    } else {
        parts.len() as int
    };
    Seq::new(
        count as nat,
        |i: int|
            if i < parts.len() - 1 {
                strip_cr(parts[i])
            } else {
                parts[i]
            },
    )
}

fn text_lines_exec(text: &str) -> (r: Vec<Vec<char>>)
    ensures
        views(r@) == text_lines(text@),
{
    let chars = crate::text::chars_of(text);
    let parts = split_lines_chars(&chars);
    proof {
        lemma_split_lines_nonempty(chars@);
    }
    let ended = chars.len() == 0 || chars[chars.len() - 1] == '\n';
    let count = if ended {
        parts.len() - 1
    } else {
        parts.len()
    };
    let ghost goal = text_lines(text@);
    let mut out: Vec<Vec<char>> = Vec::new();
    let mut i: usize = 0;
    while i < count
        invariant
            i <= count <= parts@.len(),
            parts@.len() >= 1,
            views(parts@) == split_lines(chars@),
            chars@ == text@,
            goal == text_lines(text@),
            goal.len() == count,
            views(out@) == goal.take(i as int),
        decreases count - i,
    {
        let part = &parts[i];
        assert(views(parts@)[i as int] == parts@[i as int]@);
        let mut line: Vec<char> = Vec::new();
        let n = part.len();
        let keep = if i + 1 < parts.len() && n > 0 && part[n - 1] == '\r' {
            n - 1
        } else {
            n
        };
        let mut k: usize = 0;
        while k < keep
            invariant
                k <= keep <= part@.len(),
                line@ == part@.take(k as int),
            decreases keep - k,
        {
            line.push(part[k]);
            assert(part@.take(k + 1) =~= part@.take(k as int).push(part@[k as int]));
            k += 1;
        }
        assert(line@ =~= goal[i as int]);
        let ghost before = views(out@);
        out.push(line);
        assert(views(out@) =~= before.push(goal[i as int]));
        assert(views(out@) =~= goal.take(i + 1));
        i += 1;
    }
    assert(goal.take(count as int) =~= goal);
    out
}

// ---------------------------------------------------------------------------
// The comments pane
// ---------------------------------------------------------------------------

/// A quotation: a line whose first character after white space is `>`.
pub open spec fn is_quote(l: Seq<char>) -> bool {
    trim_start(l).len() > 0 && trim_start(l)[0] == '>'
}

fn is_quote_exec(l: &Vec<char>) -> (r: bool)
    ensures
        r == is_quote(l@),
{
    let mut i: usize = 0;
    assert(l@.skip(0) =~= l@);
    while i < l.len() && crate::text::is_space_char(l[i])
        invariant
            i <= l@.len(),
            trim_start(l@.skip(i as int)) == trim_start(l@),
        decreases l@.len() - i,
    {
        assert(l@.skip(i as int).skip(1) =~= l@.skip(i + 1));
        i += 1;
    }
    i < l.len() && l[i] == '>'
}

pub open spec fn line_style(l: Seq<char>) -> SpanStyle {
    if is_quote(l) {
        SpanStyle::Quote
    } else {
        SpanStyle::Body
    }
}

/// A line of the pane: the guide prefix, if any, then the text.
pub open spec fn prefixed_line(prefix: Seq<char>, text: Seq<char>, style: SpanStyle) -> Seq<
    (Seq<char>, SpanStyle),
> {
    (if prefix.len() > 0 {
        seq![(prefix, SpanStyle::Indent)]
    } else {
        Seq::empty()
    }) + seq![(text, style)]
}

/// The width left for text after a prefix of `prefix_len`, at least 1.
pub open spec fn text_width(prefix_len: nat, content_width: nat) -> nat {
    if content_width > prefix_len + 1 {
        (content_width - prefix_len) as nat
    } else {
        1
    }
}

/// The pane lines of the text lines `ls`, each wrapped and prefixed.
pub open spec fn body_lines(prefix: Seq<char>, ls: Seq<Seq<char>>, width: nat) -> Seq<
    Seq<(Seq<char>, SpanStyle)>,
>
    decreases ls.len(),
{
    if ls.len() == 0 {
        Seq::empty()
    } else {
        let l = ls.last();
        body_lines(prefix, ls.drop_last(), width) + wrapped_lines(l, width).map_values(
            |seg: Seq<char>| prefixed_line(prefix, seg, line_style(l)),
        )
    }
}

pub open spec fn bullet() -> Seq<char> {
    seq![' ', '\u{2022}', ' ']
}

/// A comment's header line: guides and branch, author, and age at `now`.
pub open spec fn header_line(c: CommentView, now: u64) -> Seq<(Seq<char>, SpanStyle)> {
    (if header_prefix(c).len() > 0 {
        seq![(header_prefix(c), SpanStyle::Indent)]
    } else {
        Seq::empty()
    }) + seq![
        (c.author, SpanStyle::Author),
        (bullet(), SpanStyle::Meta),
        (age_text(c.published_at, now), SpanStyle::Meta),
    ]
}

/// A comment's lines: its header, then each line of its text wrapped to
/// the width left after the body prefix.
pub open spec fn comment_block(c: CommentView, content_width: nat, now: u64) -> Seq<
    Seq<(Seq<char>, SpanStyle)>,
> {
    seq![header_line(c, now)] + body_lines(
        body_prefix(c),
        text_lines(c.text),
        text_width(body_prefix(c).len(), content_width),
    )
}

/// The lines of a whole thread, comment after comment.
pub open spec fn thread_lines(cs: Seq<CommentView>, content_width: nat, now: u64) -> Seq<
    Seq<(Seq<char>, SpanStyle)>,
>
    decreases cs.len(),
{
    if cs.len() == 0 {
        Seq::empty()
    } else {
        thread_lines(cs.drop_last(), content_width, now) + comment_block(cs.last(), content_width, now)
    }
}

fn span(text: String, style: SpanStyle) -> (r: StyledSpan)
    ensures
        span_view(r) == (text@, style),
{
    StyledSpan { text, style }
}

fn push_line(lines: &mut Vec<Vec<StyledSpan>>, line: Vec<StyledSpan>)
    ensures
        lines_view(final(lines)@) == lines_view(old(lines)@).push(line_view(line)),
{
    let ghost before = lines_view(lines@);
    let ghost l = line_view(line);
    lines.push(line);
    assert(lines_view(lines@) =~= before.push(l));
}

fn prefixed_line_exec(prefix: &String, text: String, style: SpanStyle) -> (r: Vec<StyledSpan>)
    ensures
        line_view(r) == prefixed_line(prefix@, text@, style),
{
    let mut line: Vec<StyledSpan> = Vec::new();
    if !prefix.as_str().is_empty() {
        line.push(span(prefix.clone(), SpanStyle::Indent));
    }
    let ghost t = text@;
    line.push(span(text, style));
    assert(line_view(line) =~= prefixed_line(prefix@, t, style));
    line
}

fn append_comment_block(lines: &mut Vec<Vec<StyledSpan>>, comment: &Comment, content_width: usize, now: u64)
    ensures
        lines_view(final(lines)@) == lines_view(old(lines)@) + comment_block(comment@, content_width as nat, now),
{
    let (header_prefix_text, body_prefix_text) = tree_prefix(comment);
    let mut header: Vec<StyledSpan> = Vec::new();
    if !header_prefix_text.as_str().is_empty() {
        header.push(span(header_prefix_text, SpanStyle::Indent));
    }
    header.push(span(comment.author.clone(), SpanStyle::Author));
    let bullet_chars: Vec<char> = vec![' ', '\u{2022}', ' '];
    assert(bullet_chars@ =~= bullet());
    header.push(span(string_of(&bullet_chars), SpanStyle::Meta));
    header.push(span(format_age_at(comment.published_at, now), SpanStyle::Meta));
    assert(line_view(header) =~= header_line(comment@, now));
    let ghost start = lines_view(lines@);
    push_line(lines, header);
    let text = text_lines_exec(comment.text.as_str());
    let prefix_width = body_prefix_text.as_str().unicode_len();
    let width: usize = if content_width > prefix_width && content_width - prefix_width > 1 {
        content_width - prefix_width
    } else {
        1
    };
    let ghost tl = views(text@);
    let ghost bp = body_prefix_text@;
    let mut i: usize = 0;
    assert(tl.take(0) =~= Seq::<Seq<char>>::empty());
    assert(lines_view(lines@) =~= start + seq![header_line(comment@, now)] + body_lines(bp, tl.take(0), width as nat));
    while i < text.len()
        invariant
            i <= text@.len(),
            tl == views(text@),
            tl == text_lines(comment.text@),
            bp == body_prefix(comment@),
            bp == body_prefix_text@,
            width as nat == text_width(bp.len(), content_width as nat),
            lines_view(lines@) == start + seq![header_line(comment@, now)] + body_lines(bp, tl.take(i as int), width as nat),
        decreases text@.len() - i,
    {
        let l = &text[i];
        assert(tl[i as int] == l@);
        let style = if is_quote_exec(l) {
            SpanStyle::Quote
        } else {
            SpanStyle::Body
        };
        let line_text = string_of(l);
        let segments = wrap_text(line_text.as_str(), width);
        let ghost segs = string_views(segments@);
        let ghost base = lines_view(lines@);
        let mut j: usize = 0;
        assert(segs.take(0).map_values(|seg: Seq<char>| prefixed_line(bp, seg, style)) =~= Seq::<Seq<(Seq<char>, SpanStyle)>>::empty());
        assert(base + Seq::<Seq<(Seq<char>, SpanStyle)>>::empty() =~= base);
        while j < segments.len()
            invariant
                j <= segments@.len(),
                segs == string_views(segments@),
                bp == body_prefix_text@,
                lines_view(lines@) == base + segs.take(j as int).map_values(|seg: Seq<char>| prefixed_line(bp, seg, style)),
            decreases segments@.len() - j,
        {
            let seg = segments[j].clone();
            assert(segs[j as int] == seg@);
            let line = prefixed_line_exec(&body_prefix_text, seg, style);
            push_line(lines, line);
            assert(segs.take(j + 1).map_values(|s: Seq<char>| prefixed_line(bp, s, style)) =~= segs.take(j as int).map_values(|s: Seq<char>| prefixed_line(bp, s, style)).push(prefixed_line(bp, segs[j as int], style)));
            j += 1;
        }
        assert(segs.take(segs.len() as int) =~= segs);
        let ghost upto = tl.take(i + 1);
        assert(upto.drop_last() =~= tl.take(i as int));
        assert(upto.last() == l@);
        assert(segs == wrapped_lines(l@, width as nat));
        assert(style == line_style(l@));
        assert(lines_view(lines@) =~= start + seq![header_line(comment@, now)] + body_lines(bp, upto, width as nat));
        i += 1;
    }
    assert(tl.take(tl.len() as int) =~= tl);
    assert(lines_view(lines@) =~= lines_view(old(lines)@) + comment_block(comment@, content_width as nat, now));
}

fn single_line(text: String, style: SpanStyle) -> (r: (Vec<Vec<StyledSpan>>, Vec<u16>))
    ensures
        lines_view(r.0@) == seq![seq![(text@, style)]],
        r.1@.len() == 0,
{
    let mut lines: Vec<Vec<StyledSpan>> = Vec::new();
    let mut line: Vec<StyledSpan> = Vec::new();
    let ghost t = text@;
    line.push(span(text, style));
    assert(line_view(line) =~= seq![(t, style)]);
    push_line(&mut lines, line);
    assert(lines_view(lines@) =~= seq![seq![(t, style)]]);
    (lines, Vec::new())
}

/// The lines of the comments pane, and the line at which each comment
/// starts. Before a post is opened, while a first load runs, for a notice,
/// an error or an empty thread, the pane holds one line saying so.
pub fn comment_lines(
    spinner: &str,
    content_width: usize,
    comments_for_post_id: Option<u64>,
    comments_loading: bool,
    comments_notice: Option<&str>,
    comments_error: Option<&str>,
    comments: &[Comment],
    now: u64,
) -> (r: (Vec<Vec<StyledSpan>>, Vec<u16>))
    ensures
        comments_for_post_id is None ==> lines_view(r.0@) == seq![
            seq![("Press Enter on a post to load comments."@, SpanStyle::Plain)],
        ] && r.1@.len() == 0,
        comments_for_post_id is Some && comments_loading && comments@.len() == 0 ==> lines_view(r.0@)
            == seq![seq![("Loading comments "@ + spinner@, SpanStyle::Plain)]] && r.1@.len() == 0,
        comments_for_post_id is Some && !(comments_loading && comments@.len() == 0)
            && comments_notice is Some ==> lines_view(r.0@) == seq![
            seq![(comments_notice->Some_0@, SpanStyle::Meta)],
        ] && r.1@.len() == 0,
        comments_for_post_id is Some && !(comments_loading && comments@.len() == 0)
            && comments_notice is None && comments_error is Some ==> lines_view(r.0@) == seq![
            seq![("Failed to load comments: "@ + comments_error->Some_0@, SpanStyle::Plain)],
        ] && r.1@.len() == 0,
        comments_for_post_id is Some && comments_notice is None && comments_error is None
            && comments@.len() == 0 && !comments_loading ==> lines_view(r.0@) == seq![
            seq![("No comments found."@, SpanStyle::Plain)],
        ] && r.1@.len() == 0,
        comments_for_post_id is Some && comments_notice is None && comments_error is None
            && comments@.len() > 0 ==> {
            let cs = comment_views(comments@);
            &&& lines_view(r.0@) == thread_lines(cs, content_width as nat, now)
            &&& r.1@.len() == comments@.len()
            &&& forall|i: int|
                0 <= i < comments@.len() ==> #[trigger] r.1@[i] == thread_lines(
                    cs.take(i),
                    content_width as nat,
                    now,
                ).len() as u16
        },
{
    if comments_for_post_id.is_none() {
        return single_line(String::from_str("Press Enter on a post to load comments."), SpanStyle::Plain);
    }
    if comments_loading && comments.len() == 0 {
        let mut text = String::from_str("Loading comments ");
        text.append(spinner);
        return single_line(text, SpanStyle::Plain);
    }
    match comments_notice {
        Some(message) => {
            return single_line(String::from_str(message), SpanStyle::Meta);
        },
        None => {},
    }
    match comments_error {
        Some(err) => {
            let mut text = String::from_str("Failed to load comments: ");
            text.append(err);
            return single_line(text, SpanStyle::Plain);
        },
        None => {},
    }
    if comments.len() == 0 {
        return single_line(String::from_str("No comments found."), SpanStyle::Plain);
    }
    let ghost cs = comment_views(comments@);
    let mut lines: Vec<Vec<StyledSpan>> = Vec::new();
    let mut starts: Vec<u16> = Vec::new();
    let mut i: usize = 0;
    assert(cs.take(0) =~= Seq::<CommentView>::empty());
    assert(lines_view(lines@) =~= thread_lines(cs.take(0), content_width as nat, now));
    while i < comments.len()
        invariant
            i <= comments@.len(),
            cs == comment_views(comments@),
            lines_view(lines@) == thread_lines(cs.take(i as int), content_width as nat, now),
            starts@.len() == i,
            forall|k: int|
                0 <= k < i ==> #[trigger] starts@[k] == thread_lines(
                    cs.take(k),
                    content_width as nat,
                    now,
                ).len() as u16,
        decreases comments@.len() - i,
    {
        assert(lines_view(lines@).len() == lines@.len());
        starts.push(lines.len() as u16);
        append_comment_block(&mut lines, &comments[i], content_width, now);
        let ghost upto = cs.take(i + 1);
        assert(upto.drop_last() =~= cs.take(i as int));
        assert(upto.last() == comments@[i as int]@);
        i += 1;
    }
    assert(cs.take(cs.len() as int) =~= cs);
    (lines, starts)
}


// ---------------------------------------------------------------------------
// The instructions line
// ---------------------------------------------------------------------------

pub open spec fn plain(t: Seq<char>) -> (Seq<char>, SpanStyle) {
    (t, SpanStyle::Plain)
}

pub open spec fn key(t: Seq<char>) -> (Seq<char>, SpanStyle) {
    (t, SpanStyle::Key)
}

pub open spec fn quit_hint() -> Seq<(Seq<char>, SpanStyle)> {
    seq![plain(" Quit "@), key("<Q> "@)]
}

/// The keys of the focused pane.
pub open spec fn pane_instructions(
    pane: InstructionsPane,
    comments_open: bool,
    bookmarks_collapsed: bool,
    loading: bool,
    spinner: Seq<char>,
) -> Seq<(Seq<char>, SpanStyle)> {
    match pane {
        InstructionsPane::Feeds => seq![plain("Switch feed "@), key("<Left/Right/H/L>"@)]
            + quit_hint(),
        InstructionsPane::Posts => (if loading {
            seq![("Refreshing "@, SpanStyle::Busy), (spinner, SpanStyle::Busy), plain(" "@)]
        } else {
            seq![plain("Refresh "@), key("<R>"@), plain(" "@)]
        }) + seq![
            plain("Move "@),
            key("<Up/Down/J/K>"@),
            plain(" Bookmark "@),
            key("<B>"@),
            plain(" Comments "@),
            key("<Enter>"@),
            plain(" Open "@),
            key("<O>"@),
        ] + (if comments_open {
            seq![plain(" Close comments "@), key("<Esc>"@)]
        } else {
            Seq::empty()
        }) + quit_hint(),
        InstructionsPane::Bookmarks => (if bookmarks_collapsed {
            seq![plain("Expand "@), key("<Enter/Right/L>"@), plain(" Close "@), key("<Esc>"@)]
        } else {
            seq![
                plain("Move "@),
                key("<Up/Down/J/K>"@),
                plain(" Comments "@),
                key("<Enter>"@),
                plain(" Open "@),
                key("<O>"@),
                plain(" Open all "@),
                key("<A>"@),
                plain(" Delete "@),
                key("<D/Del/Bksp>"@),
                plain(" Close "@),
                key("<Esc>"@),
            ]
        }) + quit_hint(),
        InstructionsPane::Comments => seq![
            plain("Navigate "@),
            key("<Up/Down/Left/Right>"@),
            plain(" Bookmark "@),
            key("<B>"@),
            plain(" Open "@),
            key("<O>"@),
            plain(" Close "@),
            key("<Esc>"@),
        ] + quit_hint(),
    }
}

/// The instructions line: how to move between panes, the keys of the
/// focused pane, and a note when the bookmarks pane is focused but empty.
pub open spec fn instructions(
    pane: InstructionsPane,
    comments_open: bool,
    bookmarks_visible: bool,
    bookmarks_collapsed: bool,
    loading: bool,
    spinner: Seq<char>,
) -> Seq<(Seq<char>, SpanStyle)> {
    seq![plain("Pane "@), key("<Tab/Shift-Tab>"@), plain(" "@)] + pane_instructions(
        pane,
        comments_open,
        bookmarks_collapsed,
        loading,
        spinner,
    ) + (if pane == InstructionsPane::Bookmarks && !bookmarks_visible {
        seq![plain(" "@), plain("(No bookmarks yet)"@)]
    } else {
        Seq::empty()
    })
}

fn push_span(line: &mut Vec<StyledSpan>, text: &str, style: SpanStyle)
    ensures
        line_view(*final(line)) == line_view(*old(line)).push((text@, style)),
{
    let ghost before = line_view(*line);
    line.push(span(String::from_str(text), style));
    assert(line_view(*line) =~= before.push((text@, style)));
}

fn push_quit_hint(line: &mut Vec<StyledSpan>)
    ensures
        line_view(*final(line)) == line_view(*old(line)) + quit_hint(),
{
    let ghost before = line_view(*line);
    push_span(line, " Quit ", SpanStyle::Plain);
    push_span(line, "<Q> ", SpanStyle::Key);
    assert(line_view(*line) =~= before + quit_hint());
}

/// The instructions line (see `instructions`).
pub fn instructions_line(
    active_pane: InstructionsPane,
    comments_open: bool,
    bookmarks_visible: bool,
    bookmarks_collapsed: bool,
    loading: bool,
    spinner: &str,
) -> (r: Vec<StyledSpan>)
    ensures
        line_view(r) == instructions(
            active_pane,
            comments_open,
            bookmarks_visible,
            bookmarks_collapsed,
            loading,
            spinner@,
        ),
{
    let mut line: Vec<StyledSpan> = Vec::new();
    push_span(&mut line, "Pane ", SpanStyle::Plain);
    push_span(&mut line, "<Tab/Shift-Tab>", SpanStyle::Key);
    push_span(&mut line, " ", SpanStyle::Plain);
    let ghost head = line_view(line);
    match active_pane {
        InstructionsPane::Feeds => {
            push_span(&mut line, "Switch feed ", SpanStyle::Plain);
            push_span(&mut line, "<Left/Right/H/L>", SpanStyle::Key);
            push_quit_hint(&mut line);
        },
        InstructionsPane::Posts => {
            if loading {
                push_span(&mut line, "Refreshing ", SpanStyle::Busy);
                push_span(&mut line, spinner, SpanStyle::Busy);
                push_span(&mut line, " ", SpanStyle::Plain);
            } else {
                push_span(&mut line, "Refresh ", SpanStyle::Plain);
                push_span(&mut line, "<R>", SpanStyle::Key);
                push_span(&mut line, " ", SpanStyle::Plain);
            }
            push_span(&mut line, "Move ", SpanStyle::Plain);
            push_span(&mut line, "<Up/Down/J/K>", SpanStyle::Key);
            push_span(&mut line, " Bookmark ", SpanStyle::Plain);
            push_span(&mut line, "<B>", SpanStyle::Key);
            push_span(&mut line, " Comments ", SpanStyle::Plain);
            push_span(&mut line, "<Enter>", SpanStyle::Key);
            push_span(&mut line, " Open ", SpanStyle::Plain);
            push_span(&mut line, "<O>", SpanStyle::Key);
            if comments_open {
                push_span(&mut line, " Close comments ", SpanStyle::Plain);
                push_span(&mut line, "<Esc>", SpanStyle::Key);
            }
            push_quit_hint(&mut line);
        },
        InstructionsPane::Bookmarks => {
            if bookmarks_collapsed {
                push_span(&mut line, "Expand ", SpanStyle::Plain);
                push_span(&mut line, "<Enter/Right/L>", SpanStyle::Key);
                push_span(&mut line, " Close ", SpanStyle::Plain);
                push_span(&mut line, "<Esc>", SpanStyle::Key);
            } else {
                push_span(&mut line, "Move ", SpanStyle::Plain);
                push_span(&mut line, "<Up/Down/J/K>", SpanStyle::Key);
                push_span(&mut line, " Comments ", SpanStyle::Plain);
                push_span(&mut line, "<Enter>", SpanStyle::Key);
                push_span(&mut line, " Open ", SpanStyle::Plain);
                push_span(&mut line, "<O>", SpanStyle::Key);
                push_span(&mut line, " Open all ", SpanStyle::Plain);
                push_span(&mut line, "<A>", SpanStyle::Key);
                push_span(&mut line, " Delete ", SpanStyle::Plain);
                push_span(&mut line, "<D/Del/Bksp>", SpanStyle::Key);
                push_span(&mut line, " Close ", SpanStyle::Plain);
                push_span(&mut line, "<Esc>", SpanStyle::Key);
            }
            push_quit_hint(&mut line);
        },
        InstructionsPane::Comments => {
            push_span(&mut line, "Navigate ", SpanStyle::Plain);
            push_span(&mut line, "<Up/Down/Left/Right>", SpanStyle::Key);
            push_span(&mut line, " Bookmark ", SpanStyle::Plain);
            push_span(&mut line, "<B>", SpanStyle::Key);
            push_span(&mut line, " Open ", SpanStyle::Plain);
            push_span(&mut line, "<O>", SpanStyle::Key);
            push_span(&mut line, " Close ", SpanStyle::Plain);
            push_span(&mut line, "<Esc>", SpanStyle::Key);
            push_quit_hint(&mut line);
        },
    }
    assert(line_view(line) =~= head + pane_instructions(
        active_pane,
        comments_open,
        bookmarks_collapsed,
        loading,
        spinner@,
    ));
    let ghost body = line_view(line);
    if active_pane == InstructionsPane::Bookmarks && !bookmarks_visible {
        push_span(&mut line, " ", SpanStyle::Plain);
        push_span(&mut line, "(No bookmarks yet)", SpanStyle::Plain);
    }
    assert(line_view(line) =~= instructions(
        active_pane,
        comments_open,
        bookmarks_visible,
        bookmarks_collapsed,
        loading,
        spinner@,
    ));
    line
}

} // verus!
