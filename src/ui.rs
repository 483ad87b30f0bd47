use vstd::prelude::*;

use crate::hn::{Comment, CommentView};
use crate::text::{chars_of, is_space, push_all, string_of};

verus! {

// ---------------------------------------------------------------------------
// Panes
// ---------------------------------------------------------------------------

#[derive(Debug, Clone, Copy, PartialEq, Eq, Structural)]
pub enum InstructionsPane {
    Feeds,
    Bookmarks,
    Posts,
    Comments,
}

#[derive(Debug, Clone, Copy, PartialEq, Eq, Structural)]
pub enum Pane {
    Feeds,
    Bookmarks,
    Posts,
    Comments,
}

/// The key instructions that go with a focused pane.
pub fn instructions_pane_for(pane: Pane) -> (r: InstructionsPane)
    ensures
        r == match pane {
            Pane::Feeds => InstructionsPane::Feeds,
            Pane::Bookmarks => InstructionsPane::Bookmarks,
            Pane::Posts => InstructionsPane::Posts,
            Pane::Comments => InstructionsPane::Comments,
        },
{
    match pane {
        Pane::Feeds => InstructionsPane::Feeds,
        Pane::Bookmarks => InstructionsPane::Bookmarks,
        Pane::Posts => InstructionsPane::Posts,
        Pane::Comments => InstructionsPane::Comments,
    }
}

// ---------------------------------------------------------------------------
// Word wrapping
// ---------------------------------------------------------------------------

/// The words of `s`: its maximal runs of characters other than white space.
pub open spec fn words_of(s: Seq<char>) -> Seq<Seq<char>>
    decreases s.len(),
{
    if s.len() == 0 {
        Seq::empty()
    } else {
        let prev = words_of(s.drop_last());
        let c = s.last();
        if is_space(c) {
            prev
        } else if s.len() >= 2 && !is_space(s[s.len() - 2]) {
            prev.update(prev.len() - 1, prev.last().push(c))
        } else {
            prev.push(seq![c])
        }
    }
}

/// Lines done so far, and the line being filled.
pub struct WrapState {
    pub lines: Seq<Seq<char>>,
    pub current: Seq<char>,
}

/// Places one word: on the current line after a space when it fits, else
/// on a new line; a word longer than the width is cut into chunks of
/// `width` characters, each on a line of its own, the last one left to fill.
pub open spec fn place_word(st: WrapState, word: Seq<char>, width: nat) -> WrapState
    decreases word.len(),
{
    if word.len() == 0 || width == 0 {
        st
    } else if word.len() <= width {
        if st.current.len() == 0 {
            WrapState { lines: st.lines, current: word }
        } else if st.current.len() + 1 + word.len() <= width {
            WrapState { lines: st.lines, current: st.current + seq![' '] + word }
        } else {
            WrapState { lines: st.lines.push(st.current), current: word }
        }
    } else {
        let flushed = if st.current.len() > 0 {
            st.lines.push(st.current)
        } else {
            st.lines
        };
        place_word(
            WrapState { lines: flushed.push(word.take(width as int)), current: Seq::empty() },
            word.skip(width as int),
            width,
        )
    }
}

pub open spec fn place_words(words: Seq<Seq<char>>, width: nat) -> WrapState
    decreases words.len(),
{
    if words.len() == 0 {
        WrapState { lines: Seq::empty(), current: Seq::empty() }
    } else {
        place_word(place_words(words.drop_last(), width), words.last(), width)
    }
}

/// `input` wrapped greedily to lines of at most `width` characters, words
/// joined by single spaces; one empty line when nothing is left to show.
pub open spec fn wrapped_lines(input: Seq<char>, width: nat) -> Seq<Seq<char>> {
    if input.len() == 0 || width == 0 {
        seq![Seq::empty()]
    } else {
        let st = place_words(words_of(input), width);
        let lines = if st.current.len() > 0 {
            st.lines.push(st.current)
        } else {
            st.lines
        };
        if lines.len() == 0 {
            seq![Seq::empty()]
        } else {
            lines
        }
    }
}

pub open spec fn char_views(v: Seq<Vec<char>>) -> Seq<Seq<char>> {
    v.map_values(|l: Vec<char>| l@)
}

pub open spec fn string_views(v: Seq<String>) -> Seq<Seq<char>> {
    v.map_values(|l: String| l@)
}

proof fn lemma_words_nonempty(s: Seq<char>)
    ensures
        s.len() > 0 && !is_space(s.last()) ==> words_of(s).len() > 0,
    decreases s.len(),
{
    if s.len() >= 2 {
        lemma_words_nonempty(s.drop_last());
    }
}

fn split_words(s: &Vec<char>) -> (r: Vec<Vec<char>>)
    ensures
        char_views(r@) == words_of(s@),
{
    let mut words: Vec<Vec<char>> = Vec::new();
    let mut i: usize = 0;
    assert(s@.take(0) =~= Seq::<char>::empty());
    assert(char_views(words@) =~= Seq::<Seq<char>>::empty());
    while i < s.len()
        invariant
            i <= s@.len(),
            char_views(words@) == words_of(s@.take(i as int)),
        decreases s@.len() - i,
    {
        let c = s[i];
        let ghost pre = s@.take(i as int);
        let ghost prev = char_views(words@);
        assert(s@.take(i + 1).drop_last() =~= pre);
        assert(s@.take(i + 1).last() == c);
        if crate::text::is_space_char(c) {
        } else if i >= 1 && !crate::text::is_space_char(s[i - 1]) {
            assert(s@.take(i + 1)[i - 1] == s@[i - 1]);
            assert(pre.last() == s@[i - 1]);
            proof {
                lemma_words_nonempty(pre);
            }
            let mut w = words.pop().unwrap();
            w.push(c);
            words.push(w);
            assert(char_views(words@) =~= prev.update(prev.len() - 1, prev.last().push(c)));
        } else {
            proof {
                if i >= 1 {
                    assert(s@.take(i + 1)[i - 1] == s@[i - 1]);
                }
            }
            let mut w: Vec<char> = Vec::new();
            w.push(c);
            words.push(w);
            assert(char_views(words@) =~= prev.push(seq![c]));
        }
        i += 1;
    }
    assert(s@.take(s@.len() as int) =~= s@);
    words
}


fn copy_range(v: &Vec<char>, lo: usize, hi: usize) -> (r: Vec<char>)
    requires
        lo <= hi <= v@.len(),
    ensures
        r@ == v@.subrange(lo as int, hi as int),
{
    let mut out: Vec<char> = Vec::new();
    let mut i: usize = lo;
    while i < hi
        invariant
            lo <= i <= hi <= v@.len(),
            out@ == v@.subrange(lo as int, i as int),
        decreases hi - i,
    {
        out.push(v[i]);
        assert(v@.subrange(lo as int, i + 1) =~= v@.subrange(lo as int, i as int).push(v@[i as int]));
        i += 1;
    }
    out
}

/// Moves the line being filled onto the finished lines.
fn flush_line(lines: &mut Vec<Vec<char>>, current: &mut Vec<char>)
    ensures
        char_views(final(lines)@) == char_views(old(lines)@).push(old(current)@),
        final(current)@.len() == 0,
{
    let mut done: Vec<char> = Vec::new();
    std::mem::swap(current, &mut done);
    let ghost before = char_views(lines@);
    lines.push(done);
    assert(char_views(lines@) =~= before.push(done@));
}

fn place_word_exec(lines: &mut Vec<Vec<char>>, current: &mut Vec<char>, word: &Vec<char>, width: usize)
    ensures
        place_word(WrapState { lines: char_views(old(lines)@), current: old(current)@ }, word@, width as nat)
            == (WrapState { lines: char_views(final(lines)@), current: final(current)@ }),
{
    let ghost goal = place_word(
        WrapState { lines: char_views(lines@), current: current@ },
        word@,
        width as nat,
    );
    let mut start: usize = 0;
    assert(word@.skip(0) =~= word@);
    while start < word.len() && width > 0
        invariant
            start <= word@.len(),
            goal == place_word(
                WrapState { lines: char_views(lines@), current: current@ },
                word@.skip(start as int),
                width as nat,
            ),
        decreases word@.len() - start,
    {
        let rest_len = word.len() - start;
        let ghost rest = word@.skip(start as int);
        if rest_len <= width {
            let piece = copy_range(word, start, word.len());
            assert(piece@ =~= rest);
            if current.len() == 0 {
                *current = piece;
            } else if current.len() < width && rest_len <= width - current.len() - 1 {
                let ghost cur = current@;
                current.push(' ');
                push_all(current, &piece);
                assert(current@ =~= cur + seq![' '] + rest);
            } else {
                flush_line(lines, current);
                *current = piece;
            }
            start = word.len();
            assert(word@.skip(start as int) =~= Seq::<char>::empty());
        } else {
            let ghost st = WrapState { lines: char_views(lines@), current: current@ };
            if current.len() > 0 {
                flush_line(lines, current);
            }
            assert(current@ =~= Seq::<char>::empty());
            let chunk = copy_range(word, start, start + width);
            assert(chunk@ =~= rest.take(width as int));
            let ghost before = char_views(lines@);
            lines.push(chunk);
            assert(char_views(lines@) =~= before.push(chunk@));
            assert(rest.skip(width as int) =~= word@.skip(start + width));
            start = start + width;
        }
    }
    assert(start < word@.len() ==> width == 0);
}

/// `input` wrapped to lines of at most `width` characters (see
/// `wrapped_lines`).
pub fn wrap_text(input: &str, width: usize) -> (r: Vec<String>)
    ensures
        string_views(r@) == wrapped_lines(input@, width as nat),
{
    let chars = chars_of(input);
    let mut lines: Vec<Vec<char>> = Vec::new();
    if chars.len() > 0 && width > 0 {
        let words = split_words(&chars);
        let mut current: Vec<char> = Vec::new();
        let mut i: usize = 0;
        assert(words@.take(0) =~= Seq::<Vec<char>>::empty());
        assert(char_views(words@).take(0) =~= Seq::<Seq<char>>::empty());
        assert(char_views(lines@) =~= Seq::<Seq<char>>::empty());
        while i < words.len()
            invariant
                i <= words@.len(),
                place_words(char_views(words@).take(i as int), width as nat) == (WrapState {
                    lines: char_views(lines@),
                    current: current@,
                }),
            decreases words@.len() - i,
        {
            let ghost upto = char_views(words@).take(i + 1);
            assert(upto.drop_last() =~= char_views(words@).take(i as int));
            assert(upto.last() == words@[i as int]@);
            place_word_exec(&mut lines, &mut current, &words[i], width);
            i += 1;
        }
        assert(char_views(words@).take(words@.len() as int) =~= char_views(words@));
        if current.len() > 0 {
            flush_line(&mut lines, &mut current);
        }
    }
    let ghost made = char_views(lines@);
    if lines.len() == 0 {
        lines.push(Vec::new());
        assert(char_views(lines@) =~= seq![Seq::<char>::empty()]);
    }
    let mut out: Vec<String> = Vec::new();
    let mut k: usize = 0;
    while k < lines.len()
        invariant
            k <= lines@.len(),
            string_views(out@) == char_views(lines@).take(k as int),
        decreases lines@.len() - k,
    {
        let line = string_of(&lines[k]);
        let ghost before = string_views(out@);
        out.push(line);
        assert(string_views(out@) =~= before.push(line@));
        assert(string_views(out@) =~= char_views(lines@).take(k + 1));
        k += 1;
    }
    assert(char_views(lines@).take(lines@.len() as int) =~= char_views(lines@));
    out
}


// ---------------------------------------------------------------------------
// Thread guides
// ---------------------------------------------------------------------------

pub open spec fn blank_segment() -> Seq<char> {
    seq![' ', ' ', ' ']
}

pub open spec fn bar_segment() -> Seq<char> {
    seq!['\u{2502}', ' ', ' ']
}

/// The guide drawn for the ancestor at `level`: a bar while it still has a
/// later sibling, except for the outermost level.
pub open spec fn guide_segment(level: int, has_next: bool) -> Seq<char> {
    if level > 0 && has_next {
        bar_segment()
    } else {
        blank_segment()
    }
}

pub open spec fn guides(ancestors: Seq<bool>) -> Seq<char>
    decreases ancestors.len(),
{
    if ancestors.len() == 0 {
        Seq::empty()
    } else {
        guides(ancestors.drop_last()) + guide_segment(ancestors.len() - 1, ancestors.last())
    }
}

/// What precedes a comment's header line: the guides, then a branch for a
/// reply (a corner for the last sibling).
pub open spec fn header_prefix(c: CommentView) -> Seq<char> {
    guides(c.ancestor_has_next_sibling) + if c.depth > 0 {
        if c.is_last_sibling {
            seq!['\u{2514}', '\u{2500}', ' ']
        } else {
            seq!['\u{251c}', '\u{2500}', ' ']
        }
    } else {
        Seq::empty()
    }
}

/// What precedes each line of a comment's body: an indent for a top-level
/// comment, the guides, then a bar under a reply that has later siblings.
pub open spec fn body_prefix(c: CommentView) -> Seq<char> {
    (if c.depth == 0 {
        blank_segment()
    } else {
        Seq::empty()
    }) + guides(c.ancestor_has_next_sibling) + if c.depth > 0 {
        if c.is_last_sibling {
            blank_segment()
        } else {
            bar_segment()
        }
    } else {
        Seq::empty()
    }
}

fn push_segment(s: &mut Vec<char>, a: char)
    ensures
        final(s)@ == old(s)@ + seq![a, ' ', ' '],
{
    let ghost start = s@;
    s.push(a);
    s.push(' ');
    s.push(' ');
    assert(s@ =~= start + seq![a, ' ', ' ']);
}

/// The header and body prefixes of a comment.
pub fn tree_prefix(comment: &Comment) -> (r: (String, String))
    ensures
        r.0@ == header_prefix(comment@),
        r.1@ == body_prefix(comment@),
{
    let ghost anc = comment.ancestor_has_next_sibling@;
    let mut header: Vec<char> = Vec::new();
    let mut body: Vec<char> = Vec::new();
    if comment.depth == 0 {
        push_segment(&mut body, ' ');
    }
    let ghost lead = body@;
    let mut level: usize = 0;
    assert(anc.take(0) =~= Seq::<bool>::empty());
    assert(header@ =~= guides(anc.take(0)));
    assert(body@ =~= lead + guides(anc.take(0)));
    while level < comment.ancestor_has_next_sibling.len()
        invariant
            level <= anc.len(),
            anc == comment.ancestor_has_next_sibling@,
            header@ == guides(anc.take(level as int)),
            body@ == lead + guides(anc.take(level as int)),
        decreases anc.len() - level,
    {
        let ghost upto = anc.take(level + 1);
        assert(upto.drop_last() =~= anc.take(level as int));
        assert(upto.last() == anc[level as int]);
        let ghost before_body = body@;
        if level > 0 && comment.ancestor_has_next_sibling[level] {
            push_segment(&mut header, '\u{2502}');
            push_segment(&mut body, '\u{2502}');
        } else {
            push_segment(&mut header, ' ');
            push_segment(&mut body, ' ');
        }
        assert(body@ =~= lead + guides(upto));
        level += 1;
    }
    assert(anc.take(anc.len() as int) =~= anc);
    if comment.depth > 0 {
        let ghost h = header@;
        let ghost b = body@;
        if comment.is_last_sibling {
            header.push('\u{2514}');
            header.push('\u{2500}');
            header.push(' ');
            push_segment(&mut body, ' ');
            assert(header@ =~= h + seq!['\u{2514}', '\u{2500}', ' ']);
        } else {
            header.push('\u{251c}');
            header.push('\u{2500}');
            header.push(' ');
            push_segment(&mut body, '\u{2502}');
            assert(header@ =~= h + seq!['\u{251c}', '\u{2500}', ' ']);
        }
        assert(lead =~= Seq::<char>::empty());
        assert(body@ =~= lead + guides(anc) + body@.skip(b.len() as int));
    } else {
        assert(header@ =~= guides(anc) + Seq::<char>::empty());
        assert(body@ =~= blank_segment() + guides(anc) + Seq::<char>::empty());
    }
    (string_of(&header), string_of(&body))
}

// ---------------------------------------------------------------------------
// Ages
// ---------------------------------------------------------------------------

pub open spec fn digit_char(d: nat) -> char {
    seq!['0', '1', '2', '3', '4', '5', '6', '7', '8', '9'][d as int]
}

/// The decimal digits of `n`.
pub open spec fn decimal(n: nat) -> Seq<char>
    decreases n,
{
    if n < 10 {
        seq![digit_char(n)]
    } else {
        decimal(n / 10).push(digit_char(n % 10))
    }
}

pub fn decimal_chars(n: u64) -> (r: Vec<char>)
    ensures
        r@ == decimal(n as nat),
    decreases n,
{
    let digits: Vec<char> = vec!['0', '1', '2', '3', '4', '5', '6', '7', '8', '9'];
    assert(digits@ =~= seq!['0', '1', '2', '3', '4', '5', '6', '7', '8', '9']);
    if n < 10 {
        let mut r: Vec<char> = Vec::new();
        r.push(digits[n as usize]);
        assert(r@ =~= seq![digit_char(n as nat)]);
        r
    } else {
        let mut r = decimal_chars(n / 10);
        r.push(digits[(n % 10) as usize]);
        r
    }
}

pub open spec fn ago(unit: Seq<char>) -> Seq<char> {
    unit + seq![' ', 'a', 'g', 'o']
}

/// How long ago `unix_seconds` was at `now`, in the largest whole unit
/// that fits (seconds, minutes, hours, days, weeks, months of 30 days,
/// years of 365 days); a dash for a missing (zero) timestamp.
pub open spec fn age_text(unix_seconds: u64, now: u64) -> Seq<char> {
    let e: nat = if now > unix_seconds {
        (now - unix_seconds) as nat
    } else {
        0
    };
    if unix_seconds == 0 {
        seq!['-']
    } else if e < 60 {
        decimal(e) + ago(seq!['s'])
    } else if e < 3600 {
        decimal(e / 60) + ago(seq!['m'])
    } else if e < 86400 {
        decimal(e / 3600) + ago(seq!['h'])
    } else if e < 604800 {
        decimal(e / 86400) + ago(seq!['d'])
    } else if e < 2592000 {
        decimal(e / 604800) + ago(seq!['w'])
    } else if e < 31536000 {
        decimal(e / 2592000) + ago(seq!['m', 'o'])
    } else {
        decimal(e / 31536000) + ago(seq!['y'])
    }
}

/// The age of `unix_seconds` at `now` (see `age_text`).
pub fn format_age_at(unix_seconds: u64, now: u64) -> (r: String)
    ensures
        r@ == age_text(unix_seconds, now),
{
    if unix_seconds == 0 {
        let dash: Vec<char> = vec!['-'];
        assert(dash@ =~= seq!['-']);
        return string_of(&dash);
    }
    let elapsed: u64 = if now > unix_seconds {
        now - unix_seconds
    } else {
        0
    };
    let (count, unit): (u64, Vec<char>) = if elapsed < 60 {
        (elapsed, vec!['s'])
    } else if elapsed < 3600 {
        (elapsed / 60, vec!['m'])
    } else if elapsed < 86400 {
        (elapsed / 3600, vec!['h'])
    } else if elapsed < 604800 {
        (elapsed / 86400, vec!['d'])
    } else if elapsed < 2592000 {
        (elapsed / 604800, vec!['w'])
    } else if elapsed < 31536000 {
        (elapsed / 2592000, vec!['m', 'o'])
    } else {
        (elapsed / 31536000, vec!['y'])
    };
    let mut text = decimal_chars(count);
    let ghost digits = text@;
    push_all(&mut text, &unit);
    let suffix: Vec<char> = vec![' ', 'a', 'g', 'o'];
    push_all(&mut text, &suffix);
    assert(suffix@ =~= seq![' ', 'a', 'g', 'o']);
    assert(text@ =~= digits + ago(unit@));
    proof {
        if elapsed < 60 {
            assert(unit@ =~= seq!['s']);
        } else if elapsed < 3600 {
            assert(unit@ =~= seq!['m']);
        } else if elapsed < 86400 {
            assert(unit@ =~= seq!['h']);
        } else if elapsed < 604800 {
            assert(unit@ =~= seq!['d']);
        } else if elapsed < 2592000 {
            assert(unit@ =~= seq!['w']);
        } else if elapsed < 31536000 {
            assert(unit@ =~= seq!['m', 'o']);
        } else {
            assert(unit@ =~= seq!['y']);
        }
    }
    string_of(&text)
}

/// Relies on `SystemTime::now`, read as whole seconds since the Unix epoch
/// (0 for a clock set before it). Nothing is promised of the value.
#[verifier::external_body]
fn now_unix_secs() -> u64 {
    std::time::SystemTime::now().duration_since(std::time::UNIX_EPOCH).map_or(0, |d| d.as_secs())
}

/// The age of `unix_seconds` by the system clock (see `age_text`).
pub fn format_age(unix_seconds: u64) -> (r: String)
    ensures
        unix_seconds == 0 ==> r@ == seq!['-'],
        exists|now: u64| r@ == age_text(unix_seconds, now),
{
    let now = now_unix_secs();
    format_age_at(unix_seconds, now)
}

} // verus!
