use vstd::prelude::*;
use vstd::std_specs::iter::IteratorSpec;

verus! {

/// The characters of `s`, in order.
pub fn chars_of(s: &str) -> (r: Vec<char>)
    ensures
        r@ == s@,
{
    let mut out: Vec<char> = Vec::new();
    let mut it = s.chars();
    proof {
        broadcast use vstd::string::axiom_spec_iter, vstd::string::next_postcondition;
    }
    loop
        invariant
            out@ + it.remaining() == s@,
            it.obeys_prophetic_iter_laws(),
            it.decrease() is Some,
        ensures
            it.remaining().len() == 0,
        decreases it.decrease()->0,
    {
        match it.next() {
            Some(c) => out.push(c),
            None => break,
        }
    }
    assert(out@ =~= s@);
    out
}

/// Whether `a` and `b` hold the same characters.
pub fn str_equals(a: &str, b: &str) -> (r: bool)
    ensures
        r == (a@ == b@),
{
    let n = a.unicode_len();
    if n != b.unicode_len() {
        return false;
    }
    let mut i: usize = 0;
    while i < n
        invariant
            i <= n,
            n == a@.len(),
            n == b@.len(),
            forall|k: int| 0 <= k < i ==> a@[k] == b@[k],
        decreases n - i,
    {
        if a.get_char(i) != b.get_char(i) {
            return false;
        }
        i += 1;
    }
    assert(a@ =~= b@);
    true
}

/// Relies on `String::push`: appends one character.
#[verifier::external_body]
fn push_char(s: &mut String, c: char)
    ensures
        final(s)@ == old(s)@.push(c),
{
    s.push(c)
}

/// A string holding exactly the characters of `v`.
pub fn string_of(v: &Vec<char>) -> (r: String)
    ensures
        r@ == v@,
{
    let mut out = String::new();
    let mut i: usize = 0;
    while i < v.len()
        invariant
            i <= v@.len(),
            out@ == v@.take(i as int),
        decreases v@.len() - i,
    {
        push_char(&mut out, v[i]);
        assert(v@.take(i + 1) =~= v@.take(i as int).push(v@[i as int]));
        i += 1;
    }
    assert(v@.take(v@.len() as int) =~= v@);
    out
}


/// Appends every character of `items` to `out`.
pub fn push_all(out: &mut Vec<char>, items: &Vec<char>)
    ensures
        final(out)@ == old(out)@ + items@,
{
    let mut k: usize = 0;
    while k < items.len()
        invariant
            k <= items@.len(),
            out@ == old(out)@ + items@.take(k as int),
        decreases items@.len() - k,
    {
        out.push(items[k]);
        assert(items@.take(k + 1) =~= items@.take(k as int).push(items@[k as int]));
        k += 1;
    }
    assert(items@.take(items@.len() as int) =~= items@);
}

// ---------------------------------------------------------------------------
// Replacing a pattern
// ---------------------------------------------------------------------------

/// `pat` occurs in `s` starting at position `i`.
pub open spec fn matches_at(s: Seq<char>, i: int, pat: Seq<char>) -> bool {
    0 <= i && i + pat.len() <= s.len() && s.subrange(i, i + pat.len()) == pat
}

/// `s` with every occurrence of `pat` replaced by `rep`, occurrences taken
/// left to right without overlap.
pub open spec fn replace_all(s: Seq<char>, pat: Seq<char>, rep: Seq<char>) -> Seq<char>
    decreases s.len(),
{
    if s.len() == 0 || pat.len() == 0 {
        s
    } else if matches_at(s, 0, pat) {
        rep + replace_all(s.skip(pat.len() as int), pat, rep)
    } else {
        seq![s[0]] + replace_all(s.skip(1), pat, rep)
    }
}

fn matches_at_exec(s: &Vec<char>, i: usize, pat: &Vec<char>) -> (r: bool)
    requires
        i <= s@.len(),
    ensures
        r == matches_at(s@, i as int, pat@),
{
    if pat.len() > s.len() - i {
        return false;
    }
    let mut j: usize = 0;
    while j < pat.len()
        invariant
            j <= pat@.len(),
            i <= s@.len(),
            s@.len() <= usize::MAX,
            i + pat@.len() <= s@.len(),
            forall|k: int| 0 <= k < j ==> s@[i + k] == pat@[k],
        decreases pat@.len() - j,
    {
        if s[i + j] != pat[j] {
            assert(s@.subrange(i as int, i + pat@.len())[j as int] != pat@[j as int]);
            return false;
        }
        j += 1;
    }
    assert(s@.subrange(i as int, i + pat@.len()) =~= pat@);
    true
}

/// Replaces every occurrence of `pat` in `s` by `rep`, as `str::replace` does.
pub fn replace_chars(s: &Vec<char>, pat: &Vec<char>, rep: &Vec<char>) -> (r: Vec<char>)
    requires
        pat@.len() > 0,
    ensures
        r@ == replace_all(s@, pat@, rep@),
{
    let mut out: Vec<char> = Vec::new();
    let mut i: usize = 0;
    assert(s@.skip(0) =~= s@);
    assert(out@ + replace_all(s@, pat@, rep@) =~= replace_all(s@, pat@, rep@));
    while i < s.len()
        invariant
            i <= s@.len(),
            pat@.len() > 0,
            out@ + replace_all(s@.skip(i as int), pat@, rep@) == replace_all(s@, pat@, rep@),
        decreases s@.len() - i,
    {
        let ghost rest = s@.skip(i as int);
        let ghost before = out@;
        if matches_at_exec(s, i, pat) {
            assert(rest.subrange(0, pat@.len() as int) =~= s@.subrange(i as int, i + pat@.len()));
            assert(matches_at(rest, 0, pat@));
            assert(rest.skip(pat@.len() as int) =~= s@.skip(i + pat@.len()));
            push_all(&mut out, rep);
            let ghost tail = replace_all(s@.skip(i + pat@.len()), pat@, rep@);
            assert((before + rep@) + tail =~= before + (rep@ + tail));
            i = i + pat.len();
        } else {
            proof {
                if matches_at(rest, 0, pat@) {
                    assert(rest.subrange(0, pat@.len() as int) =~= s@.subrange(i as int, i + pat@.len()));
                }
            }
            assert(rest.skip(1) =~= s@.skip(i + 1));
            assert(rest[0] == s@[i as int]);
            out.push(s[i]);
            let ghost tail = replace_all(s@.skip(i + 1), pat@, rep@);
            assert(before.push(s@[i as int]) + tail =~= before + (seq![s@[i as int]] + tail));
            i += 1;
        }
    }
    assert(s@.skip(i as int) =~= Seq::<char>::empty());
    assert(out@ + Seq::<char>::empty() =~= out@);
    out
}


// ---------------------------------------------------------------------------
// Markup
// ---------------------------------------------------------------------------

/// What remains of `s` once every `<...>` tag is removed, starting outside
/// a tag when `in_tag` is false.
pub open spec fn strip_tags_from(s: Seq<char>, in_tag: bool) -> Seq<char>
    decreases s.len(),
{
    if s.len() == 0 {
        Seq::empty()
    } else if s[0] == '<' {
        strip_tags_from(s.skip(1), true)
    } else if s[0] == '>' {
        strip_tags_from(s.skip(1), false)
    } else if in_tag {
        strip_tags_from(s.skip(1), true)
    } else {
        seq![s[0]] + strip_tags_from(s.skip(1), false)
    }
}

pub open spec fn strip_tags(s: Seq<char>) -> Seq<char> {
    strip_tags_from(s, false)
}

fn strip_tags_chars(s: &Vec<char>) -> (r: Vec<char>)
    ensures
        r@ == strip_tags(s@),
{
    let mut out: Vec<char> = Vec::new();
    let mut in_tag = false;
    let mut i: usize = 0;
    assert(s@.skip(0) =~= s@);
    assert(out@ + strip_tags(s@) =~= strip_tags(s@));
    while i < s.len()
        invariant
            i <= s@.len(),
            out@ + strip_tags_from(s@.skip(i as int), in_tag) == strip_tags(s@),
        decreases s@.len() - i,
    {
        let ghost rest = s@.skip(i as int);
        let ghost before = out@;
        assert(rest.skip(1) =~= s@.skip(i + 1));
        assert(rest[0] == s@[i as int]);
        let c = s[i];
        if c == '<' {
            in_tag = true;
        } else if c == '>' {
            in_tag = false;
        } else if !in_tag {
            out.push(c);
            let ghost tail = strip_tags_from(s@.skip(i + 1), false);
            assert(before.push(c) + tail =~= before + (seq![c] + tail));
        }
        i += 1;
    }
    assert(s@.skip(i as int) =~= Seq::<char>::empty());
    assert(out@ + Seq::<char>::empty() =~= out@);
    out
}

/// Removes every `<...>` tag from `text`.
pub fn strip_html_tags(text: &str) -> (r: String)
    ensures
        r@ == strip_tags(text@),
{
    let chars = chars_of(text);
    string_of(&strip_tags_chars(&chars))
}

pub open spec fn quot_entity() -> Seq<char> {
    seq!['&', 'q', 'u', 'o', 't', ';']
}

pub open spec fn apos_entity() -> Seq<char> {
    seq!['&', '#', 'x', '2', '7', ';']
}

pub open spec fn slash_entity() -> Seq<char> {
    seq!['&', '#', 'x', '2', 'F', ';']
}

pub open spec fn amp_entity() -> Seq<char> {
    seq!['&', 'a', 'm', 'p', ';']
}

pub open spec fn lt_entity() -> Seq<char> {
    seq!['&', 'l', 't', ';']
}

pub open spec fn gt_entity() -> Seq<char> {
    seq!['&', 'g', 't', ';']
}

/// `s` with the entities for quote, apostrophe, slash and the angle
/// brackets decoded, and the ampersand entity last, so that an `&` that
/// decoding produced never starts another entity.
pub open spec fn decode_entities(s: Seq<char>) -> Seq<char> {
    let a = replace_all(s, quot_entity(), seq!['"']);
    let b = replace_all(a, apos_entity(), seq!['\'']);
    let c = replace_all(b, slash_entity(), seq!['/']);
    let d = replace_all(c, lt_entity(), seq!['<']);
    let e = replace_all(d, gt_entity(), seq!['>']);
    replace_all(e, amp_entity(), seq!['&'])
}

fn decode_entities_chars(s: &Vec<char>) -> (r: Vec<char>)
    ensures
        r@ == decode_entities(s@),
{
    let pat0 = vec!['&', 'q', 'u', 'o', 't', ';'];
    let rep0: Vec<char> = vec!['"'];
    assert(pat0@ =~= quot_entity());
    assert(rep0@ =~= seq!['"']);
    let a = replace_chars(s, &pat0, &rep0);
    let pat1 = vec!['&', '#', 'x', '2', '7', ';'];
    let rep1: Vec<char> = vec!['\''];
    assert(pat1@ =~= apos_entity());
    assert(rep1@ =~= seq!['\'']);
    let b = replace_chars(&a, &pat1, &rep1);
    let pat2 = vec!['&', '#', 'x', '2', 'F', ';'];
    let rep2: Vec<char> = vec!['/'];
    assert(pat2@ =~= slash_entity());
    assert(rep2@ =~= seq!['/']);
    let c = replace_chars(&b, &pat2, &rep2);
    let pat3 = vec!['&', 'l', 't', ';'];
    let rep3: Vec<char> = vec!['<'];
    assert(pat3@ =~= lt_entity());
    assert(rep3@ =~= seq!['<']);
    let d = replace_chars(&c, &pat3, &rep3);
    let pat4 = vec!['&', 'g', 't', ';'];
    let rep4: Vec<char> = vec!['>'];
    assert(pat4@ =~= gt_entity());
    assert(rep4@ =~= seq!['>']);
    let e = replace_chars(&d, &pat4, &rep4);
    let pat5 = vec!['&', 'a', 'm', 'p', ';'];
    let rep5: Vec<char> = vec!['&'];
    assert(pat5@ =~= amp_entity());
    assert(rep5@ =~= seq!['&']);
    let f = replace_chars(&e, &pat5, &rep5);
    f
}

/// Decodes the HTML entities for `"`, `'`, `/`, `&`, `<` and `>`.
pub fn decode_html_entities(text: &str) -> (r: String)
    ensures
        r@ == decode_entities(text@),
{
    let chars = chars_of(text);
    string_of(&decode_entities_chars(&chars))
}

/// `s` with paragraph and line-break markers turned into newlines.
pub open spec fn normalize_breaks(s: Seq<char>) -> Seq<char> {
    let a = replace_all(s, seq!['<', 'p', '>'], seq!['\n']);
    let b = replace_all(a, seq!['<', '/', 'p', '>'], Seq::empty());
    let c = replace_all(b, seq!['<', 'b', 'r', '>'], seq!['\n']);
    let d = replace_all(c, seq!['<', 'b', 'r', '/', '>'], seq!['\n']);
    replace_all(d, seq!['<', 'b', 'r', ' ', '/', '>'], seq!['\n'])
}

fn normalize_breaks_chars(s: &Vec<char>) -> (r: Vec<char>)
    ensures
        r@ == normalize_breaks(s@),
{
    let pat0 = vec!['<', 'p', '>'];
    let rep0: Vec<char> = vec!['\n'];
    assert(pat0@ =~= seq!['<', 'p', '>']);
    assert(rep0@ =~= seq!['\n']);
    let a = replace_chars(s, &pat0, &rep0);
    let pat1 = vec!['<', '/', 'p', '>'];
    let rep1: Vec<char> = vec![];
    assert(pat1@ =~= seq!['<', '/', 'p', '>']);
    assert(rep1@ =~= Seq::<char>::empty());
    let b = replace_chars(&a, &pat1, &rep1);
    let pat2 = vec!['<', 'b', 'r', '>'];
    let rep2: Vec<char> = vec!['\n'];
    assert(pat2@ =~= seq!['<', 'b', 'r', '>']);
    assert(rep2@ =~= seq!['\n']);
    let c = replace_chars(&b, &pat2, &rep2);
    let pat3 = vec!['<', 'b', 'r', '/', '>'];
    let rep3: Vec<char> = vec!['\n'];
    assert(pat3@ =~= seq!['<', 'b', 'r', '/', '>']);
    assert(rep3@ =~= seq!['\n']);
    let d = replace_chars(&c, &pat3, &rep3);
    let pat4 = vec!['<', 'b', 'r', ' ', '/', '>'];
    let rep4: Vec<char> = vec!['\n'];
    assert(pat4@ =~= seq!['<', 'b', 'r', ' ', '/', '>']);
    assert(rep4@ =~= seq!['\n']);
    let e = replace_chars(&d, &pat4, &rep4);
    e
}


// ---------------------------------------------------------------------------
// Lines and white space
// ---------------------------------------------------------------------------

/// The characters that have the Unicode `White_Space` property.
pub open spec fn is_space(c: char) -> bool {
    let u = c as u32;
    (9 <= u <= 13) || u == 32 || u == 0x85 || u == 0xa0 || u == 0x1680 || (0x2000 <= u
        <= 0x200a) || u == 0x2028 || u == 0x2029 || u == 0x202f || u == 0x205f || u == 0x3000
}

pub fn is_space_char(c: char) -> (r: bool)
    ensures
        r == is_space(c),
{
    let u = c as u32;
    (9 <= u && u <= 13) || u == 32 || u == 0x85 || u == 0xa0 || u == 0x1680 || (0x2000 <= u && u
        <= 0x200a) || u == 0x2028 || u == 0x2029 || u == 0x202f || u == 0x205f || u == 0x3000
}

pub open spec fn trim_start(s: Seq<char>) -> Seq<char>
    decreases s.len(),
{
    if s.len() > 0 && is_space(s[0]) {
        trim_start(s.skip(1))
    } else {
        s
    }
}

pub open spec fn trim_end(s: Seq<char>) -> Seq<char>
    decreases s.len(),
{
    if s.len() > 0 && is_space(s.last()) {
        trim_end(s.drop_last())
    } else {
        s
    }
}

/// `s` without leading and trailing white space.
pub open spec fn trim(s: Seq<char>) -> Seq<char> {
    trim_end(trim_start(s))
}

pub fn trim_chars(s: &Vec<char>) -> (r: Vec<char>)
    ensures
        r@ == trim(s@),
{
    let mut lo: usize = 0;
    assert(s@.skip(0) =~= s@);
    while lo < s.len() && is_space_char(s[lo])
        invariant
            lo <= s@.len(),
            trim_start(s@.skip(lo as int)) == trim_start(s@),
        decreases s@.len() - lo,
    {
        assert(s@.skip(lo as int).skip(1) =~= s@.skip(lo + 1));
        lo += 1;
    }
    let mut hi: usize = s.len();
    assert(s@.subrange(lo as int, hi as int) =~= s@.skip(lo as int));
    while hi > lo && is_space_char(s[hi - 1])
        invariant
            lo <= hi <= s@.len(),
            trim_end(s@.subrange(lo as int, hi as int)) == trim(s@),
        decreases hi,
    {
        assert(s@.subrange(lo as int, hi as int).drop_last() =~= s@.subrange(lo as int, hi - 1));
        hi -= 1;
    }
    let mut out: Vec<char> = Vec::new();
    let mut k: usize = lo;
    while k < hi
        invariant
            lo <= k <= hi <= s@.len(),
            out@ == s@.subrange(lo as int, k as int),
        decreases hi - k,
    {
        out.push(s[k]);
        assert(s@.subrange(lo as int, k + 1) =~= s@.subrange(lo as int, k as int).push(
            s@[k as int],
        ));
        k += 1;
    }
    out
}

/// `s` cut at each newline; a string without newline is one line.
pub open spec fn split_lines(s: Seq<char>) -> Seq<Seq<char>>
    decreases s.len(),
{
    if s.len() == 0 {
        seq![Seq::empty()]
    } else {
        let prev = split_lines(s.drop_last());
        if s.last() == '\n' {
            prev.push(Seq::empty())
        } else {
            prev.update(prev.len() - 1, prev.last().push(s.last()))
        }
    }
}

pub proof fn lemma_split_lines_nonempty(s: Seq<char>)
    ensures
        split_lines(s).len() >= 1,
    decreases s.len(),
{
    if s.len() > 0 {
        lemma_split_lines_nonempty(s.drop_last());
    }
}

/// The views of a sequence of character vectors.
pub open spec fn views(v: Seq<Vec<char>>) -> Seq<Seq<char>> {
    v.map_values(|l: Vec<char>| l@)
}

pub fn split_lines_chars(s: &Vec<char>) -> (r: Vec<Vec<char>>)
    ensures
        views(r@) == split_lines(s@),
{
    let mut lines: Vec<Vec<char>> = Vec::new();
    let mut cur: Vec<char> = Vec::new();
    let mut i: usize = 0;
    assert(s@.take(0) =~= Seq::<char>::empty());
    assert(views(lines@).push(cur@) =~= split_lines(s@.take(0)));
    while i < s.len()
        invariant
            i <= s@.len(),
            views(lines@).push(cur@) == split_lines(s@.take(i as int)),
        decreases s@.len() - i,
    {
        let c = s[i];
        let ghost prev = split_lines(s@.take(i as int));
        proof {
            assert(s@.take(i + 1).drop_last() =~= s@.take(i as int));
            assert(s@.take(i + 1).last() == c);
            lemma_split_lines_nonempty(s@.take(i as int));
        }
        if c == '\n' {
            let done = cur;
            lines.push(done);
            cur = Vec::new();
            assert(views(lines@).push(cur@) =~= prev.push(Seq::empty()));
        } else {
            let ghost old_cur = cur@;
            cur.push(c);
            assert(views(lines@).push(cur@) =~= prev.update(prev.len() - 1, prev.last().push(c)));
        }
        i += 1;
    }
    assert(s@.take(s@.len() as int) =~= s@);
    lines.push(cur);
    assert(views(lines@) =~= split_lines(s@));
    lines
}

/// The last line of `ls` stays unless it and the line before it are both empty.
pub open spec fn keeps_last_line(ls: Seq<Seq<char>>) -> bool {
    ls.last().len() > 0 || ls.len() == 1 || ls[ls.len() - 2].len() > 0
}

/// `ls` with each run of empty lines shortened to one empty line.
pub open spec fn collapse_blank_lines(ls: Seq<Seq<char>>) -> Seq<Seq<char>>
    decreases ls.len(),
{
    if ls.len() == 0 {
        Seq::empty()
    } else {
        let prev = collapse_blank_lines(ls.drop_last());
        if keeps_last_line(ls) {
            prev.push(ls.last())
        } else {
            prev
        }
    }
}

/// The lines of `ls` joined by newlines.
pub open spec fn join_lines(ls: Seq<Seq<char>>) -> Seq<char>
    decreases ls.len(),
{
    if ls.len() == 0 {
        Seq::empty()
    } else if ls.len() == 1 {
        ls[0]
    } else {
        join_lines(ls.drop_last()) + seq!['\n'] + ls.last()
    }
}

/// The display text of a comment body: markup turned into plain text, each
/// line trimmed, runs of blank lines collapsed to one, and the whole trimmed.
pub open spec fn clean_text(s: Seq<char>) -> Seq<char> {
    let plain = decode_entities(strip_tags(normalize_breaks(s)));
    let lines = split_lines(plain).map_values(|l: Seq<char>| trim(l));
    trim(join_lines(collapse_blank_lines(lines)))
}

fn copy_chars(v: &Vec<char>) -> (r: Vec<char>)
    ensures
        r@ == v@,
{
    let mut out: Vec<char> = Vec::new();
    push_all(&mut out, v);
    assert(Seq::<char>::empty() + v@ =~= v@);
    out
}

fn compact_lines(plain: &Vec<char>) -> (r: Vec<char>)
    ensures
        r@ == trim(
            join_lines(
                collapse_blank_lines(split_lines(plain@).map_values(|l: Seq<char>| trim(l))),
            ),
        ),
{
    let lines = split_lines_chars(plain);
    let ghost all = split_lines(plain@).map_values(|l: Seq<char>| trim(l));
    let mut trimmed: Vec<Vec<char>> = Vec::new();
    let mut i: usize = 0;
    while i < lines.len()
        invariant
            i <= lines@.len(),
            views(lines@) == split_lines(plain@),
            all == split_lines(plain@).map_values(|l: Seq<char>| trim(l)),
            views(trimmed@) == all.take(i as int),
        decreases lines@.len() - i,
    {
        let t = trim_chars(&lines[i]);
        assert(views(lines@)[i as int] == lines@[i as int]@);
        assert(views(lines@).len() == lines@.len());
        assert(all[i as int] == t@);
        let ghost before = views(trimmed@);
        trimmed.push(t);
        assert(views(trimmed@) =~= before.push(t@));
        assert(views(trimmed@) =~= all.take(i + 1));
        i += 1;
    }
    assert(all.take(all.len() as int) =~= all);
    let mut kept: Vec<Vec<char>> = Vec::new();
    let mut j: usize = 0;
    assert(all.take(0) =~= Seq::<Seq<char>>::empty());
    while j < trimmed.len()
        invariant
            j <= trimmed@.len(),
            views(trimmed@) == all,
            views(kept@) == collapse_blank_lines(all.take(j as int)),
        decreases trimmed@.len() - j,
    {
        let ghost upto = all.take(j + 1);
        assert(upto.drop_last() =~= all.take(j as int));
        assert(upto.last() == trimmed@[j as int]@);
        assert(j > 0 ==> upto[upto.len() - 2] == trimmed@[j - 1]@);
        if trimmed[j].len() > 0 || j == 0 || trimmed[j - 1].len() > 0 {
            let line = copy_chars(&trimmed[j]);
            kept.push(line);
            assert(views(kept@) =~= collapse_blank_lines(upto));
        } else {
            assert(views(kept@) =~= collapse_blank_lines(upto));
        }
        j += 1;
    }
    let ghost collapsed = collapse_blank_lines(all);
    assert(all.take(all.len() as int) =~= all);
    let mut joined: Vec<char> = Vec::new();
    let mut k: usize = 0;
    assert(collapsed.take(0) =~= Seq::<Seq<char>>::empty());
    while k < kept.len()
        invariant
            k <= kept@.len(),
            views(kept@) == collapsed,
            joined@ == join_lines(collapsed.take(k as int)),
        decreases kept@.len() - k,
    {
        let ghost upto = collapsed.take(k + 1);
        assert(upto.drop_last() =~= collapsed.take(k as int));
        assert(upto.last() == kept@[k as int]@);
        let ghost before = joined@;
        if k > 0 {
            joined.push('\n');
        }
        push_all(&mut joined, &kept[k]);
        if k == 0 {
            assert(upto.len() == 1);
            assert(joined@ =~= upto[0]);
        } else {
            assert(joined@ =~= before + seq!['\n'] + kept@[k as int]@);
        }
        k += 1;
    }
    assert(collapsed.take(collapsed.len() as int) =~= collapsed);
    trim_chars(&joined)
}

/// The display text of a comment body (see `clean_text`).
pub fn clean_comment_text(text: &str) -> (r: String)
    ensures
        r@ == clean_text(text@),
{
    let chars = chars_of(text);
    let plain = decode_entities_chars(&strip_tags_chars(&normalize_breaks_chars(&chars)));
    string_of(&compact_lines(&plain))
}

} // verus!
