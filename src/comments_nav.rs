use vstd::prelude::*;

use crate::hn::Comment;

verus! {

/// How many of the first entries of `lines`, taken in order, start at or
/// above `scroll`.
pub open spec fn lines_reached(lines: Seq<u16>, scroll: u16) -> nat
    decreases lines.len(),
{
    if lines.len() == 0 || lines[0] > scroll {
        0
    } else {
        1 + lines_reached(lines.skip(1), scroll)
    }
}

/// The comment shown at the top of the view: the last of the leading
/// comments whose first line is scrolled to, kept below `comments_len`.
pub fn current_index_from_scroll(comment_start_lines: &[u16], comments_len: usize, comments_scroll: u16) -> (r: Option<usize>)
    ensures
        comments_len == 0 || comment_start_lines@.len() == 0 ==> r is None,
        comments_len > 0 && comment_start_lines@.len() > 0 ==> {
            let reached = lines_reached(comment_start_lines@, comments_scroll);
            let current = if reached == 0 { 0 } else { reached - 1 };
            r == Some(if current < comments_len { current as usize } else { (comments_len - 1) as usize })
        },
{
    if comments_len == 0 || comment_start_lines.len() == 0 {
        return None;
    }
    let ghost lines = comment_start_lines@;
    let mut i: usize = 0;
    assert(lines.skip(0) =~= lines);
    while i < comment_start_lines.len() && comment_start_lines[i] <= comments_scroll
        invariant
            i <= lines.len(),
            lines == comment_start_lines@,
            lines_reached(lines, comments_scroll) == i + lines_reached(lines.skip(i as int), comments_scroll),
        decreases lines.len() - i,
    {
        assert(lines.skip(i as int).skip(1) =~= lines.skip(i + 1));
        i += 1;
    }
    let current: usize = if i == 0 { 0 } else { i - 1 };
    if current < comments_len {
        Some(current)
    } else {
        Some(comments_len - 1)
    }
}

/// The next comment at the depth of the current one or shallower: its next
/// sibling, or the next comment of an outer thread.
pub fn next_sibling_or_outer_index(comments: &[Comment], current_index: usize) -> (r: Option<usize>)
    ensures
        current_index >= comments@.len() ==> r is None,
        current_index < comments@.len() ==> {
            let d = comments@[current_index as int].depth;
            match r {
                Some(j) => current_index < j < comments@.len() && comments@[j as int].depth <= d
                    && forall|k: int| current_index < k < j ==> #[trigger] comments@[k].depth > d,
                None => forall|k: int| current_index < k < comments@.len() ==> #[trigger] comments@[k].depth > d,
            }
        },
{
    if current_index >= comments.len() {
        return None;
    }
    let current_depth = comments[current_index].depth;
    let mut j: usize = current_index + 1;
    while j < comments.len()
        invariant
            current_index < j <= comments@.len(),
            current_depth == comments@[current_index as int].depth,
            forall|k: int| current_index < k < j ==> #[trigger] comments@[k].depth > current_depth,
        decreases comments@.len() - j,
    {
        if comments[j].depth <= current_depth {
            return Some(j);
        }
        j += 1;
    }
    None
}

/// The nearest comment above the current one at its depth or shallower:
/// its previous sibling, or else its parent.
pub fn previous_sibling_or_parent_index(comments: &[Comment], current_index: usize) -> (r: Option<usize>)
    ensures
        current_index >= comments@.len() ==> r is None,
        current_index < comments@.len() ==> {
            let d = comments@[current_index as int].depth;
            match r {
                Some(j) => j < current_index && comments@[j as int].depth <= d
                    && forall|k: int| j < k < current_index ==> #[trigger] comments@[k].depth > d,
                None => forall|k: int| 0 <= k < current_index ==> #[trigger] comments@[k].depth > d,
            }
        },
{
    if current_index >= comments.len() {
        return None;
    }
    let current_depth = comments[current_index].depth;
    let mut j: usize = current_index;
    while j > 0
        invariant
            j <= current_index < comments@.len(),
            current_depth == comments@[current_index as int].depth,
            forall|k: int| j <= k < current_index ==> #[trigger] comments@[k].depth > current_depth,
        decreases j,
    {
        let depth = comments[j - 1].depth;
        if depth < current_depth {
            return nearest_parent_index(comments, current_index);
        }
        if depth == current_depth {
            return Some(j - 1);
        }
        j -= 1;
    }
    nearest_parent_index(comments, current_index)
}

/// The nearest comment above the current one that is shallower: its parent.
pub fn nearest_parent_index(comments: &[Comment], current_index: usize) -> (r: Option<usize>)
    ensures
        current_index >= comments@.len() ==> r is None,
        current_index < comments@.len() ==> {
            let d = comments@[current_index as int].depth;
            match r {
                Some(j) => j < current_index && comments@[j as int].depth < d
                    && forall|k: int| j < k < current_index ==> #[trigger] comments@[k].depth >= d,
                None => forall|k: int| 0 <= k < current_index ==> #[trigger] comments@[k].depth >= d,
            }
        },
{
    if current_index >= comments.len() {
        return None;
    }
    let current_depth = comments[current_index].depth;
    if current_depth == 0 {
        return None;
    }
    let mut j: usize = current_index;
    while j > 0
        invariant
            j <= current_index < comments@.len(),
            current_depth == comments@[current_index as int].depth,
            forall|k: int| j <= k < current_index ==> #[trigger] comments@[k].depth >= current_depth,
        decreases j,
    {
        if comments[j - 1].depth < current_depth {
            return Some(j - 1);
        }
        j -= 1;
    }
    None
}

/// The comment after the current one, if there is one.
pub fn next_comment_index(comments_len: usize, current_index: usize) -> (r: Option<usize>)
    ensures
        current_index + 1 < comments_len ==> r == Some((current_index + 1) as usize),
        current_index + 1 >= comments_len ==> r is None,
{
    if current_index < comments_len && current_index + 1 < comments_len {
        Some(current_index + 1)
    } else {
        None
    }
}

/// The comment before the current one, if there is one.
pub fn previous_comment_index(current_index: usize) -> (r: Option<usize>)
    ensures
        current_index > 0 ==> r == Some((current_index - 1) as usize),
        current_index == 0 ==> r is None,
{
    if current_index > 0 {
        Some(current_index - 1)
    } else {
        None
    }
}


/// The scroll position of the comments view, with what the last layout
/// measured: how many lines the thread took, how many fit, and the first
/// line of each comment.
pub struct CommentsScroll {
    pub scroll: u16,
    pub line_count: usize,
    pub viewport_height: usize,
    pub start_lines: Vec<u16>,
}

/// The largest scroll: the lines beyond one screenful (kept to 16 bits).
pub open spec fn max_scroll_of(line_count: usize, viewport_height: usize) -> u16 {
    (if line_count > viewport_height {
        line_count - viewport_height
    } else {
        0
    }) as u16
}

impl CommentsScroll {
    pub fn new() -> (r: CommentsScroll)
        ensures
            r.scroll == 0,
            r.line_count == 0,
            r.viewport_height == 0,
            r.start_lines@.len() == 0,
    {
        CommentsScroll { scroll: 0, line_count: 0, viewport_height: 0, start_lines: Vec::new() }
    }

    pub fn max_comment_scroll(&self) -> (r: u16)
        ensures
            r == max_scroll_of(self.line_count, self.viewport_height),
    {
        let over: usize = if self.line_count > self.viewport_height {
            self.line_count - self.viewport_height
        } else {
            0
        };
        over as u16
    }

    /// A page: one line less than fits, at least one (kept to 16 bits).
    pub fn comment_page_step(&self) -> (r: u16)
        ensures
            r == (if self.viewport_height > 1 {
                (self.viewport_height - 1) as usize
            } else {
                1usize
            }) as u16,
    {
        let step: usize = if self.viewport_height > 1 {
            self.viewport_height - 1
        } else {
            1
        };
        step as u16
    }

    /// Keeps the scroll at most the largest one.
    pub fn clamp_comments_scroll(&mut self)
        ensures
            final(self).scroll == if old(self).scroll > max_scroll_of(old(self).line_count, old(self).viewport_height) {
                max_scroll_of(old(self).line_count, old(self).viewport_height)
            } else {
                old(self).scroll
            },
            final(self).line_count == old(self).line_count,
            final(self).viewport_height == old(self).viewport_height,
            final(self).start_lines == old(self).start_lines,
    {
        let max_scroll = self.max_comment_scroll();
        if self.scroll > max_scroll {
            self.scroll = max_scroll;
        }
    }

    pub fn scroll_comments_up(&mut self, amount: u16)
        ensures
            final(self).scroll == if old(self).scroll > amount {
                (old(self).scroll - amount) as u16
            } else {
                0u16
            },
            final(self).line_count == old(self).line_count,
            final(self).viewport_height == old(self).viewport_height,
            final(self).start_lines == old(self).start_lines,
    {
        self.scroll = if self.scroll > amount {
            self.scroll - amount
        } else {
            0
        };
    }

    pub fn scroll_comments_down(&mut self, amount: u16)
        ensures
            ({
                let max = max_scroll_of(old(self).line_count, old(self).viewport_height);
                let sum = old(self).scroll + amount;
                final(self).scroll == if sum < max {
                    sum as u16
                } else {
                    max
                }
            }),
            final(self).line_count == old(self).line_count,
            final(self).viewport_height == old(self).viewport_height,
            final(self).start_lines == old(self).start_lines,
    {
        let max_scroll = self.max_comment_scroll();
        let room: u16 = u16::MAX - self.scroll;
        let sum: u16 = if amount > room {
            u16::MAX
        } else {
            self.scroll + amount
        };
        self.scroll = if sum < max_scroll {
            sum
        } else {
            max_scroll
        };
    }

    /// Scrolls to the first line of comment `index`, as far as the largest
    /// scroll allows; nothing happens for an index past the comments.
    pub fn jump_to_comment(&mut self, index: usize)
        ensures
            index >= old(self).start_lines@.len() ==> final(self).scroll == old(self).scroll,
            index < old(self).start_lines@.len() ==> {
                let line = old(self).start_lines@[index as int];
                let max = max_scroll_of(old(self).line_count, old(self).viewport_height);
                final(self).scroll == if line < max {
                    line
                } else {
                    max
                }
            },
            final(self).line_count == old(self).line_count,
            final(self).viewport_height == old(self).viewport_height,
            final(self).start_lines == old(self).start_lines,
    {
        if index >= self.start_lines.len() {
            return;
        }
        let line = self.start_lines[index];
        let max_scroll = self.max_comment_scroll();
        self.scroll = if line < max_scroll {
            line
        } else {
            max_scroll
        };
    }

    /// The comment at the top of the view, among `comments_len` comments.
    pub fn current_index(&self, comments_len: usize) -> (r: Option<usize>)
        ensures
            comments_len == 0 || self.start_lines@.len() == 0 ==> r is None,
            comments_len > 0 && self.start_lines@.len() > 0 ==> {
                let reached = lines_reached(self.start_lines@, self.scroll);
                let current = if reached == 0 {
                    0
                } else {
                    reached - 1
                };
                r == Some(
                    if current < comments_len {
                        current as usize
                    } else {
                        (comments_len - 1) as usize
                    },
                )
            },
    {
        current_index_from_scroll(self.start_lines.as_slice(), comments_len, self.scroll)
    }
}

} // verus!
