use vstd::prelude::*;

use crate::app::{clamped_selection, post_views, Post};
use crate::ui::Pane;

verus! {

/// The panes shown, in focus order: feeds, bookmarks once there are any,
/// posts, and comments while they are open.
pub open spec fn visible_panes_of(bookmarks_visible: bool, comments_open: bool) -> Seq<Pane> {
    seq![Pane::Feeds] + (if bookmarks_visible {
        seq![Pane::Bookmarks]
    } else {
        Seq::empty()
    }) + seq![Pane::Posts] + (if comments_open {
        seq![Pane::Comments]
    } else {
        Seq::empty()
    })
}

pub fn visible_panes(bookmarks_visible: bool, comments_open: bool) -> (r: Vec<Pane>)
    ensures
        r@ == visible_panes_of(bookmarks_visible, comments_open),
{
    let mut panes: Vec<Pane> = Vec::new();
    panes.push(Pane::Feeds);
    if bookmarks_visible {
        panes.push(Pane::Bookmarks);
    }
    panes.push(Pane::Posts);
    if comments_open {
        panes.push(Pane::Comments);
    }
    assert(panes@ =~= visible_panes_of(bookmarks_visible, comments_open));
    panes
}

fn position_of(panes: &Vec<Pane>, pane: Pane) -> (r: Option<usize>)
    ensures
        match r {
            Some(i) => i < panes@.len() && panes@[i as int] == pane && forall|k: int|
                0 <= k < i ==> panes@[k] != pane,
            None => !panes@.contains(pane),
        },
{
    let mut i: usize = 0;
    while i < panes.len()
        invariant
            i <= panes@.len(),
            forall|k: int| 0 <= k < i ==> panes@[k] != pane,
        decreases panes@.len() - i,
    {
        if panes[i] == pane {
            return Some(i);
        }
        i += 1;
    }
    None
}

/// Where `pane` stands among the shown panes; 0 when it is not shown.
pub open spec fn focus_index(bookmarks_visible: bool, comments_open: bool, pane: Pane) -> int {
    match pane {
        Pane::Feeds => 0,
        Pane::Bookmarks => if bookmarks_visible {
            1
        } else {
            0
        },
        Pane::Posts => if bookmarks_visible {
            2
        } else {
            1
        },
        Pane::Comments => if !comments_open {
            0
        } else if bookmarks_visible {
            3
        } else {
            2
        },
    }
}

/// Which pane has the focus, and the bookmarked posts with their selection
/// and whether their pane is collapsed.
pub struct Panes {
    pub focus: Pane,
    pub bookmarks: Vec<Post>,
    pub selected_bookmark: Option<usize>,
    pub bookmarks_collapsed: bool,
}

impl Panes {
    pub fn new() -> (r: Panes)
        ensures
            r.focus == Pane::Posts,
            r.bookmarks@.len() == 0,
            r.selected_bookmark is None,
            !r.bookmarks_collapsed,
    {
        Panes {
            focus: Pane::Posts,
            bookmarks: Vec::new(),
            selected_bookmark: None,
            bookmarks_collapsed: false,
        }
    }

    /// The bookmarks pane shows once something is bookmarked.
    pub fn bookmarks_visible(&self) -> (r: bool)
        ensures
            r == (self.bookmarks@.len() > 0),
    {
        self.bookmarks.len() > 0
    }

    /// The share of the width, in percent, that the bookmarks pane takes.
    pub fn bookmarks_width_percent(&self, comments_open: bool) -> (r: u16)
        ensures
            r == if self.bookmarks_collapsed {
                if comments_open {
                    10u16
                } else {
                    12u16
                }
            } else if comments_open {
                20u16
            } else {
                30u16
            },
    {
        if self.bookmarks_collapsed {
            if comments_open {
                10
            } else {
                12
            }
        } else if comments_open {
            20
        } else {
            30
        }
    }

    /// The selected bookmark, if any.
    pub fn selected_bookmark(&self) -> (r: Option<&Post>)
        ensures
            r == match self.selected_bookmark {
                Some(i) => if i < self.bookmarks@.len() {
                    Some(&self.bookmarks@[i as int])
                } else {
                    None
                },
                None => None,
            },
    {
        match self.selected_bookmark {
            Some(i) => if i < self.bookmarks.len() {
                Some(&self.bookmarks[i])
            } else {
                None
            },
            None => None,
        }
    }

    /// Keeps the bookmark selection within the list; with no bookmarks
    /// there is no selection, no collapsed pane, and no focus on it.
    pub fn ensure_bookmarks_selection(&mut self)
        ensures
            final(self).bookmarks == old(self).bookmarks,
            final(self).selected_bookmark == clamped_selection(
                old(self).selected_bookmark,
                old(self).bookmarks@.len(),
            ),
            old(self).bookmarks@.len() == 0 ==> !final(self).bookmarks_collapsed && final(self).focus == (if old(self).focus == Pane::Bookmarks {
                Pane::Posts
            } else {
                old(self).focus
            }),
            old(self).bookmarks@.len() > 0 ==> final(self).bookmarks_collapsed == old(self).bookmarks_collapsed && final(self).focus == old(self).focus,
    {
        let len = self.bookmarks.len();
        if len == 0 {
            self.selected_bookmark = None;
            self.bookmarks_collapsed = false;
            if self.focus == Pane::Bookmarks {
                self.focus = Pane::Posts;
            }
            return;
        }
        let s = match self.selected_bookmark {
            Some(i) => i,
            None => 0,
        };
        self.selected_bookmark = Some(if s < len { s } else { len - 1 });
    }

    /// Moves the focus to `pane`. Leaving the bookmarks pane collapses it;
    /// entering it expands it.
    pub fn set_focus_pane(&mut self, pane: Pane)
        ensures
            final(self).focus == pane || (pane == Pane::Bookmarks && old(self).bookmarks@.len()
                == 0 && final(self).focus == pane),
            final(self).bookmarks == old(self).bookmarks,
            pane == Pane::Bookmarks && old(self).bookmarks@.len() > 0 ==> !final(self).bookmarks_collapsed && final(self).selected_bookmark == clamped_selection(
                old(self).selected_bookmark,
                old(self).bookmarks@.len(),
            ),
            old(self).focus == Pane::Bookmarks && pane != Pane::Bookmarks && old(self).bookmarks@.len() > 0 ==> final(self).bookmarks_collapsed,
            !(pane == Pane::Bookmarks && old(self).bookmarks@.len() > 0) && !(old(self).focus
                == Pane::Bookmarks && pane != Pane::Bookmarks && old(self).bookmarks@.len() > 0)
                ==> final(self).bookmarks_collapsed == old(self).bookmarks_collapsed,
            !(pane == Pane::Bookmarks && old(self).bookmarks@.len() > 0) ==> final(self).selected_bookmark == old(self).selected_bookmark,
    {
        let visible = self.bookmarks_visible();
        if self.focus == Pane::Bookmarks && pane != Pane::Bookmarks && visible {
            self.bookmarks_collapsed = true;
        }
        self.focus = pane;
        if pane == Pane::Bookmarks && visible {
            self.bookmarks_collapsed = false;
            self.ensure_bookmarks_selection();
        }
    }

    /// Moves the focus off a pane that is not shown, to the posts pane.
    pub fn ensure_focus_valid(&mut self, comments_open: bool)
        ensures
            final(self).bookmarks == old(self).bookmarks,
            final(self).selected_bookmark == clamped_selection(
                old(self).selected_bookmark,
                old(self).bookmarks@.len(),
            ),
            visible_panes_of(old(self).bookmarks@.len() > 0, comments_open).contains(
                old(self).focus,
            ) ==> final(self).focus == old(self).focus,
            !visible_panes_of(old(self).bookmarks@.len() > 0, comments_open).contains(
                old(self).focus,
            ) ==> final(self).focus == Pane::Posts,
            old(self).bookmarks@.len() > 0 ==> final(self).bookmarks_collapsed == old(self).bookmarks_collapsed,
    {
        let panes = visible_panes(self.bookmarks_visible(), comments_open);
        if position_of(&panes, self.focus).is_none() {
            self.focus = Pane::Posts;
        }
        proof {
            if old(self).bookmarks@.len() == 0 && old(self).focus == Pane::Bookmarks {
                assert(!panes@.contains(Pane::Bookmarks)) by {
                    if panes@.contains(Pane::Bookmarks) {
                        let k = choose|k: int| 0 <= k < panes@.len() && panes@[k] == Pane::Bookmarks;
                    }
                }
            }
        }
        self.ensure_bookmarks_selection();
    }

    /// Moves the focus one pane along the shown ones (`delta` is 1 or -1),
    /// round the ends; a focus on a pane not shown counts as on the first.
    pub fn cycle_focus(&mut self, delta: isize, comments_open: bool)
        requires
            delta == 1 || delta == -1,
        ensures
            final(self).bookmarks == old(self).bookmarks,
            ({
                let bv = old(self).bookmarks@.len() > 0;
                let panes = visible_panes_of(bv, comments_open);
                let current = focus_index(bv, comments_open, old(self).focus);
                final(self).focus == panes[(current + delta + panes.len()) % (panes.len() as int)]
            }),
    {
        let panes = visible_panes(self.bookmarks_visible(), comments_open);
        let count = panes.len();
        let visible = self.bookmarks_visible();
        let current: usize = match self.focus {
            Pane::Feeds => 0,
            Pane::Bookmarks => if visible {
                1
            } else {
                0
            },
            Pane::Posts => if visible {
                2
            } else {
                1
            },
            Pane::Comments => if !comments_open {
                0
            } else if visible {
                3
            } else {
                2
            },
        };
        let next = ((current as isize + delta + count as isize) % (count as isize)) as usize;
        let pane = panes[next];
        self.set_focus_pane(pane);
    }

    /// Bookmarks `post` unless a post of its id already is. The first
    /// bookmark makes the pane appear collapsed.
    pub fn bookmark_post(&mut self, post: Post)
        ensures
            (exists|i: int| 0 <= i < old(self).bookmarks@.len() && #[trigger] old(self).bookmarks@[i].id == post.id)
                ==> *final(self) == *old(self),
            !(exists|i: int| 0 <= i < old(self).bookmarks@.len() && #[trigger] old(self).bookmarks@[i].id == post.id)
                ==> {
                &&& post_views(final(self).bookmarks@) == post_views(old(self).bookmarks@).push(post@)
                &&& old(self).bookmarks@.len() == 0 ==> final(self).bookmarks_collapsed
                &&& old(self).bookmarks@.len() > 0 ==> final(self).bookmarks_collapsed == old(self).bookmarks_collapsed
                &&& final(self).selected_bookmark == clamped_selection(
                    old(self).selected_bookmark,
                    old(self).bookmarks@.len() + 1,
                )
                &&& final(self).focus == old(self).focus
            },
    {
        let mut i: usize = 0;
        while i < self.bookmarks.len()
            invariant
                i <= self.bookmarks@.len(),
                *self == *old(self),
                forall|k: int| 0 <= k < i ==> self.bookmarks@[k].id != post.id,
            decreases self.bookmarks@.len() - i,
        {
            if self.bookmarks[i].id == post.id {
                return;
            }
            i += 1;
        }
        let was_empty = self.bookmarks.len() == 0;
        let ghost before = post_views(self.bookmarks@);
        let ghost p = post@;
        self.bookmarks.push(post);
        assert(post_views(self.bookmarks@) =~= before.push(p));
        if was_empty {
            self.bookmarks_collapsed = true;
        }
        self.ensure_bookmarks_selection();
    }

    /// Selects the next bookmark, round to the first.
    pub fn select_next_bookmark(&mut self)
        ensures
            final(self).bookmarks == old(self).bookmarks,
            final(self).selected_bookmark == if old(self).bookmarks@.len() == 0 {
                None
            } else {
                match old(self).selected_bookmark {
                    Some(i) => if i + 1 < old(self).bookmarks@.len() {
                        Some((i + 1) as usize)
                    } else {
                        Some(0usize)
                    },
                    None => Some(0usize),
                }
            },
    {
        let len = self.bookmarks.len();
        if len == 0 {
            self.selected_bookmark = None;
            return;
        }
        let next = match self.selected_bookmark {
            Some(i) => if i < len - 1 {
                i + 1
            } else {
                0
            },
            None => 0,
        };
        self.selected_bookmark = Some(next);
    }

    /// Selects the previous bookmark, round to the last.
    pub fn select_previous_bookmark(&mut self)
        ensures
            final(self).bookmarks == old(self).bookmarks,
            final(self).selected_bookmark == if old(self).bookmarks@.len() == 0 {
                None
            } else {
                match old(self).selected_bookmark {
                    Some(i) => if i == 0 {
                        Some((old(self).bookmarks@.len() - 1) as usize)
                    } else {
                        Some((i - 1) as usize)
                    },
                    None => Some((old(self).bookmarks@.len() - 1) as usize),
                }
            },
    {
        let len = self.bookmarks.len();
        if len == 0 {
            self.selected_bookmark = None;
            return;
        }
        let prev = match self.selected_bookmark {
            Some(i) => if i == 0 {
                len - 1
            } else {
                i - 1
            },
            None => len - 1,
        };
        self.selected_bookmark = Some(prev);
    }

    /// Removes the selected bookmark; the selection stays at its place, or
    /// moves onto the new last one. Removing the last bookmark hides the pane.
    pub fn remove_selected_bookmark(&mut self)
        ensures
            old(self).selected_bookmark is None ==> *final(self) == *old(self),
            old(self).selected_bookmark is Some && old(self).selected_bookmark->Some_0 >= old(self).bookmarks@.len() ==> final(self).bookmarks == old(self).bookmarks,
            old(self).selected_bookmark is Some && old(self).selected_bookmark->Some_0 < old(self).bookmarks@.len() ==> {
                let s = old(self).selected_bookmark->Some_0 as int;
                &&& post_views(final(self).bookmarks@) == post_views(old(self).bookmarks@.remove(s))
                &&& final(self).selected_bookmark == clamped_selection(
                    Some(s as usize),
                    (old(self).bookmarks@.len() - 1) as nat,
                )
                &&& old(self).bookmarks@.len() == 1 ==> !final(self).bookmarks_collapsed
                    && final(self).focus != Pane::Bookmarks
            },
    {
        let selected = match self.selected_bookmark {
            Some(s) => s,
            None => {
                return;
            },
        };
        if selected >= self.bookmarks.len() {
            self.ensure_bookmarks_selection();
            return;
        }
        let ghost before = self.bookmarks@;
        let _ = self.bookmarks.remove(selected);
        assert(post_views(self.bookmarks@) =~= post_views(before.remove(selected as int)));
        if self.bookmarks.len() == 0 {
            self.selected_bookmark = None;
            self.bookmarks_collapsed = false;
            if self.focus == Pane::Bookmarks {
                self.focus = Pane::Posts;
            }
            return;
        }
        let len = self.bookmarks.len();
        self.selected_bookmark = Some(if selected < len { selected } else { len - 1 });
    }

    /// Collapses the bookmarks pane and focuses the posts.
    pub fn close_bookmarks_pane(&mut self)
        ensures
            final(self).focus == Pane::Posts,
            final(self).bookmarks == old(self).bookmarks,
            old(self).bookmarks@.len() > 0 ==> final(self).bookmarks_collapsed,
    {
        if self.bookmarks.len() == 0 {
            self.set_focus_pane(Pane::Posts);
            return;
        }
        self.bookmarks_collapsed = true;
        self.set_focus_pane(Pane::Posts);
    }

    /// Expands the bookmarks pane and focuses it, once there are bookmarks.
    pub fn open_bookmarks_pane(&mut self)
        ensures
            old(self).bookmarks@.len() == 0 ==> *final(self) == *old(self),
            old(self).bookmarks@.len() > 0 ==> final(self).focus == Pane::Bookmarks
                && !final(self).bookmarks_collapsed && final(self).selected_bookmark
                == clamped_selection(old(self).selected_bookmark, old(self).bookmarks@.len()),
            final(self).bookmarks == old(self).bookmarks,
    {
        if self.bookmarks.len() == 0 {
            return;
        }
        self.bookmarks_collapsed = false;
        self.set_focus_pane(Pane::Bookmarks);
        self.ensure_bookmarks_selection();
    }

    /// The number keys: 1 opens the bookmarks, or toggles their collapse
    /// when focused; 2 focuses the posts; 3 the feeds; 4 the open comments.
    pub fn pane_shortcut(&mut self, key: char, comments_open: bool)
        ensures
            final(self).bookmarks == old(self).bookmarks,
            key == '2' ==> final(self).focus == Pane::Posts,
            key == '3' ==> final(self).focus == Pane::Feeds,
            key == '4' && comments_open ==> final(self).focus == Pane::Comments,
            key == '1' && old(self).bookmarks@.len() > 0 && old(self).focus == Pane::Bookmarks
                ==> final(self).focus == Pane::Bookmarks && final(self).bookmarks_collapsed
                == !old(self).bookmarks_collapsed,
            key == '1' && old(self).bookmarks@.len() > 0 && old(self).focus != Pane::Bookmarks
                ==> final(self).focus == Pane::Bookmarks && !final(self).bookmarks_collapsed,
            key == '1' && old(self).bookmarks@.len() == 0 ==> *final(self) == *old(self),
    {
        if key == '1' {
            if !self.bookmarks_visible() {
                return;
            }
            if self.focus == Pane::Bookmarks {
                if self.bookmarks_collapsed {
                    self.open_bookmarks_pane();
                } else {
                    self.bookmarks_collapsed = true;
                }
            } else {
                self.open_bookmarks_pane();
            }
        } else if key == '2' {
            self.set_focus_pane(Pane::Posts);
        } else if key == '3' {
            self.set_focus_pane(Pane::Feeds);
        } else if key == '4' {
            if comments_open {
                self.set_focus_pane(Pane::Comments);
            }
        }
        let ghost mid = *self;
        self.ensure_focus_valid(comments_open);
        proof {
            if key == '1' || key == '2' || key == '3' || (key == '4' && comments_open) {
                let p = visible_panes_of(mid.bookmarks@.len() > 0, comments_open);
                let want = mid.focus;
                if want == Pane::Posts {
                    assert(p[if mid.bookmarks@.len() > 0 { 2int } else { 1int }] == want);
                    assert(p.contains(want));
                } else if want == Pane::Feeds {
                    assert(p[0] == want);
                    assert(p.contains(want));
                } else if want == Pane::Bookmarks && mid.bookmarks@.len() > 0 {
                    assert(p[1] == want);
                    assert(p.contains(want));
                } else if want == Pane::Comments && comments_open {
                    assert(p[p.len() - 1] == want);
                    assert(p.contains(want));
                }
            }
        }
    }
}

} // verus!
