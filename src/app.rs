use vstd::prelude::*;

use std::collections::HashMap;

use crate::hn::{author_of, comment_views, copy_comments, copy_vec, time_of, Comment, Item, StoryFeed};
use crate::text::str_equals;

verus! {

broadcast use vstd::std_specs::hash::group_hash_axioms;

// ---------------------------------------------------------------------------
// Posts
// ---------------------------------------------------------------------------

#[derive(Debug, Clone, Copy, PartialEq, Eq, Structural)]
pub enum PostType {
    Story,
    Job,
}

pub open spec fn story_kind() -> Seq<char> {
    seq!['s', 't', 'o', 'r', 'y']
}

pub open spec fn job_kind() -> Seq<char> {
    seq!['j', 'o', 'b']
}

/// The post type that a kind tag names: only stories and jobs are posts.
pub open spec fn post_type_of(kind: Option<Seq<char>>) -> Option<PostType> {
    match kind {
        Some(k) => if k == story_kind() {
            Some(PostType::Story)
        } else if k == job_kind() {
            Some(PostType::Job)
        } else {
            None
        },
        None => None,
    }
}

impl PostType {
    pub fn from_kind(kind: Option<&str>) -> (r: Option<PostType>)
        ensures
            r == post_type_of(
                match kind {
                    Some(k) => Some(k@),
                    None => None,
                },
            ),
    {
        match kind {
            Some(k) => {
                proof {
                    reveal_strlit("story");
                    reveal_strlit("job");
                }
                assert("story"@ =~= story_kind());
                assert("job"@ =~= job_kind());
                if str_equals(k, "story") {
                    Some(PostType::Story)
                } else if str_equals(k, "job") {
                    Some(PostType::Job)
                } else {
                    None
                }
            },
            None => None,
        }
    }
}

/// A story or job as the posts list shows it.
#[derive(Debug, Clone)]
pub struct Post {
    pub id: u64,
    pub title: String,
    pub url: String,
    pub post_type: PostType,
    pub points: u64,
    pub comments: u64,
    pub author: String,
    pub published_at: u64,
}

pub struct PostView {
    pub id: u64,
    pub title: Seq<char>,
    pub url: Seq<char>,
    pub post_type: PostType,
    pub points: u64,
    pub comments: u64,
    pub author: Seq<char>,
    pub published_at: u64,
}

impl View for Post {
    type V = PostView;

    open spec fn view(&self) -> PostView {
        PostView {
            id: self.id,
            title: self.title@,
            url: self.url@,
            post_type: self.post_type,
            points: self.points,
            comments: self.comments,
            author: self.author@,
            published_at: self.published_at,
        }
    }
}

pub open spec fn post_views(v: Seq<Post>) -> Seq<PostView> {
    v.map_values(|p: Post| p@)
}

impl Post {
    /// A copy of this post.
    pub fn duplicate(&self) -> (r: Post)
        ensures
            r@ == self@,
    {
        Post {
            id: self.id,
            title: self.title.clone(),
            url: self.url.clone(),
            post_type: self.post_type,
            points: self.points,
            comments: self.comments,
            author: self.author.clone(),
            published_at: self.published_at,
        }
    }
}

pub fn copy_posts(v: &Vec<Post>) -> (r: Vec<Post>)
    ensures
        post_views(r@) == post_views(v@),
{
    let mut out: Vec<Post> = Vec::new();
    let mut i: usize = 0;
    while i < v.len()
        invariant
            i <= v@.len(),
            post_views(out@) == post_views(v@).take(i as int),
        decreases v@.len() - i,
    {
        let p = v[i].duplicate();
        let ghost before = post_views(out@);
        out.push(p);
        assert(post_views(out@) =~= before.push(p@));
        assert(post_views(v@)[i as int] == p@);
        assert(post_views(out@) =~= post_views(v@).take(i + 1));
        i += 1;
    }
    assert(post_views(v@).take(v@.len() as int) =~= post_views(v@));
    out
}

pub open spec fn kind_view(item: Item) -> Option<Seq<char>> {
    match item.kind {
        Some(k) => Some(k@),
        None => None,
    }
}

/// The post that an item shows in the list: a live story or job with a
/// title and a link.
pub open spec fn post_of(item: Item) -> Option<PostView> {
    if item.dead || item.deleted || post_type_of(kind_view(item)) is None || item.title is None
        || item.url is None {
        None
    } else {
        Some(
            PostView {
                id: item.id,
                title: item.title->Some_0@,
                url: item.url->Some_0@,
                post_type: post_type_of(kind_view(item))->Some_0,
                points: match item.score {
                    Some(s) => s,
                    None => 0,
                },
                comments: match item.descendants {
                    Some(d) => d,
                    None => 0,
                },
                author: author_of(item),
                published_at: time_of(item),
            },
        )
    }
}

/// The posts that `items` show, in order.
pub open spec fn posts_of(items: Seq<Item>) -> Seq<PostView>
    decreases items.len(),
{
    if items.len() == 0 {
        Seq::empty()
    } else {
        let prev = posts_of(items.drop_last());
        match post_of(items.last()) {
            Some(p) => prev.push(p),
            None => prev,
        }
    }
}

fn post_from_item(item: Item) -> (r: Option<Post>)
    ensures
        match r {
            Some(p) => post_of(item) == Some(p@),
            None => post_of(item) is None,
        },
{
    if item.dead || item.deleted {
        return None;
    }
    let post_type = match &item.kind {
        Some(k) => PostType::from_kind(Some(k.as_str())),
        None => PostType::from_kind(None),
    };
    let post_type = match post_type {
        Some(t) => t,
        None => {
            return None;
        },
    };
    let author = match &item.by {
        Some(b) => if b.as_str().is_empty() {
            None
        } else {
            Some(b.clone())
        },
        None => None,
    };
    let author = match author {
        Some(a) => a,
        None => {
            let a = String::from_str("unknown");
            proof {
                reveal_strlit("unknown");
            }
            assert(a@ =~= crate::hn::unknown_author());
            a
        },
    };
    let points = match item.score {
        Some(s) => s,
        None => 0,
    };
    let comments = match item.descendants {
        Some(d) => d,
        None => 0,
    };
    let published_at = match item.time {
        Some(t) => t,
        None => 0,
    };
    let id = item.id;
    let title = match item.title {
        Some(t) => t,
        None => {
            return None;
        },
    };
    let url = match item.url {
        Some(u) => u,
        None => {
            return None;
        },
    };
    Some(Post { id, title, url, post_type, points, comments, author, published_at })
}

/// The posts among fetched items: dead or deleted items, kinds other than
/// story and job, and items without title or link are left out.
pub fn posts_from_items(items: Vec<Item>) -> (r: Vec<Post>)
    ensures
        post_views(r@) == posts_of(items@),
{
    let ghost all = items@;
    let mut rest = items;
    let mut reversed: Vec<Post> = Vec::new();
    // Items are taken from the back; the posts are put in order afterwards.
    while rest.len() > 0
        invariant
            posts_of(all) == posts_of(rest@) + post_views(reversed@).reverse(),
        decreases rest@.len(),
    {
        let ghost before = rest@;
        let ghost prev = post_views(reversed@);
        let item = rest.pop().unwrap();
        assert(before.drop_last() =~= rest@);
        match post_from_item(item) {
            Some(p) => {
                reversed.push(p);
                assert(post_views(reversed@) =~= prev.push(p@));
                assert(posts_of(rest@).push(p@) + prev.reverse() =~= posts_of(rest@) + prev.push(p@).reverse());
            },
            None => {},
        }
    }
    let mut out: Vec<Post> = Vec::new();
    let ghost rv = post_views(reversed@);
    assert(posts_of(all) =~= rv.reverse());
    while reversed.len() > 0
        invariant
            rv.reverse() == post_views(out@) + post_views(reversed@).reverse(),
        decreases reversed@.len(),
    {
        let ghost before = post_views(reversed@);
        let ghost done = post_views(out@);
        let p = reversed.pop().unwrap();
        assert(post_views(reversed@) =~= before.drop_last());
        out.push(p);
        assert(post_views(out@) =~= done.push(p@));
        assert(done + before.reverse() =~= done.push(p@) + post_views(reversed@).reverse());
    }
    assert(post_views(out@) + Seq::<PostView>::empty() =~= post_views(out@));
    out
}


// ---------------------------------------------------------------------------
// Feeds
// ---------------------------------------------------------------------------

#[derive(Debug, Clone, Copy, PartialEq, Eq, Hash, Structural)]
pub enum FeedTab {
    Top,
    New,
    Ask,
    Show,
    Jobs,
    Best,
}

/// The number of feed tabs.
pub const FEED_COUNT: usize = 6;

pub open spec fn feed_index(feed: FeedTab) -> nat {
    match feed {
        FeedTab::Top => 0,
        FeedTab::New => 1,
        FeedTab::Ask => 2,
        FeedTab::Show => 3,
        FeedTab::Jobs => 4,
        FeedTab::Best => 5,
    }
}

impl FeedTab {
    /// The tab's short name.
    pub fn label(self) -> (r: &'static str)
        ensures
            r@ == match self {
                FeedTab::Top => "top"@,
                FeedTab::New => "new"@,
                FeedTab::Ask => "ask"@,
                FeedTab::Show => "show"@,
                FeedTab::Jobs => "jobs"@,
                FeedTab::Best => "best"@,
            },
    {
        match self {
            FeedTab::Top => "top",
            FeedTab::New => "new",
            FeedTab::Ask => "ask",
            FeedTab::Show => "show",
            FeedTab::Jobs => "jobs",
            FeedTab::Best => "best",
        }
    }

    /// The title of the posts list under this tab.
    pub fn posts_title(self) -> (r: &'static str)
        ensures
            r@ == match self {
                FeedTab::Top => "Top Stories"@,
                FeedTab::New => "New Stories"@,
                FeedTab::Ask => "Ask HN"@,
                FeedTab::Show => "Show HN"@,
                FeedTab::Jobs => "Jobs"@,
                FeedTab::Best => "Best Stories"@,
            },
    {
        match self {
            FeedTab::Top => "Top Stories",
            FeedTab::New => "New Stories",
            FeedTab::Ask => "Ask HN",
            FeedTab::Show => "Show HN",
            FeedTab::Jobs => "Jobs",
            FeedTab::Best => "Best Stories",
        }
    }

    /// The source feed behind this tab.
    pub fn api_feed(self) -> (r: StoryFeed)
        ensures
            r == match self {
                FeedTab::Top => StoryFeed::Top,
                FeedTab::New => StoryFeed::New,
                FeedTab::Ask => StoryFeed::Ask,
                FeedTab::Show => StoryFeed::Show,
                FeedTab::Jobs => StoryFeed::Jobs,
                FeedTab::Best => StoryFeed::Best,
            },
    {
        match self {
            FeedTab::Top => StoryFeed::Top,
            FeedTab::New => StoryFeed::New,
            FeedTab::Ask => StoryFeed::Ask,
            FeedTab::Show => StoryFeed::Show,
            FeedTab::Jobs => StoryFeed::Jobs,
            FeedTab::Best => StoryFeed::Best,
        }
    }

    /// The tab's position, from 0 for Top to 5 for Best.
    pub fn index(self) -> (r: usize)
        ensures
            r == feed_index(self),
    {
        match self {
            FeedTab::Top => 0,
            FeedTab::New => 1,
            FeedTab::Ask => 2,
            FeedTab::Show => 3,
            FeedTab::Jobs => 4,
            FeedTab::Best => 5,
        }
    }

    /// The tab at `index`, counted round the tabs.
    pub fn from_index(index: usize) -> (r: FeedTab)
        ensures
            feed_index(r) == (index as int) % (FEED_COUNT as int),
    {
        let i = index % FEED_COUNT;
        if i == 0 {
            FeedTab::Top
        } else if i == 1 {
            FeedTab::New
        } else if i == 2 {
            FeedTab::Ask
        } else if i == 3 {
            FeedTab::Show
        } else if i == 4 {
            FeedTab::Jobs
        } else {
            FeedTab::Best
        }
    }

    /// The tab `delta` places away, counted round the tabs.
    pub fn shifted(self, delta: isize) -> (r: FeedTab)
        ensures
            feed_index(r) == (feed_index(self) + delta) % (FEED_COUNT as int),
    {
        let i = self.index();
        let next: usize = if delta >= 0 {
            (i + (delta as usize) % FEED_COUNT) % FEED_COUNT
        } else {
            let back: usize = (-(delta + 1)) as usize;
            (i + (FEED_COUNT - 1) - back % FEED_COUNT) % FEED_COUNT
        };
        FeedTab::from_index(next)
    }
}

/// The tab at position `i` (0 for Top to 5 for Best).
pub open spec fn feed_at(i: int) -> FeedTab {
    if i == 0 {
        FeedTab::Top
    } else if i == 1 {
        FeedTab::New
    } else if i == 2 {
        FeedTab::Ask
    } else if i == 3 {
        FeedTab::Show
    } else if i == 4 {
        FeedTab::Jobs
    } else {
        FeedTab::Best
    }
}

// ---------------------------------------------------------------------------
// Request generations
// ---------------------------------------------------------------------------

/// The generation after `n`: a counter that wraps and skips 0.
pub open spec fn next_generation(n: u64) -> u64 {
    if n == u64::MAX {
        1
    } else {
        (n + 1) as u64
    }
}

/// Issues request generations and remembers the one in flight, so that
/// only its result is applied.
pub struct RequestTracker {
    pub last_issued: u64,
    pub active: Option<u64>,
}

impl RequestTracker {
    pub fn new() -> (r: RequestTracker)
        ensures
            r.last_issued == 0,
            r.active is None,
    {
        RequestTracker { last_issued: 0, active: None }
    }

    /// Starts a new generation, which becomes the active one. Returns it and
    /// the generation it supersedes, whose cancellation handle is to be
    /// triggered.
    pub fn begin(&mut self) -> (r: (u64, Option<u64>))
        ensures
            r.0 == next_generation(old(self).last_issued),
            r.0 != 0,
            r.1 == old(self).active,
            final(self).last_issued == r.0,
            final(self).active == Some(r.0),
    {
        let superseded = self.active;
        let id = if self.last_issued == u64::MAX {
            1
        } else {
            self.last_issued + 1
        };
        self.last_issued = id;
        self.active = Some(id);
        (id, superseded)
    }

    /// Whether `id` is the generation in flight.
    pub fn is_current(&self, id: u64) -> (r: bool)
        ensures
            r == (self.active == Some(id)),
    {
        match self.active {
            Some(a) => a == id,
            None => false,
        }
    }

    /// Ends generation `id` if it is the one in flight; a result of any
    /// other generation is superseded.
    pub fn finish(&mut self, id: u64) -> (r: bool)
        ensures
            r == (old(self).active == Some(id)),
            r ==> final(self).active is None && final(self).last_issued == old(self).last_issued,
            !r ==> *final(self) == *old(self),
    {
        if self.is_current(id) {
            self.active = None;
            true
        } else {
            false
        }
    }
}

/// A generation is never issued twice in a row: once a second request is
/// issued, the first one's generation is no longer the active one.
pub proof fn lemma_older_generation_superseded(n: u64)
    ensures
        next_generation(next_generation(n)) != next_generation(n),
{
}


// ---------------------------------------------------------------------------
// Pagination of a feed, and the snapshot of each feed
// ---------------------------------------------------------------------------

/// How many posts one page fetch asks for.
pub const POSTS_PAGE_SIZE: usize = 30;

#[derive(Debug, Clone, Copy, PartialEq, Eq, Structural)]
pub enum PostsFetchMode {
    /// The page starts the list anew.
    Replace,
    /// The page follows the posts already loaded.
    Append,
}

/// What a posts request brings back.
pub struct PostsFetchResult {
    pub mode: PostsFetchMode,
    /// The feed's root ids, when the request fetched them.
    pub story_ids: Option<Vec<u64>>,
    pub items: Vec<Item>,
    /// The pagination cursor after this page.
    pub next_story_index: usize,
}

/// Why a posts request brought nothing back.
pub enum PostsFetchError {
    /// It was superseded and gave up; not an error to show.
    Cancelled,
    /// A transport error, as text.
    Failed(String),
}

/// A request for the next page of posts.
pub struct PostsPage {
    pub request_id: u64,
    /// The generation superseded by this one, to be cancelled.
    pub superseded: Option<u64>,
    pub page_ids: Vec<u64>,
    pub next_story_index: usize,
}

/// What a feed tab had when it was left.
pub struct CachedFeed {
    pub story_ids: Vec<u64>,
    pub next_story_index: usize,
    pub has_more_posts: bool,
    pub posts: Vec<Post>,
    pub selected_index: Option<usize>,
    pub last_fetched: Option<String>,
}

/// The posts of the selected feed, loaded page by page, and a snapshot of
/// each feed tab so that switching back needs no fetch.
pub struct FeedState {
    pub feed: FeedTab,
    pub story_ids: Vec<u64>,
    pub next_story_index: usize,
    pub has_more_posts: bool,
    pub posts: Vec<Post>,
    pub selected: Option<usize>,
    pub notice: Option<String>,
    pub last_fetched: Option<String>,
    pub loading: bool,
    pub requests: RequestTracker,
    /// One slot per feed tab, at the tab's index.
    pub cache: Vec<Option<CachedFeed>>,
}

/// The ids of the first page of a feed, and the cursor after it.
pub fn first_page(story_ids: &Vec<u64>) -> (r: (Vec<u64>, usize))
    ensures
        r.1 == if story_ids@.len() < POSTS_PAGE_SIZE {
            story_ids@.len()
        } else {
            POSTS_PAGE_SIZE as nat
        },
        r.0@ == story_ids@.take(r.1 as int),
{
    let next = if story_ids.len() < POSTS_PAGE_SIZE {
        story_ids.len()
    } else {
        POSTS_PAGE_SIZE
    };
    let mut page: Vec<u64> = Vec::new();
    let mut i: usize = 0;
    while i < next
        invariant
            i <= next <= story_ids@.len(),
            page@ == story_ids@.take(i as int),
        decreases next - i,
    {
        page.push(story_ids[i]);
        assert(story_ids@.take(i + 1) =~= story_ids@.take(i as int).push(story_ids@[i as int]));
        i += 1;
    }
    (page, next)
}

/// The selection kept within a list of `len` entries: none for an empty
/// list, else the old one (or the first) moved onto the last entry at most.
pub open spec fn clamped_selection(selected: Option<usize>, len: nat) -> Option<usize> {
    if len == 0 {
        None
    } else {
        let s = match selected {
            Some(i) => i as nat,
            None => 0,
        };
        Some(if s < len { s as usize } else { (len - 1) as usize })
    }
}

fn clamp_selection(selected: Option<usize>, len: usize) -> (r: Option<usize>)
    ensures
        r == clamped_selection(selected, len as nat),
{
    if len == 0 {
        return None;
    }
    let s = match selected {
        Some(i) => i,
        None => 0,
    };
    Some(if s < len { s } else { len - 1 })
}

/// How many posts the reader must have reached before the next page is
/// asked for: three quarters of those loaded, rounded up.
pub open spec fn load_more_threshold(len: nat) -> nat {
    ((3 * len + 3) / 4) as nat
}

fn copy_string_option(s: &Option<String>) -> (r: Option<String>)
    ensures
        r == *s,
{
    match s {
        Some(t) => Some(t.clone()),
        None => None,
    }
}

impl CachedFeed {
    pub fn duplicate(&self) -> (r: CachedFeed)
        ensures
            r.story_ids@ == self.story_ids@,
            r.next_story_index == self.next_story_index,
            r.has_more_posts == self.has_more_posts,
            post_views(r.posts@) == post_views(self.posts@),
            r.selected_index == self.selected_index,
            r.last_fetched == self.last_fetched,
    {
        CachedFeed {
            story_ids: copy_vec(&self.story_ids),
            next_story_index: self.next_story_index,
            has_more_posts: self.has_more_posts,
            posts: copy_posts(&self.posts),
            selected_index: self.selected_index,
            last_fetched: copy_string_option(&self.last_fetched),
        }
    }
}

/// The state after switching from the feed of `old` to `next_feed`: the
/// outgoing feed's snapshot is stored in its slot, and the incoming feed's
/// snapshot is restored (selection kept within its posts), or the
/// pagination starts empty when it has none. Other slots, requests in
/// flight and the loading flag stay.
pub open spec fn feed_switched(old: FeedState, new: FeedState, next_feed: FeedTab) -> bool {
    let out = new.cache@[feed_index(old.feed) as int];
    &&& new.feed == next_feed
    &&& out is Some
    &&& out->Some_0.story_ids@ == old.story_ids@
    &&& out->Some_0.next_story_index == old.next_story_index
    &&& out->Some_0.has_more_posts == old.has_more_posts
    &&& post_views(out->Some_0.posts@) == post_views(old.posts@)
    &&& out->Some_0.selected_index == old.selected
    &&& out->Some_0.last_fetched == old.last_fetched
    &&& (old.cache@[feed_index(next_feed) as int] is None ==> {
        &&& new.story_ids@.len() == 0
        &&& new.posts@.len() == 0
        &&& new.next_story_index == 0
        &&& new.has_more_posts
        &&& new.selected is None
        &&& new.last_fetched is None
    })
    &&& (old.cache@[feed_index(next_feed) as int] is Some ==> {
        let c = old.cache@[feed_index(next_feed) as int]->Some_0;
        &&& new.story_ids@ == c.story_ids@
        &&& new.next_story_index == c.next_story_index
        &&& new.has_more_posts == c.has_more_posts
        &&& post_views(new.posts@) == post_views(c.posts@)
        &&& new.last_fetched == c.last_fetched
        &&& new.selected == clamped_selection(c.selected_index, c.posts@.len())
    })
    &&& new.notice is None
    &&& new.requests == old.requests
    &&& new.loading == old.loading
    &&& forall|i: int|
        0 <= i < FEED_COUNT && i != feed_index(old.feed) ==> new.cache@[i] == old.cache@[i]
}

impl FeedState {
    pub open spec fn wf(&self) -> bool {
        self.cache@.len() == FEED_COUNT
    }

    /// The top feed, nothing loaded, more posts presumed available.
    pub fn new() -> (r: FeedState)
        ensures
            r.wf(),
            r.feed == FeedTab::Top,
            r.story_ids@.len() == 0,
            r.next_story_index == 0,
            r.has_more_posts,
            r.posts@.len() == 0,
            r.selected is None,
            r.notice is None,
            r.last_fetched is None,
            !r.loading,
            r.requests.active is None,
            forall|i: int| 0 <= i < FEED_COUNT ==> r.cache@[i] is None,
    {
        let mut cache: Vec<Option<CachedFeed>> = Vec::new();
        let mut i: usize = 0;
        while i < FEED_COUNT
            invariant
                i <= FEED_COUNT,
                cache@.len() == i,
                forall|k: int| 0 <= k < i ==> cache@[k] is None,
            decreases FEED_COUNT - i,
        {
            cache.push(None);
            i += 1;
        }
        FeedState {
            feed: FeedTab::Top,
            story_ids: Vec::new(),
            next_story_index: 0,
            has_more_posts: true,
            posts: Vec::new(),
            selected: None,
            notice: None,
            last_fetched: None,
            loading: false,
            requests: RequestTracker::new(),
            cache,
        }
    }

    /// Starts a refresh of the selected feed: a new generation, which
    /// supersedes any request in flight. With no posts loaded the pagination
    /// starts over.
    pub fn start_refresh(&mut self) -> (r: (u64, Option<u64>))
        ensures
            r.0 == next_generation(old(self).requests.last_issued),
            r.1 == old(self).requests.active,
            final(self).requests.active == Some(r.0),
            final(self).requests.last_issued == r.0,
            final(self).loading,
            final(self).notice is None,
            old(self).posts@.len() == 0 ==> final(self).story_ids@.len() == 0
                && final(self).next_story_index == 0 && final(self).has_more_posts
                && final(self).selected is None,
            old(self).posts@.len() > 0 ==> final(self).story_ids == old(self).story_ids
                && final(self).next_story_index == old(self).next_story_index
                && final(self).has_more_posts == old(self).has_more_posts
                && final(self).selected == old(self).selected,
            final(self).posts == old(self).posts,
            final(self).feed == old(self).feed,
            final(self).cache == old(self).cache,
            final(self).last_fetched == old(self).last_fetched,
    {
        let r = self.requests.begin();
        self.loading = true;
        if self.posts.len() == 0 {
            self.story_ids = Vec::new();
            self.next_story_index = 0;
            self.has_more_posts = true;
            self.selected = None;
        }
        self.notice = None;
        r
    }

    /// Asks for the next page, unless a request is in flight or the feed is
    /// exhausted; finding the cursor at the end marks the feed exhausted.
    pub fn start_more_posts(&mut self) -> (r: Option<PostsPage>)
        ensures
            old(self).loading || !old(self).has_more_posts ==> r is None && *final(self) == *old(self),
            !old(self).loading && old(self).has_more_posts && old(self).next_story_index
                >= old(self).story_ids@.len() ==> r is None && !final(self).has_more_posts
                && final(self).loading == old(self).loading
                && final(self).requests == old(self).requests,
            !old(self).loading && old(self).has_more_posts && old(self).next_story_index
                < old(self).story_ids@.len() ==> {
                let start = old(self).next_story_index as int;
                let len = old(self).story_ids@.len();
                let end = if start + POSTS_PAGE_SIZE < len {
                    start + POSTS_PAGE_SIZE
                } else {
                    len as int
                };
                &&& r is Some
                &&& r->Some_0.request_id == next_generation(old(self).requests.last_issued)
                &&& r->Some_0.superseded == old(self).requests.active
                &&& r->Some_0.page_ids@ == old(self).story_ids@.subrange(start, end)
                &&& r->Some_0.next_story_index == end
                &&& final(self).requests.active == Some(r->Some_0.request_id)
                &&& final(self).loading
                &&& final(self).next_story_index == old(self).next_story_index
            },
            final(self).posts == old(self).posts,
            final(self).story_ids == old(self).story_ids,
            final(self).feed == old(self).feed,
            final(self).cache == old(self).cache,
            final(self).selected == old(self).selected,
    {
        if self.loading || !self.has_more_posts {
            return None;
        }
        if self.next_story_index >= self.story_ids.len() {
            self.has_more_posts = false;
            return None;
        }
        let (request_id, superseded) = self.requests.begin();
        self.loading = true;
        let start = self.next_story_index;
        let len = self.story_ids.len();
        let end = if len - start > POSTS_PAGE_SIZE {
            start + POSTS_PAGE_SIZE
        } else {
            len
        };
        let mut page_ids: Vec<u64> = Vec::new();
        let mut i: usize = start;
        while i < end
            invariant
                start <= i <= end <= self.story_ids@.len(),
                page_ids@ == self.story_ids@.subrange(start as int, i as int),
            decreases end - i,
        {
            page_ids.push(self.story_ids[i]);
            assert(self.story_ids@.subrange(start as int, i + 1) =~= self.story_ids@.subrange(
                start as int,
                i as int,
            ).push(self.story_ids@[i as int]));
            i += 1;
        }
        Some(PostsPage { request_id, superseded, page_ids, next_story_index: end })
    }

    /// Whether the reader is far enough down the list to prefetch the next
    /// page: with no posts, whenever more are available; else once the
    /// selected position reaches the load-more threshold (at least 1).
    pub fn has_reached_load_more_threshold(&self) -> (r: bool)
        ensures
            r == if self.posts@.len() == 0 {
                self.has_more_posts
            } else {
                match self.selected {
                    None => false,
                    Some(i) => {
                        let t = load_more_threshold(self.posts@.len());
                        i + 1 >= (if t < 1 { 1 } else { t })
                    },
                }
            },
    {
        let len = self.posts.len();
        if len == 0 {
            return self.has_more_posts;
        }
        let selected_index = match self.selected {
            Some(i) => i,
            None => {
                return false;
            },
        };
        let threshold = len - len / 4;
        assert(threshold == load_more_threshold(len as nat));
        let threshold = if threshold < 1 { 1 } else { threshold };
        selected_index >= threshold - 1
    }

    /// Whether moving down the list asks for the next page: not while a
    /// request is in flight, while the comments are open, or once the feed
    /// is exhausted; otherwise once the load-more threshold is reached.
    pub fn should_load_more(&self, comments_open: bool) -> (r: bool)
        ensures
            r == (!self.loading && !comments_open && self.has_more_posts && if self.posts@.len()
                == 0 {
                self.has_more_posts
            } else {
                match self.selected {
                    None => false,
                    Some(i) => {
                        let t = load_more_threshold(self.posts@.len());
                        i + 1 >= (if t < 1 {
                            1
                        } else {
                            t
                        })
                    },
                }
            }),
    {
        if self.loading || comments_open || !self.has_more_posts {
            return false;
        }
        self.has_reached_load_more_threshold()
    }

    /// A snapshot of the selected feed's pagination.
    pub fn snapshot(&self) -> (r: CachedFeed)
        ensures
            r.story_ids@ == self.story_ids@,
            r.next_story_index == self.next_story_index,
            r.has_more_posts == self.has_more_posts,
            post_views(r.posts@) == post_views(self.posts@),
            r.selected_index == self.selected,
            r.last_fetched == self.last_fetched,
    {
        CachedFeed {
            story_ids: copy_vec(&self.story_ids),
            next_story_index: self.next_story_index,
            has_more_posts: self.has_more_posts,
            posts: copy_posts(&self.posts),
            selected_index: self.selected,
            last_fetched: copy_string_option(&self.last_fetched),
        }
    }

    /// Stores the selected feed's snapshot in its slot.
    pub fn cache_current_feed(&mut self)
        requires
            old(self).wf(),
        ensures
            final(self).wf(),
            final(self).cache@.len() == old(self).cache@.len(),
            forall|i: int|
                0 <= i < FEED_COUNT && i != feed_index(old(self).feed) ==> final(self).cache@[i]
                    == old(self).cache@[i],
            ({
                let c = final(self).cache@[feed_index(old(self).feed) as int];
                &&& c is Some
                &&& c->Some_0.story_ids@ == old(self).story_ids@
                &&& c->Some_0.next_story_index == old(self).next_story_index
                &&& c->Some_0.has_more_posts == old(self).has_more_posts
                &&& post_views(c->Some_0.posts@) == post_views(old(self).posts@)
                &&& c->Some_0.selected_index == old(self).selected
                &&& c->Some_0.last_fetched == old(self).last_fetched
            }),
            final(self).feed == old(self).feed,
            final(self).story_ids == old(self).story_ids,
            final(self).next_story_index == old(self).next_story_index,
            final(self).has_more_posts == old(self).has_more_posts,
            final(self).posts == old(self).posts,
            final(self).selected == old(self).selected,
            final(self).notice == old(self).notice,
            final(self).last_fetched == old(self).last_fetched,
            final(self).loading == old(self).loading,
            final(self).requests == old(self).requests,
    {
        let snap = self.snapshot();
        let i = self.feed.index();
        self.cache.set(i, Some(snap));
    }

    /// Restores `feed`'s snapshot, if it has one, with the selection kept
    /// within the restored posts.
    pub fn restore_feed_from_cache(&mut self, feed: FeedTab) -> (r: bool)
        requires
            old(self).wf(),
        ensures
            final(self).wf(),
            r == old(self).cache@[feed_index(feed) as int] is Some,
            !r ==> *final(self) == *old(self),
            r ==> {
                let c = old(self).cache@[feed_index(feed) as int]->Some_0;
                &&& final(self).story_ids@ == c.story_ids@
                &&& final(self).next_story_index == c.next_story_index
                &&& final(self).has_more_posts == c.has_more_posts
                &&& post_views(final(self).posts@) == post_views(c.posts@)
                &&& final(self).last_fetched == c.last_fetched
                &&& final(self).notice is None
                &&& final(self).selected == clamped_selection(c.selected_index, c.posts@.len())
                &&& final(self).cache == old(self).cache
                &&& final(self).feed == old(self).feed
                &&& final(self).requests == old(self).requests
                &&& final(self).loading == old(self).loading
            },
    {
        let i = feed.index();
        let cached = match &self.cache[i] {
            Some(c) => c.duplicate(),
            None => {
                return false;
            },
        };
        let ghost c = self.cache@[i as int]->Some_0;
        assert(post_views(cached.posts@).len() == cached.posts@.len());
        assert(post_views(c.posts@).len() == c.posts@.len());
        self.story_ids = cached.story_ids;
        self.next_story_index = cached.next_story_index;
        self.has_more_posts = cached.has_more_posts;
        self.posts = cached.posts;
        self.last_fetched = cached.last_fetched;
        self.notice = None;
        self.selected = clamp_selection(cached.selected_index, self.posts.len());
        true
    }

    /// Empties the pagination, with more posts presumed available.
    pub fn clear_feed_state(&mut self)
        ensures
            final(self).story_ids@.len() == 0,
            final(self).next_story_index == 0,
            final(self).has_more_posts,
            final(self).posts@.len() == 0,
            final(self).notice is None,
            final(self).last_fetched is None,
            final(self).selected is None,
            final(self).feed == old(self).feed,
            final(self).cache == old(self).cache,
            final(self).requests == old(self).requests,
            final(self).loading == old(self).loading,
    {
        self.story_ids = Vec::new();
        self.next_story_index = 0;
        self.has_more_posts = true;
        self.posts = Vec::new();
        self.notice = None;
        self.last_fetched = None;
        self.selected = None;
    }

    /// Applies the result of a posts request. A result of any generation
    /// but the active one is dropped with no effect. A page replaces or
    /// extends the posts, moves the cursor, keeps the selection within the
    /// list and stores the feed's snapshot; a failure shows a notice only
    /// when no posts are loaded; a cancellation changes nothing more.
    pub fn posts_fetched(
        &mut self,
        request_id: u64,
        result: Result<PostsFetchResult, PostsFetchError>,
        fetched_label: String,
    )
        requires
            old(self).wf(),
        ensures
            final(self).wf(),
            old(self).requests.active != Some(request_id) ==> *final(self) == *old(self),
            old(self).requests.active == Some(request_id) ==> {
                &&& !final(self).loading
                &&& final(self).requests.active is None
                &&& final(self).requests.last_issued == old(self).requests.last_issued
                &&& final(self).feed == old(self).feed
            },
            old(self).requests.active == Some(request_id) && result is Ok ==> {
                let p = result->Ok_0;
                let ids = match p.story_ids {
                    Some(v) => v@,
                    None => old(self).story_ids@,
                };
                let posts = match p.mode {
                    PostsFetchMode::Replace => posts_of(p.items@),
                    PostsFetchMode::Append => post_views(old(self).posts@) + posts_of(p.items@),
                };
                let c = final(self).cache@[feed_index(old(self).feed) as int];
                &&& final(self).story_ids@ == ids
                &&& final(self).next_story_index == p.next_story_index
                &&& post_views(final(self).posts@) == posts
                &&& final(self).has_more_posts == (p.next_story_index < ids.len())
                &&& final(self).selected == clamped_selection(old(self).selected, posts.len())
                &&& final(self).last_fetched == Some(fetched_label)
                &&& final(self).notice is None
                &&& c is Some
                &&& c->Some_0.story_ids@ == ids
                &&& post_views(c->Some_0.posts@) == posts
                &&& c->Some_0.next_story_index == p.next_story_index
                &&& c->Some_0.has_more_posts == final(self).has_more_posts
                &&& c->Some_0.last_fetched == final(self).last_fetched
                &&& c->Some_0.selected_index == final(self).selected
                &&& forall|i: int|
                    0 <= i < FEED_COUNT && i != feed_index(old(self).feed) ==> final(self).cache@[i]
                        == old(self).cache@[i]
            },
            old(self).requests.active == Some(request_id) && result is Err ==> {
                &&& final(self).story_ids == old(self).story_ids
                &&& final(self).next_story_index == old(self).next_story_index
                &&& final(self).has_more_posts == old(self).has_more_posts
                &&& final(self).posts == old(self).posts
                &&& final(self).selected == old(self).selected
                &&& final(self).cache == old(self).cache
                &&& final(self).last_fetched == old(self).last_fetched
                &&& match result->Err_0 {
                    PostsFetchError::Failed(e) => if old(self).posts@.len() == 0 {
                        final(self).notice is Some && final(self).notice->Some_0@
                            == "Failed to load posts: "@ + e@
                    } else {
                        final(self).notice == old(self).notice
                    },
                    PostsFetchError::Cancelled => final(self).notice == old(self).notice,
                }
            },
    {
        if !self.requests.finish(request_id) {
            return;
        }
        self.loading = false;
        match result {
            Ok(payload) => {
                self.notice = None;
                match payload.story_ids {
                    Some(ids) => {
                        self.story_ids = ids;
                    },
                    None => {},
                }
                self.next_story_index = payload.next_story_index;
                let mut incoming = posts_from_items(payload.items);
                match payload.mode {
                    PostsFetchMode::Replace => {
                        self.posts = incoming;
                    },
                    PostsFetchMode::Append => {
                        let ghost before = post_views(self.posts@);
                        let ghost added = post_views(incoming@);
                        self.posts.append(&mut incoming);
                        assert(post_views(self.posts@) =~= before + added);
                    },
                }
                self.last_fetched = Some(fetched_label);
                self.has_more_posts = self.next_story_index < self.story_ids.len();
                assert(post_views(self.posts@).len() == self.posts@.len());
                self.selected = clamp_selection(self.selected, self.posts.len());
                self.cache_current_feed();
            },
            Err(PostsFetchError::Cancelled) => {},
            Err(PostsFetchError::Failed(err)) => {
                if self.posts.len() == 0 {
                    let mut notice = String::from_str("Failed to load posts: ");
                    notice.append(err.as_str());
                    self.notice = Some(notice);
                }
            },
        }
    }

    /// Selects the next post, wrapping round to the first.
    pub fn select_next(&mut self)
        ensures
            final(self).selected == if old(self).posts@.len() == 0 {
                None
            } else {
                match old(self).selected {
                    Some(i) => if i + 1 < old(self).posts@.len() {
                        Some((i + 1) as usize)
                    } else {
                        Some(0usize)
                    },
                    None => Some(0usize),
                }
            },
            final(self).posts == old(self).posts,
            final(self).cache == old(self).cache,
            final(self).feed == old(self).feed,
    {
        let len = self.posts.len();
        if len == 0 {
            self.selected = None;
            return;
        }
        let next = match self.selected {
            Some(i) => if i < len - 1 {
                i + 1
            } else {
                0
            },
            None => 0,
        };
        self.selected = Some(next);
    }

    /// Selects the previous post, wrapping round to the last.
    pub fn select_previous(&mut self)
        ensures
            final(self).selected == if old(self).posts@.len() == 0 {
                None
            } else {
                match old(self).selected {
                    Some(i) => if i == 0 {
                        Some((old(self).posts@.len() - 1) as usize)
                    } else {
                        Some((i - 1) as usize)
                    },
                    None => Some((old(self).posts@.len() - 1) as usize),
                }
            },
            final(self).posts == old(self).posts,
            final(self).cache == old(self).cache,
            final(self).feed == old(self).feed,
    {
        let len = self.posts.len();
        if len == 0 {
            self.selected = None;
            return;
        }
        let prev = match self.selected {
            Some(i) => if i == 0 {
                len - 1
            } else {
                i - 1
            },
            None => len - 1,
        };
        self.selected = Some(prev);
    }

    /// The selected post, if any.
    pub fn selected_post(&self) -> (r: Option<&Post>)
        ensures
            r == match self.selected {
                Some(i) => if i < self.posts@.len() {
                    Some(&self.posts@[i as int])
                } else {
                    None
                },
                None => None,
            },
    {
        match self.selected {
            Some(i) => if i < self.posts.len() {
                Some(&self.posts[i])
            } else {
                None
            },
            None => None,
        }
    }

    /// Switches to another feed tab: the outgoing feed's state is stored,
    /// then the incoming one's is restored, or starts empty. Returns whether
    /// the feed changed, in which case it is to be refreshed.
    pub fn switch_to_feed(&mut self, next_feed: FeedTab) -> (r: bool)
        requires
            old(self).wf(),
        ensures
            final(self).wf(),
            r == (next_feed != old(self).feed),
            !r ==> *final(self) == *old(self),
            r ==> feed_switched(*old(self), *final(self), next_feed),
    {
        if next_feed == self.feed {
            return false;
        }
        self.cache_current_feed();
        self.feed = next_feed;
        if !self.restore_feed_from_cache(next_feed) {
            self.clear_feed_state();
        }
        true
    }

    /// Switches `delta` tabs away, counted round the tabs (1 for the next
    /// tab, -1 for the previous), as `switch_to_feed` does.
    pub fn switch_feed(&mut self, delta: isize) -> (r: bool)
        requires
            old(self).wf(),
        ensures
            final(self).wf(),
            ({
                let next = feed_at((feed_index(old(self).feed) + delta) % (FEED_COUNT as int));
                &&& r == (next != old(self).feed)
                &&& !r ==> *final(self) == *old(self)
                &&& r ==> feed_switched(*old(self), *final(self), next)
            }),
    {
        let next = self.feed.shifted(delta);
        self.switch_to_feed(next)
    }
}


// ---------------------------------------------------------------------------
// The comments view and its cache
// ---------------------------------------------------------------------------

/// How long, in seconds, cached comments are shown without a refresh.
pub const COMMENTS_CACHE_REFRESH_AFTER_SECS: u64 = 90;

/// How many comments a thread shows at most.
pub const COMMENTS_LIMIT: usize = 75;

/// A materialized thread and the instant, in seconds, it was fetched.
pub struct CachedComments {
    pub comments: Vec<Comment>,
    pub fetched_at: u64,
}

/// Cached comments fetched at `fetched_at` are fresh at `now` while younger
/// than the refresh threshold.
pub open spec fn is_fresh(fetched_at: u64, now: u64) -> bool {
    now < fetched_at + COMMENTS_CACHE_REFRESH_AFTER_SECS
}

pub open spec fn jobs_notice() -> Seq<char> {
    "Jobs do not have comment threads."@
}

/// The comments view: which post it shows, what it displays, and the
/// threads fetched so far, by post id.
pub struct CommentsState {
    pub open: bool,
    pub comments: Vec<Comment>,
    pub for_post_id: Option<u64>,
    pub loading: bool,
    pub error: Option<String>,
    pub notice: Option<String>,
    pub cache: HashMap<u64, CachedComments>,
}

impl CommentsState {
    pub fn new() -> (r: CommentsState)
        ensures
            !r.open,
            r.comments@.len() == 0,
            r.for_post_id is None,
            !r.loading,
            r.error is None,
            r.notice is None,
            r.cache@ == Map::<u64, CachedComments>::empty(),
    {
        CommentsState {
            open: false,
            comments: Vec::new(),
            for_post_id: None,
            loading: false,
            error: None,
            notice: None,
            cache: HashMap::new(),
        }
    }

    /// Closes the view; the cache stays.
    pub fn reset(&mut self)
        ensures
            !final(self).open,
            final(self).comments@.len() == 0,
            final(self).for_post_id is None,
            !final(self).loading,
            final(self).error is None,
            final(self).notice is None,
            final(self).cache@ == old(self).cache@,
    {
        self.open = false;
        self.comments = Vec::new();
        self.for_post_id = None;
        self.loading = false;
        self.error = None;
        self.notice = None;
    }

    /// Opens the thread of `post_id` at `now` (seconds). A job shows a
    /// notice and fetches nothing. Cached comments are shown at once, and
    /// are refreshed in the background only once stale; with none cached
    /// the view is loading. Returns whether a fetch is to be issued.
    pub fn open_comments(&mut self, post_id: u64, post_type: PostType, now: u64) -> (fetch: bool)
        ensures
            final(self).open,
            final(self).for_post_id == Some(post_id),
            final(self).error is None,
            final(self).cache@ == old(self).cache@,
            final(self).loading == fetch,
            post_type == PostType::Job ==> !fetch && final(self).comments@.len() == 0
                && final(self).notice is Some && final(self).notice->Some_0@ == jobs_notice(),
            post_type == PostType::Story ==> final(self).notice is None,
            post_type == PostType::Story && old(self).cache@.contains_key(post_id) ==> {
                let entry = old(self).cache@[post_id];
                &&& comment_views(final(self).comments@) == comment_views(entry.comments@)
                &&& fetch == !is_fresh(entry.fetched_at, now)
            },
            post_type == PostType::Story && !old(self).cache@.contains_key(post_id) ==> fetch
                && final(self).comments@.len() == 0,
    {
        self.open = true;
        self.for_post_id = Some(post_id);
        self.error = None;
        self.notice = None;
        self.loading = false;
        if post_type == PostType::Job {
            self.comments = Vec::new();
            self.notice = Some(String::from_str("Jobs do not have comment threads."));
            return false;
        }
        let should_refresh = match self.cache.get(&post_id) {
            Some(cached) => {
                self.comments = copy_comments(&cached.comments);
                !(now < cached.fetched_at || now - cached.fetched_at < COMMENTS_CACHE_REFRESH_AFTER_SECS)
            },
            None => {
                self.comments = Vec::new();
                true
            },
        };
        self.loading = should_refresh;
        should_refresh
    }

    /// Applies a fetched thread of `post_id`, fetched at `now`. Ignored
    /// unless the view is open on that post. A thread replaces the cache
    /// entry and what is shown. A failure is silent while a cached thread
    /// stays shown; with nothing cached it is shown as the error.
    pub fn comments_loaded(&mut self, post_id: u64, result: Result<Vec<Comment>, String>, now: u64)
        ensures
            !old(self).open || old(self).for_post_id != Some(post_id) ==> *final(self) == *old(self),
            old(self).open && old(self).for_post_id == Some(post_id) ==> {
                &&& final(self).open
                &&& final(self).for_post_id == Some(post_id)
                &&& !final(self).loading
            },
            old(self).open && old(self).for_post_id == Some(post_id) && result is Ok ==> {
                let fetched = comment_views(result->Ok_0@);
                &&& comment_views(final(self).comments@) == fetched
                &&& final(self).error is None
                &&& final(self).notice is None
                &&& final(self).cache@.dom() == old(self).cache@.dom().insert(post_id)
                &&& comment_views(final(self).cache@[post_id].comments@) == fetched
                &&& final(self).cache@[post_id].fetched_at == now
                &&& forall|k: u64| k != post_id && #[trigger] old(self).cache@.contains_key(k)
                    ==> final(self).cache@[k] == old(self).cache@[k]
            },
            old(self).open && old(self).for_post_id == Some(post_id) && result is Err ==> {
                &&& final(self).cache@ == old(self).cache@
                &&& old(self).cache@.contains_key(post_id) ==> final(self).comments
                    == old(self).comments && final(self).error is None && final(self).notice
                    == old(self).notice
                &&& !old(self).cache@.contains_key(post_id) ==> final(self).comments@.len() == 0
                    && final(self).error == Some(result->Err_0) && final(self).notice is None
            },
    {
        if !self.open {
            return;
        }
        match self.for_post_id {
            Some(id) => if id != post_id {
                return;
            },
            None => {
                return;
            },
        }
        self.loading = false;
        match result {
            Ok(comments) => {
                let kept = copy_comments(&comments);
                self.cache.insert(post_id, CachedComments { comments: kept, fetched_at: now });
                self.comments = comments;
                self.error = None;
                self.notice = None;
            },
            Err(err) => {
                if self.cache.contains_key(&post_id) {
                    self.error = None;
                } else {
                    self.comments = Vec::new();
                    self.error = Some(err);
                    self.notice = None;
                }
            },
        }
    }
}

} // verus!
