use std::collections::{HashMap, HashSet};
use vstd::prelude::*;

use crate::text::{clean_comment_text, clean_text, push_all, string_of};
use crate::ui::{decimal, decimal_chars};

verus! {

broadcast use vstd::std_specs::hash::group_hash_axioms;

/// A raw record of the content source, addressed by its id.
#[derive(Debug)]
pub struct Item {
    pub id: u64,
    pub title: Option<String>,
    pub url: Option<String>,
    pub score: Option<u64>,
    pub descendants: Option<u64>,
    pub by: Option<String>,
    pub time: Option<u64>,
    pub text: Option<String>,
    pub kids: Option<Vec<u64>>,
    pub kind: Option<String>,
    pub dead: bool,
    pub deleted: bool,
}

/// A display-ready comment with its position in the thread.
#[derive(Debug)]
pub struct Comment {
    pub author: String,
    pub text: String,
    pub published_at: u64,
    pub depth: usize,
    pub ancestor_has_next_sibling: Vec<bool>,
    pub is_last_sibling: bool,
}

/// The mathematical value of a `Comment`.
pub struct CommentView {
    pub author: Seq<char>,
    pub text: Seq<char>,
    pub published_at: u64,
    pub depth: nat,
    pub ancestor_has_next_sibling: Seq<bool>,
    pub is_last_sibling: bool,
}

impl View for Comment {
    type V = CommentView;

    open spec fn view(&self) -> CommentView {
        CommentView {
            author: self.author@,
            text: self.text@,
            published_at: self.published_at,
            depth: self.depth as nat,
            ancestor_has_next_sibling: self.ancestor_has_next_sibling@,
            is_last_sibling: self.is_last_sibling,
        }
    }
}

pub open spec fn comment_views(v: Seq<Comment>) -> Seq<CommentView> {
    v.map_values(|c: Comment| c@)
}

impl Comment {
    /// A copy of this comment.
    pub fn duplicate(&self) -> (r: Comment)
        ensures
            r@ == self@,
    {
        Comment {
            author: self.author.clone(),
            text: self.text.clone(),
            published_at: self.published_at,
            depth: self.depth,
            ancestor_has_next_sibling: copy_vec(&self.ancestor_has_next_sibling),
            is_last_sibling: self.is_last_sibling,
        }
    }
}

/// A copy of a sequence of comments.
pub fn copy_comments(v: &Vec<Comment>) -> (r: Vec<Comment>)
    ensures
        comment_views(r@) == comment_views(v@),
{
    let mut out: Vec<Comment> = Vec::new();
    let mut i: usize = 0;
    while i < v.len()
        invariant
            i <= v@.len(),
            comment_views(out@) == comment_views(v@).take(i as int),
        decreases v@.len() - i,
    {
        let c = v[i].duplicate();
        let ghost before = comment_views(out@);
        out.push(c);
        assert(comment_views(out@) =~= before.push(c@));
        assert(comment_views(v@)[i as int] == c@);
        assert(comment_views(out@) =~= comment_views(v@).take(i + 1));
        i += 1;
    }
    assert(comment_views(v@).take(v@.len() as int) =~= comment_views(v@));
    out
}

/// The feeds of root ids that the content source offers.
#[derive(Debug, Clone, Copy, PartialEq, Eq)]
pub enum StoryFeed {
    Top,
    New,
    Ask,
    Show,
    Jobs,
    Best,
}

pub open spec fn endpoint_of(feed: StoryFeed) -> Seq<char> {
    match feed {
        StoryFeed::Top => "topstories"@,
        StoryFeed::New => "newstories"@,
        StoryFeed::Ask => "askstories"@,
        StoryFeed::Show => "showstories"@,
        StoryFeed::Jobs => "jobstories"@,
        StoryFeed::Best => "beststories"@,
    }
}

impl StoryFeed {
    /// The name under which the source publishes this feed.
    pub fn endpoint(self) -> (r: &'static str)
        ensures
            r@ == endpoint_of(self),
    {
        match self {
            StoryFeed::Top => "topstories",
            StoryFeed::New => "newstories",
            StoryFeed::Ask => "askstories",
            StoryFeed::Show => "showstories",
            StoryFeed::Jobs => "jobstories",
            StoryFeed::Best => "beststories",
        }
    }
}

/// The discussion page of an item, the link of an item that has none.
pub open spec fn discussion_url(id: u64) -> Seq<char> {
    "https://news.ycombinator.com/item?id="@ + decimal(id as nat)
}

/// Gives an item without a link the link of its discussion page.
pub fn fill_discussion_url(item: &mut Item)
    ensures
        old(item).url is None ==> final(item).url is Some && final(item).url->Some_0@
            == discussion_url(old(item).id),
        old(item).url is Some ==> final(item).url == old(item).url,
        final(item).id == old(item).id,
        final(item).kind == old(item).kind,
        final(item).title == old(item).title,
        final(item).dead == old(item).dead,
        final(item).deleted == old(item).deleted,
{
    if item.url.is_none() {
        let base = "https://news.ycombinator.com/item?id=";
        let mut link = crate::text::chars_of(base);
        let digits = decimal_chars(item.id);
        push_all(&mut link, &digits);
        item.url = Some(string_of(&link));
    }
}

// ---------------------------------------------------------------------------
// What an item contributes
// ---------------------------------------------------------------------------

pub open spec fn kids_of(item: Item) -> Seq<u64> {
    match item.kids {
        Some(k) => k@,
        None => Seq::empty(),
    }
}

pub open spec fn text_of(item: Item) -> Seq<char> {
    match item.text {
        Some(t) => t@,
        None => Seq::empty(),
    }
}

pub open spec fn time_of(item: Item) -> u64 {
    match item.time {
        Some(t) => t,
        None => 0,
    }
}

/// The author shown when an item names none.
pub open spec fn unknown_author() -> Seq<char> {
    seq!['u', 'n', 'k', 'n', 'o', 'w', 'n']
}

pub open spec fn author_of(item: Item) -> Seq<char> {
    match item.by {
        Some(b) => if b@.len() > 0 {
            b@
        } else {
            unknown_author()
        },
        None => unknown_author(),
    }
}

pub open spec fn comment_kind() -> Seq<char> {
    seq!['c', 'o', 'm', 'm', 'e', 'n', 't']
}

pub open spec fn is_comment_kind(item: Item) -> bool {
    match item.kind {
        Some(k) => k@ == comment_kind(),
        None => false,
    }
}

/// A place in the thread: the id found there, the ids above it (outermost
/// first), whether each of those still has a later sibling, and whether this
/// node is the last of its siblings.
pub struct Slot {
    pub id: u64,
    pub path: Seq<u64>,
    pub ancestors: Seq<bool>,
    pub is_last: bool,
}

pub open spec fn root_slot(roots: Seq<u64>, i: int) -> Slot {
    Slot { id: roots[i], path: Seq::empty(), ancestors: Seq::empty(), is_last: i + 1 == roots.len() }
}

pub open spec fn child_slot(parent: Slot, kids: Seq<u64>, i: int) -> Slot {
    Slot {
        id: kids[i],
        path: parent.path.push(parent.id),
        ancestors: parent.ancestors.push(!parent.is_last),
        is_last: i + 1 == kids.len(),
    }
}

/// The node that a fetched item shows at `slot`, if it shows one: only a
/// live comment whose cleaned text is not empty does.
pub open spec fn visible_node(item: Item, slot: Slot) -> Option<CommentView> {
    if item.dead || item.deleted || !is_comment_kind(item) || clean_text(text_of(item)).len() == 0 {
        None
    } else {
        Some(
            CommentView {
                author: author_of(item),
                text: clean_text(text_of(item)),
                published_at: time_of(item),
                depth: slot.path.len(),
                ancestor_has_next_sibling: slot.ancestors,
                is_last_sibling: slot.is_last,
            },
        )
    }
}

/// One step of the pre-order walk.
pub enum WalkEvent {
    /// The id failed for good, or leads back to one of its own ancestors:
    /// it and everything below it are pruned.
    Skip,
    /// The id is neither fetched nor failed: the walk cannot go on.
    Missing,
    /// A fetched item, with the node it shows, if any.
    Visit(Option<CommentView>),
}

/// The pre-order walk of the subtree at `slot`. A failed id is pruned with
/// its whole subtree, whether or not an item of it was fetched. An id that
/// repeats one of its ancestors (the walk would never end) is pruned too; a
/// path longer than the number of fetched items must repeat one.
pub open spec fn subtree_events(items: Map<u64, Item>, failed: Set<u64>, slot: Slot) -> Seq<
    WalkEvent,
>
    decreases items.dom().len() - slot.path.len(), 0int,
{
    if failed.contains(slot.id) {
        seq![WalkEvent::Skip]
    } else if !items.contains_key(slot.id) {
        seq![WalkEvent::Missing]
    } else if slot.path.contains(slot.id) || slot.path.len() >= items.dom().len() {
        seq![WalkEvent::Skip]
    } else {
        seq![WalkEvent::Visit(visible_node(items[slot.id], slot))] + kids_events(
            items,
            failed,
            slot,
            0,
        )
    }
}

/// The walks of the children of `parent`, from the `i`-th on, one after the other.
pub open spec fn kids_events(items: Map<u64, Item>, failed: Set<u64>, parent: Slot, i: int) -> Seq<
    WalkEvent,
>
    decreases items.dom().len() - parent.path.len() - 1, kids_of(items[parent.id]).len() - i,
{
    let kids = kids_of(items[parent.id]);
    if i < 0 || i >= kids.len() {
        Seq::empty()
    } else {
        subtree_events(items, failed, child_slot(parent, kids, i)) + kids_events(
            items,
            failed,
            parent,
            i + 1,
        )
    }
}

/// The walks of the root ids, from the `i`-th on.
pub open spec fn forest_events(items: Map<u64, Item>, failed: Set<u64>, roots: Seq<u64>, i: int) -> Seq<
    WalkEvent,
>
    decreases roots.len() - i,
{
    if i < 0 || i >= roots.len() {
        Seq::empty()
    } else {
        subtree_events(items, failed, root_slot(roots, i)) + forest_events(items, failed, roots, i + 1)
    }
}

/// Runs the events of a walk, collecting the visible nodes until `limit` of
/// them are collected. `None` when a missing id comes first.
pub open spec fn walk_outcome(events: Seq<WalkEvent>, limit: nat, acc: Seq<CommentView>) -> Option<
    Seq<CommentView>,
>
    decreases events.len(),
{
    if acc.len() >= limit || events.len() == 0 {
        Some(acc)
    } else {
        match events[0] {
            WalkEvent::Missing => None,
            WalkEvent::Skip => walk_outcome(events.skip(1), limit, acc),
            WalkEvent::Visit(None) => walk_outcome(events.skip(1), limit, acc),
            WalkEvent::Visit(Some(c)) => walk_outcome(events.skip(1), limit, acc.push(c)),
        }
    }
}

/// What a materialization pass yields over the items fetched so far: the
/// first `limit` visible nodes of the pre-order walk from the root ids, or
/// `None` when the walk meets an id that is neither fetched nor failed first.
pub open spec fn materialize(
    roots: Seq<u64>,
    limit: nat,
    items: Map<u64, Item>,
    failed: Set<u64>,
) -> Option<Seq<CommentView>> {
    walk_outcome(forest_events(items, failed, roots, 0), limit, Seq::empty())
}

/// The failed ids together with every id that is not fetched: a pass over
/// it treats the ids still unresolved as failed.
pub open spec fn settled(items: Map<u64, Item>, failed: Set<u64>) -> Set<u64> {
    failed.union(Set::new(|id: u64| !items.contains_key(id)))
}


// ---------------------------------------------------------------------------
// The materialization pass
// ---------------------------------------------------------------------------

/// A node waiting on the walk's stack.
struct PendingComment {
    id: u64,
    depth: usize,
    ancestor_has_next_sibling: Vec<bool>,
    is_last_sibling: bool,
    path: Vec<u64>,
}

impl PendingComment {
    spec fn slot(&self) -> Slot {
        Slot {
            id: self.id,
            path: self.path@,
            ancestors: self.ancestor_has_next_sibling@,
            is_last: self.is_last_sibling,
        }
    }

    spec fn wf(&self) -> bool {
        self.depth == self.path@.len() && self.ancestor_has_next_sibling@.len() == self.depth
    }
}

spec fn slots(s: Seq<PendingComment>) -> Seq<Slot> {
    s.map_values(|p: PendingComment| p.slot())
}

/// The walks still to do for a stack of slots, the top (last) one first.
spec fn stack_events(items: Map<u64, Item>, failed: Set<u64>, s: Seq<Slot>) -> Seq<WalkEvent>
    decreases s.len(),
{
    if s.len() == 0 {
        Seq::empty()
    } else {
        subtree_events(items, failed, s.last()) + stack_events(items, failed, s.drop_last())
    }
}

pub fn copy_vec<T: Copy>(v: &Vec<T>) -> (r: Vec<T>)
    ensures
        r@ == v@,
{
    let mut out: Vec<T> = Vec::new();
    let mut i: usize = 0;
    while i < v.len()
        invariant
            i <= v@.len(),
            out@ == v@.take(i as int),
        decreases v@.len() - i,
    {
        out.push(v[i]);
        assert(v@.take(i + 1) =~= v@.take(i as int).push(v@[i as int]));
        i += 1;
    }
    assert(v@.take(v@.len() as int) =~= v@);
    out
}

fn contains_id(ids: &Vec<u64>, id: u64) -> (r: bool)
    ensures
        r == ids@.contains(id),
{
    let mut i: usize = 0;
    while i < ids.len()
        invariant
            i <= ids@.len(),
            forall|k: int| 0 <= k < i ==> ids@[k] != id,
        decreases ids@.len() - i,
    {
        if ids[i] == id {
            return true;
        }
        i += 1;
    }
    false
}

fn is_comment(kind: &Option<String>) -> (r: bool)
    ensures
        r == match kind {
            Some(k) => k@ == comment_kind(),
            None => false,
        },
{
    match kind {
        Some(k) => {
            let expected = String::from_str("comment");
            proof {
                reveal_strlit("comment");
            }
            assert(expected@ =~= comment_kind());
            *k == expected
        },
        None => false,
    }
}

fn unknown_author_string() -> (r: String)
    ensures
        r@ == unknown_author(),
{
    let r = String::from_str("unknown");
    proof {
        reveal_strlit("unknown");
    }
    assert(r@ =~= unknown_author());
    r
}

/// The node that `item` shows at the place of `node`, if any.
fn visible_comment(item: &Item, node: PendingComment) -> (r: Option<Comment>)
    requires
        node.wf(),
    ensures
        match r {
            Some(c) => visible_node(*item, node.slot()) == Some(c@) && c.depth
                == c.ancestor_has_next_sibling@.len(),
            None => visible_node(*item, node.slot()) is None,
        },
{
    if item.dead || item.deleted || !is_comment(&item.kind) {
        return None;
    }
    let text = match &item.text {
        Some(t) => clean_comment_text(t.as_str()),
        None => {
            let empty = String::new();
            clean_comment_text(empty.as_str())
        },
    };
    if text.as_str().is_empty() {
        return None;
    }
    let author = match &item.by {
        Some(b) => if b.as_str().is_empty() {
            unknown_author_string()
        } else {
            b.clone()
        },
        None => unknown_author_string(),
    };
    let published_at = match item.time {
        Some(t) => t,
        None => 0,
    };
    let c = Comment {
        author,
        text,
        published_at,
        depth: node.depth,
        ancestor_has_next_sibling: node.ancestor_has_next_sibling,
        is_last_sibling: node.is_last_sibling,
    };
    assert(c@ == visible_node(*item, node.slot())->Some_0);
    Some(c)
}

/// One materialization pass over the items fetched so far (see `materialize`):
/// the first `limit` visible nodes in pre-order, or `None` when an id that
/// is neither fetched nor failed comes before them.
pub fn build_comments_from_cache(
    root_kids: &[u64],
    limit: usize,
    items_by_id: &HashMap<u64, Item>,
    failed_ids: &HashSet<u64>,
) -> (r: Option<Vec<Comment>>)
    ensures
        r is Some <==> materialize(root_kids@, limit as nat, items_by_id@, failed_ids@) is Some,
        r is Some ==> materialize(root_kids@, limit as nat, items_by_id@, failed_ids@) == Some(
            comment_views(r->Some_0@),
        ),
        r is Some ==> forall|i: int|
            0 <= i < r->Some_0@.len() ==> (#[trigger] r->Some_0@[i]).depth
                == r->Some_0@[i].ancestor_has_next_sibling@.len(),
{
    pass_over_cache(root_kids, limit, items_by_id, failed_ids, false)
}

/// The pass, over `failed_ids` alone, or also over every id not fetched
/// when `unresolved_failed` holds.
fn pass_over_cache(
    root_kids: &[u64],
    limit: usize,
    items_by_id: &HashMap<u64, Item>,
    failed_ids: &HashSet<u64>,
    unresolved_failed: bool,
) -> (r: Option<Vec<Comment>>)
    ensures
        ({
            let failed = if unresolved_failed {
                settled(items_by_id@, failed_ids@)
            } else {
                failed_ids@
            };
            &&& r is Some <==> materialize(root_kids@, limit as nat, items_by_id@, failed) is Some
            &&& r is Some ==> materialize(root_kids@, limit as nat, items_by_id@, failed) == Some(
                comment_views(r->Some_0@),
            )
        }),
        r is Some ==> forall|i: int|
            0 <= i < r->Some_0@.len() ==> (#[trigger] r->Some_0@[i]).depth
                == r->Some_0@[i].ancestor_has_next_sibling@.len(),
{
    let ghost items = items_by_id@;
    let ghost failed = if unresolved_failed {
        settled(items_by_id@, failed_ids@)
    } else {
        failed_ids@
    };
    let ghost roots = root_kids@;
    let root_count = root_kids.len();
    let item_count = items_by_id.len();
    let mut stack: Vec<PendingComment> = Vec::new();
    let mut j: usize = root_count;
    while j > 0
        invariant
            j <= root_count == roots.len(),
            roots == root_kids@,
            forall|k: int| 0 <= k < stack@.len() ==> (#[trigger] stack@[k]).wf(),
            stack_events(items, failed, slots(stack@)) == forest_events(items, failed, roots, j as int),
        decreases j,
    {
        j -= 1;
        let ghost before = slots(stack@);
        stack.push(
            PendingComment {
                id: root_kids[j],
                depth: 0,
                ancestor_has_next_sibling: Vec::new(),
                is_last_sibling: j + 1 == root_count,
                path: Vec::new(),
            },
        );
        assert(slots(stack@).drop_last() =~= before);
        assert(slots(stack@).last() == root_slot(roots, j as int));
    }
    let mut comments: Vec<Comment> = Vec::new();
    assert(comment_views(comments@) =~= Seq::<CommentView>::empty());
    while stack.len() > 0 && comments.len() < limit
        invariant
            forall|k: int| 0 <= k < stack@.len() ==> (#[trigger] stack@[k]).wf(),
            items == items_by_id@,
            item_count == items.dom().len(),
            failed == (if unresolved_failed {
                settled(items_by_id@, failed_ids@)
            } else {
                failed_ids@
            }),
            roots == root_kids@,
            walk_outcome(stack_events(items, failed, slots(stack@)), limit as nat, comment_views(comments@))
                == materialize(roots, limit as nat, items, failed),
            forall|i: int|
                0 <= i < comments@.len() ==> (#[trigger] comments@[i]).depth
                    == comments@[i].ancestor_has_next_sibling@.len(),
        decreases stack_events(items, failed, slots(stack@)).len(),
    {
        let ghost before_slots = slots(stack@);
        let ghost acc = comment_views(comments@);
        let node = stack.pop().unwrap();
        let ghost slot = node.slot();
        let ghost rest = stack_events(items, failed, slots(stack@));
        let ghost sub = subtree_events(items, failed, slot);
        assert(before_slots.last() == slot);
        assert(before_slots.drop_last() =~= slots(stack@));
        assert(stack_events(items, failed, before_slots) == sub + rest);
        let failed_here = failed_ids.contains(&node.id);
        match items_by_id.get(&node.id) {
            None => {
                if !(failed_here || unresolved_failed) {
                    assert((sub + rest)[0] == WalkEvent::Missing);
                    return None;
                }
                assert((sub + rest).skip(1) =~= rest);
            },
            Some(item) => {
                if failed_here || contains_id(&node.path, node.id) || node.path.len() >= item_count {
                    assert((sub + rest).skip(1) =~= rest);
                } else {
                    let ghost kids = kids_of(*item);
                    let no_kids: Vec<u64> = Vec::new();
                    let child_ids: &Vec<u64> = match &item.kids {
                        Some(k) => k,
                        None => &no_kids,
                    };
                    assert(child_ids@ == kids);
                    let mut child_anc = copy_vec(&node.ancestor_has_next_sibling);
                    child_anc.push(!node.is_last_sibling);
                    let mut child_path = copy_vec(&node.path);
                    child_path.push(node.id);
                    let child_count = child_ids.len();
                    let mut k: usize = child_count;
                    assert(kids_events(items, failed, slot, child_count as int) =~= Seq::<WalkEvent>::empty());
                    assert(Seq::<WalkEvent>::empty() + rest =~= rest);
                    while k > 0
                        invariant
                            k <= child_count == kids.len(),
                            child_ids@ == kids,
                            kids == kids_of(items[slot.id]),
                            items.contains_key(slot.id),
                            child_anc@ == slot.ancestors.push(!slot.is_last),
                            slot.ancestors.len() == slot.path.len(),
                            child_path@ == slot.path.push(slot.id),
                            node.depth == slot.path.len(),
                            node.depth < item_count,
                            forall|q: int| 0 <= q < stack@.len() ==> (#[trigger] stack@[q]).wf(),
                            stack_events(items, failed, slots(stack@)) == kids_events(items, failed, slot, k as int) + rest,
                        decreases k,
                    {
                        k -= 1;
                        let ghost before = slots(stack@);
                        stack.push(
                            PendingComment {
                                id: child_ids[k],
                                depth: node.depth + 1,
                                ancestor_has_next_sibling: copy_vec(&child_anc),
                                is_last_sibling: k + 1 == child_count,
                                path: copy_vec(&child_path),
                            },
                        );
                        assert(slots(stack@).drop_last() =~= before);
                        assert(slots(stack@).last() == child_slot(slot, kids, k as int));
                        let ghost here = subtree_events(items, failed, child_slot(slot, kids, k as int));
                        assert(here + (kids_events(items, failed, slot, k + 1) + rest) =~= (here + kids_events(items, failed, slot, k + 1)) + rest);
                    }
                    let ghost kev = kids_events(items, failed, slot, 0);
                    assert(sub == seq![WalkEvent::Visit(visible_node(*item, slot))] + kev);
                    assert((sub + rest).skip(1) =~= kev + rest);
                    match visible_comment(item, node) {
                        Some(c) => {
                            comments.push(c);
                            assert(comment_views(comments@) =~= acc.push(c@));
                            assert(comments@.last().depth == comments@.last().ancestor_has_next_sibling@.len());
                        },
                        None => {},
                    }
                }
            },
        }
    }
    let ghost left = slots(stack@);
    assert(left.len() == 0 ==> stack_events(items, failed, left) =~= Seq::<WalkEvent>::empty());
    Some(comments)
}


// ---------------------------------------------------------------------------
// Fetch rounds
// ---------------------------------------------------------------------------

/// How many items one fetch round asks for at most.
pub const COMMENT_BATCH_SIZE: usize = 20;

/// What the owner of a `CommentLoader` is to do next.
pub enum CommentsAction {
    /// Fetch the post itself and report its child ids with `post_fetched`.
    FetchPost(u64),
    /// Fetch these items and report each outcome with `items_fetched`.
    FetchItems(Vec<u64>),
    /// The thread is materialized.
    Done(Vec<Comment>),
}

/// The decisions of loading a post's comment thread: which ids to fetch in
/// each round, and when the thread can be materialized. The owner performs
/// the fetches and reports their outcomes.
pub struct CommentLoader {
    post_id: u64,
    limit: usize,
    root_kids: Option<Vec<u64>>,
    pending: Vec<u64>,
    scheduled_ids: HashSet<u64>,
    failed_ids: HashSet<u64>,
    items_by_id: HashMap<u64, Item>,
}

pub struct LoaderView {
    pub post_id: u64,
    pub limit: nat,
    pub roots: Option<Seq<u64>>,
    /// Ids discovered and not yet handed out; the last one goes first.
    pub pending: Seq<u64>,
    pub scheduled: Set<u64>,
    pub failed: Set<u64>,
    pub items: Map<u64, Item>,
}

impl View for CommentLoader {
    type V = LoaderView;

    closed spec fn view(&self) -> LoaderView {
        LoaderView {
            post_id: self.post_id,
            limit: self.limit as nat,
            roots: match self.root_kids {
                Some(r) => Some(r@),
                None => None,
            },
            pending: self.pending@,
            scheduled: self.scheduled_ids@,
            failed: self.failed_ids@,
            items: self.items_by_id@,
        }
    }
}

/// The children in `kids` that are not in `scheduled`, last child first,
/// each once.
pub open spec fn fresh_kids(kids: Seq<u64>, scheduled: Set<u64>) -> Seq<u64>
    decreases kids.len(),
{
    if kids.len() == 0 {
        Seq::empty()
    } else if scheduled.contains(kids.last()) {
        fresh_kids(kids.drop_last(), scheduled)
    } else {
        seq![kids.last()] + fresh_kids(kids.drop_last(), scheduled.insert(kids.last()))
    }
}

/// The loader after the item `id` arrived: its unscheduled children join
/// the ids to fetch.
pub open spec fn with_item(v: LoaderView, id: u64, item: Item) -> LoaderView {
    LoaderView {
        pending: v.pending + fresh_kids(kids_of(item), v.scheduled),
        scheduled: v.scheduled + kids_of(item).to_set(),
        items: v.items.insert(id, item),
        ..v
    }
}

/// The loader after fetching `id` failed for good.
pub open spec fn with_failure(v: LoaderView, id: u64) -> LoaderView {
    LoaderView { failed: v.failed.insert(id), ..v }
}

/// The loader after the outcomes of a round, taken from the last to the first.
pub open spec fn with_outcomes(v: LoaderView, outcomes: Seq<(u64, Option<Item>)>) -> LoaderView
    decreases outcomes.len(),
{
    if outcomes.len() == 0 {
        v
    } else {
        let (id, outcome) = outcomes.last();
        let next = match outcome {
            Some(item) => with_item(v, id, item),
            None => with_failure(v, id),
        };
        with_outcomes(next, outcomes.drop_last())
    }
}

/// The number of ids the next round asks for.
pub open spec fn batch_len(pending: Seq<u64>) -> nat {
    if pending.len() < COMMENT_BATCH_SIZE {
        pending.len()
    } else {
        COMMENT_BATCH_SIZE as nat
    }
}

proof fn lemma_skip_to_set(s: Seq<u64>, j: int)
    requires
        0 <= j < s.len(),
    ensures
        s.skip(j).to_set() == s.skip(j + 1).to_set().insert(s[j]),
{
    assert forall|x: u64| #[trigger] s.skip(j).contains(x) <==> (x == s[j] || s.skip(j + 1).contains(x)) by {
        if s.skip(j).contains(x) {
            let q = choose|q: int| 0 <= q < s.skip(j).len() && #[trigger] s.skip(j)[q] == x;
            if q > 0 {
                assert(s.skip(j + 1)[q - 1] == x);
            }
        }
        if s.skip(j + 1).contains(x) {
            let q = choose|q: int| 0 <= q < s.skip(j + 1).len() && #[trigger] s.skip(j + 1)[q] == x;
            assert(s.skip(j)[q + 1] == x);
        }
        if x == s[j] {
            assert(s.skip(j)[0] == x);
        }
    }
    assert(s.skip(j).to_set() =~= s.skip(j + 1).to_set().insert(s[j]));
}

impl CommentLoader {
    /// A loader for the first `limit` comments of the post `post_id`.
    pub fn new(post_id: u64, limit: usize) -> (r: CommentLoader)
        ensures
            r@ == (LoaderView {
                post_id,
                limit: limit as nat,
                roots: None,
                pending: Seq::empty(),
                scheduled: Set::empty(),
                failed: Set::empty(),
                items: Map::empty(),
            }),
    {
        CommentLoader {
            post_id,
            limit,
            root_kids: None,
            pending: Vec::new(),
            scheduled_ids: HashSet::new(),
            failed_ids: HashSet::new(),
            items_by_id: HashMap::new(),
        }
    }

    /// Decides the next step. With a limit of zero the thread is empty and
    /// nothing is fetched; before the post's child ids are known, the post is
    /// fetched; then the thread is done as soon as a pass over what is
    /// fetched succeeds with `limit` nodes or with nothing left to fetch;
    /// with nothing left to fetch and a pass that cannot finish, the thread
    /// is the pass that treats the ids still unresolved as failed. Otherwise
    /// the next round takes up to `COMMENT_BATCH_SIZE` ids from the top of
    /// the pending stack.
    pub fn next_action(&mut self) -> (r: CommentsAction)
        ensures
            old(self)@.limit == 0 ==> r is Done && r->Done_0@.len() == 0 && final(self)@ == old(
                self,
            )@,
            old(self)@.limit > 0 && old(self)@.roots is None ==> r == CommentsAction::FetchPost(
                old(self)@.post_id,
            ) && final(self)@ == old(self)@,
            old(self)@.limit > 0 && old(self)@.roots is Some ==> {
                let v = old(self)@;
                let pass = materialize(v.roots->Some_0, v.limit, v.items, v.failed);
                let done = (pass is Some && (pass->Some_0.len() >= v.limit || v.pending.len() == 0))
                    || v.pending.len() == 0;
                &&& done ==> final(self)@ == v && r is Done
                &&& done && pass is Some ==> comment_views(r->Done_0@) == pass->Some_0
                &&& done && pass is None ==> comment_views(r->Done_0@) == materialize(
                    v.roots->Some_0,
                    v.limit,
                    v.items,
                    settled(v.items, v.failed),
                )->Some_0
                &&& done ==> forall|i: int|
                    0 <= i < r->Done_0@.len() ==> (#[trigger] r->Done_0@[i]).depth
                        == r->Done_0@[i].ancestor_has_next_sibling@.len()
                &&& !done ==> {
                    let n = batch_len(v.pending);
                    &&& r is FetchItems
                    &&& r->FetchItems_0@.len() == n
                    &&& forall|i: int|
                        0 <= i < n ==> #[trigger] r->FetchItems_0@[i] == v.pending[v.pending.len()
                            - 1 - i]
                    &&& final(self)@ == (LoaderView {
                        pending: v.pending.take(v.pending.len() - n),
                        ..v
                    })
                }
            },
    {
        if self.limit == 0 {
            return CommentsAction::Done(Vec::new());
        }
        let pass = match &self.root_kids {
            None => {
                return CommentsAction::FetchPost(self.post_id);
            },
            Some(roots) => build_comments_from_cache(
                roots.as_slice(),
                self.limit,
                &self.items_by_id,
                &self.failed_ids,
            ),
        };
        let nothing_pending = self.pending.len() == 0;
        match pass {
            Some(comments) => {
                if comments.len() >= self.limit || nothing_pending {
                    return CommentsAction::Done(comments);
                }
            },
            None => {
                if nothing_pending {
                    let roots = match &self.root_kids {
                        Some(r) => r,
                        None => {
                            return CommentsAction::FetchPost(self.post_id);
                        },
                    };
                    proof {
                        lemma_settled_pass_succeeds(
                            roots@,
                            self.limit as nat,
                            self.items_by_id@,
                            self.failed_ids@,
                        );
                    }
                    let settled_pass = pass_over_cache(
                        roots.as_slice(),
                        self.limit,
                        &self.items_by_id,
                        &self.failed_ids,
                        true,
                    );
                    return CommentsAction::Done(settled_pass.unwrap());
                }
            },
        }
        let ghost start = self.pending@;
        let mut batch: Vec<u64> = Vec::new();
        while batch.len() < COMMENT_BATCH_SIZE && self.pending.len() > 0
            invariant
                batch@.len() <= COMMENT_BATCH_SIZE,
                batch@.len() + self.pending@.len() == start.len(),
                self.pending@ == start.take(start.len() - batch@.len()),
                forall|i: int| 0 <= i < batch@.len() ==> #[trigger] batch@[i] == start[start.len() - 1 - i],
                self.limit == old(self).limit,
                self.post_id == old(self).post_id,
                self.root_kids == old(self).root_kids,
                self.scheduled_ids@ == old(self).scheduled_ids@,
                self.failed_ids@ == old(self).failed_ids@,
                self.items_by_id@ == old(self).items_by_id@,
            decreases self.pending@.len(),
        {
            let id = self.pending.pop().unwrap();
            batch.push(id);
            assert(self.pending@ =~= start.take(start.len() - batch@.len()));
        }
        CommentsAction::FetchItems(batch)
    }

    /// Records the post's child ids: they become the roots of the thread and
    /// the first ids to fetch, the first child on top.
    pub fn post_fetched(&mut self, kids: Vec<u64>)
        ensures
            final(self)@ == (LoaderView {
                roots: Some(kids@),
                pending: old(self)@.pending + kids@.reverse(),
                scheduled: old(self)@.scheduled + kids@.to_set(),
                ..old(self)@
            }),
    {
        let mut j: usize = kids.len();
        let ghost start = self@;
        while j > 0
            invariant
                j <= kids@.len(),
                self.pending@ == start.pending + kids@.skip(j as int).reverse(),
                self.scheduled_ids@ == start.scheduled + kids@.skip(j as int).to_set(),
                self.root_kids == old(self).root_kids,
                self.limit == old(self).limit,
                self.post_id == old(self).post_id,
                self.failed_ids@ == old(self).failed_ids@,
                self.items_by_id@ == old(self).items_by_id@,
                start == old(self)@,
            decreases j,
        {
            j -= 1;
            let id = kids[j];
            self.pending.push(id);
            self.scheduled_ids.insert(id);
            assert(kids@.skip(j as int) =~= seq![id] + kids@.skip(j + 1));
            assert(kids@.skip(j as int).reverse() =~= kids@.skip(j + 1).reverse().push(id));
            proof {
                lemma_skip_to_set(kids@, j as int);
            }
            assert(start.pending + kids@.skip(j as int).reverse() =~= (start.pending + kids@.skip(j + 1).reverse()).push(id));
            assert(start.scheduled + kids@.skip(j as int).to_set() =~= (start.scheduled + kids@.skip(j + 1).to_set()).insert(id));
        }
        assert(kids@.skip(0) =~= kids@);
        self.root_kids = Some(kids);
    }

    fn record_item(&mut self, id: u64, item: Item)
        ensures
            final(self)@ == with_item(old(self)@, id, item),
    {
        let kids: Vec<u64> = match &item.kids {
            Some(k) => copy_vec(k),
            None => Vec::new(),
        };
        assert(kids@ == kids_of(item));
        let ghost start = self@;
        let mut j: usize = kids.len();
        assert(kids@.take(kids@.len() as int) =~= kids@);
        assert(kids@.skip(kids@.len() as int).to_set() =~= Set::<u64>::empty());
        assert(start.scheduled + Set::<u64>::empty() =~= start.scheduled);
        assert(start.pending + fresh_kids(kids@, start.scheduled) =~= self.pending@ + fresh_kids(
            kids@.take(j as int),
            self.scheduled_ids@,
        ));
        while j > 0
            invariant
                j <= kids@.len(),
                start == old(self)@,
                start.pending + fresh_kids(kids@, start.scheduled) == self.pending@ + fresh_kids(
                    kids@.take(j as int),
                    self.scheduled_ids@,
                ),
                self.scheduled_ids@ == start.scheduled + kids@.skip(j as int).to_set(),
                self.root_kids == old(self).root_kids,
                self.limit == old(self).limit,
                self.post_id == old(self).post_id,
                self.failed_ids@ == old(self).failed_ids@,
                self.items_by_id@ == old(self).items_by_id@,
            decreases j,
        {
            j -= 1;
            let kid = kids[j];
            let ghost before_pending = self.pending@;
            let ghost before_sched = self.scheduled_ids@;
            assert(kids@.take(j + 1).last() == kid);
            assert(kids@.take(j + 1).drop_last() =~= kids@.take(j as int));
            proof {
                lemma_skip_to_set(kids@, j as int);
            }
            assert(start.scheduled + kids@.skip(j as int).to_set() =~= (start.scheduled
                + kids@.skip(j + 1).to_set()).insert(kid));
            if self.scheduled_ids.insert(kid) {
                self.pending.push(kid);
                let ghost tail = fresh_kids(kids@.take(j as int), self.scheduled_ids@);
                assert(before_pending + (seq![kid] + tail) =~= self.pending@ + tail);
            } else {
                assert(self.scheduled_ids@ =~= before_sched);
            }
        }
        assert(kids@.take(0) =~= Seq::<u64>::empty());
        assert(self.pending@ + Seq::<u64>::empty() =~= self.pending@);
        assert(kids@.skip(0) =~= kids@);
        self.items_by_id.insert(id, item);
    }

    /// Records the outcomes of a round: each fetched item is kept and its
    /// children not yet scheduled join the ids to fetch; each failure is
    /// final, and prunes that id's subtree from every later pass.
    pub fn items_fetched(&mut self, outcomes: Vec<(u64, Option<Item>)>)
        ensures
            final(self)@ == with_outcomes(old(self)@, outcomes@),
    {
        let ghost all = outcomes@;
        let mut outcomes = outcomes;
        while outcomes.len() > 0
            invariant
                                with_outcomes(old(self)@, all) == with_outcomes(self@, outcomes@),
            decreases outcomes@.len(),
        {
            let ghost before = outcomes@;
            let (id, outcome) = outcomes.pop().unwrap();
            assert(before.drop_last() =~= outcomes@);
            match outcome {
                Some(item) => self.record_item(id, item),
                None => {
                    self.failed_ids.insert(id);
                },
            }
        }
    }
}


// ---------------------------------------------------------------------------
// Laws of the materialization pass
// ---------------------------------------------------------------------------

/// The visible nodes among `events`, in order.
pub open spec fn visible_nodes(events: Seq<WalkEvent>) -> Seq<CommentView>
    decreases events.len(),
{
    if events.len() == 0 {
        Seq::empty()
    } else {
        match events[0] {
            WalkEvent::Visit(Some(c)) => seq![c] + visible_nodes(events.skip(1)),
            _ => visible_nodes(events.skip(1)),
        }
    }
}

/// Some id on the walk is neither fetched nor failed.
pub open spec fn meets_missing(events: Seq<WalkEvent>) -> bool {
    exists|i: int| 0 <= i < events.len() && #[trigger] events[i] == WalkEvent::Missing
}

pub open spec fn min_nat(a: nat, b: nat) -> nat {
    if a <= b {
        a
    } else {
        b
    }
}

proof fn lemma_walk_outcome_prefix(events: Seq<WalkEvent>, limit: nat, acc: Seq<CommentView>)
    requires
        !meets_missing(events),
        acc.len() <= limit,
    ensures
        walk_outcome(events, limit, acc) == Some(
            (acc + visible_nodes(events)).take(
                min_nat(limit, acc.len() + visible_nodes(events).len()) as int,
            ),
        ),
    decreases events.len(),
{
    let vis = visible_nodes(events);
    if acc.len() >= limit || events.len() == 0 {
        assert((acc + vis).take(min_nat(limit, acc.len() + vis.len()) as int) =~= acc) by {
            if events.len() == 0 {
                assert(vis =~= Seq::<CommentView>::empty());
            }
        }
    } else {
        let rest = events.skip(1);
        assert(!meets_missing(rest)) by {
            if meets_missing(rest) {
                let i = choose|i: int| 0 <= i < rest.len() && #[trigger] rest[i] == WalkEvent::Missing;
                assert(events[i + 1] == WalkEvent::Missing);
            }
        }
        assert(events[0] != WalkEvent::Missing);
        match events[0] {
            WalkEvent::Visit(Some(c)) => {
                lemma_walk_outcome_prefix(rest, limit, acc.push(c));
                assert(acc.push(c) + visible_nodes(rest) =~= acc + vis);
            },
            _ => {
                lemma_walk_outcome_prefix(rest, limit, acc);
            },
        }
    }
}

/// When every id that the walk reaches is fetched or failed, a pass yields
/// exactly the visible nodes of the pre-order walk from the root ids
/// (comments that are live and have text, pruned subtrees left out), cut
/// after the first `limit`.
pub proof fn lemma_pass_is_preorder_prefix(
    roots: Seq<u64>,
    limit: nat,
    items: Map<u64, Item>,
    failed: Set<u64>,
)
    requires
        !meets_missing(forest_events(items, failed, roots, 0)),
    ensures
        materialize(roots, limit, items, failed) == Some(
            visible_nodes(forest_events(items, failed, roots, 0)).take(
                min_nat(limit, visible_nodes(forest_events(items, failed, roots, 0)).len()) as int,
            ),
        ),
{
    let events = forest_events(items, failed, roots, 0);
    lemma_walk_outcome_prefix(events, limit, Seq::empty());
    assert(Seq::<CommentView>::empty() + visible_nodes(events) =~= visible_nodes(events));
}

/// A pass over a cache that holds every id the walk reaches succeeds, and
/// its result depends on that cache alone: passes over equal caches agree.
pub proof fn lemma_complete_cache_pass(
    roots: Seq<u64>,
    limit: nat,
    items: Map<u64, Item>,
    other_items: Map<u64, Item>,
)
    requires
        !meets_missing(forest_events(items, Set::empty(), roots, 0)),
        other_items == items,
    ensures
        materialize(roots, limit, items, Set::empty()) is Some,
        materialize(roots, limit, other_items, Set::empty()) == materialize(
            roots,
            limit,
            items,
            Set::empty(),
        ),
{
    lemma_pass_is_preorder_prefix(roots, limit, items, Set::empty());
}

/// An id that failed for good contributes no node, and neither does
/// anything below it, whatever the cache holds for it or its descendants.
pub proof fn lemma_failed_subtree_pruned(items: Map<u64, Item>, failed: Set<u64>, slot: Slot)
    requires
        failed.contains(slot.id),
    ensures
        subtree_events(items, failed, slot) == seq![WalkEvent::Skip],
        visible_nodes(subtree_events(items, failed, slot)).len() == 0,
{
    let ev = subtree_events(items, failed, slot);
    assert(ev.skip(1) =~= Seq::<WalkEvent>::empty());
    assert(visible_nodes(ev.skip(1)) =~= Seq::<CommentView>::empty());
}

/// A node shown at a root or child place has one ancestor flag per level
/// of depth, and is marked last exactly when it is the last id of its
/// parent's child list (or of the root list).
pub proof fn lemma_node_position(item: Item, parent: Slot, kids: Seq<u64>, roots: Seq<u64>, i: int)
    requires
        parent.ancestors.len() == parent.path.len(),
    ensures
        visible_node(item, child_slot(parent, kids, i)) is Some ==> {
            let c = visible_node(item, child_slot(parent, kids, i))->Some_0;
            &&& c.depth == c.ancestor_has_next_sibling.len()
            &&& c.depth == parent.path.len() + 1
            &&& c.ancestor_has_next_sibling.last() == !parent.is_last
            &&& c.is_last_sibling == (i + 1 == kids.len())
        },
        visible_node(item, root_slot(roots, i)) is Some ==> {
            let c = visible_node(item, root_slot(roots, i))->Some_0;
            &&& c.depth == 0
            &&& c.ancestor_has_next_sibling.len() == 0
            &&& c.is_last_sibling == (i + 1 == roots.len())
        },
{
}

/// The place reached from the root ids by `route`: its first entry picks a
/// root id, each later one a child of the place before.
pub open spec fn slot_at(items: Map<u64, Item>, roots: Seq<u64>, route: Seq<int>) -> Slot
    decreases route.len(),
{
    if route.len() <= 1 {
        root_slot(
            roots,
            if route.len() == 1 {
                route[0]
            } else {
                0
            },
        )
    } else {
        let parent = slot_at(items, roots, route.drop_last());
        child_slot(parent, kids_of(items[parent.id]), route.last())
    }
}

/// Every entry of `route` picks an existing root id or child.
pub open spec fn valid_route(items: Map<u64, Item>, roots: Seq<u64>, route: Seq<int>) -> bool
    decreases route.len(),
{
    if route.len() == 0 {
        false
    } else if route.len() == 1 {
        0 <= route[0] < roots.len()
    } else {
        valid_route(items, roots, route.drop_last()) && 0 <= route.last() < kids_of(
            items[slot_at(items, roots, route.drop_last()).id],
        ).len()
    }
}

/// No place along `route` (the node's own and each ancestor's) holds a
/// failed id.
pub open spec fn route_avoids(
    items: Map<u64, Item>,
    roots: Seq<u64>,
    failed: Set<u64>,
    route: Seq<int>,
) -> bool {
    forall|k: int|
        1 <= k <= route.len() ==> !failed.contains(
            #[trigger] slot_at(items, roots, route.take(k)).id,
        )
}

/// `c` is the node that the item at some place of the thread shows there,
/// a place reached without passing through a failed id.
pub open spec fn shown_in_thread(
    items: Map<u64, Item>,
    roots: Seq<u64>,
    failed: Set<u64>,
    c: CommentView,
) -> bool {
    exists|route: Seq<int>|
        valid_route(items, roots, route) && route_avoids(items, roots, failed, route)
            && #[trigger] visible_node(
            items[slot_at(items, roots, route).id],
            slot_at(items, roots, route),
        ) == Some(c)
}

pub open spec fn visits_shown(
    items: Map<u64, Item>,
    roots: Seq<u64>,
    failed: Set<u64>,
    events: Seq<WalkEvent>,
) -> bool {
    forall|k: int|
        0 <= k < events.len() ==> match #[trigger] events[k] {
            WalkEvent::Visit(Some(c)) => shown_in_thread(items, roots, failed, c),
            _ => true,
        }
}

proof fn lemma_visits_shown_concat(
    items: Map<u64, Item>,
    roots: Seq<u64>,
    failed: Set<u64>,
    a: Seq<WalkEvent>,
    b: Seq<WalkEvent>,
)
    requires
        visits_shown(items, roots, failed, a),
        visits_shown(items, roots, failed, b),
    ensures
        visits_shown(items, roots, failed, a + b),
{
    assert forall|k: int| 0 <= k < (a + b).len() implies match #[trigger] (a + b)[k] {
        WalkEvent::Visit(Some(c)) => shown_in_thread(items, roots, failed, c),
        _ => true,
    } by {
        if k < a.len() {
            assert((a + b)[k] == a[k]);
        } else {
            assert((a + b)[k] == b[k - a.len()]);
        }
    }
}

proof fn lemma_subtree_shown(items: Map<u64, Item>, failed: Set<u64>, roots: Seq<u64>, route: Seq<int>)
    requires
        valid_route(items, roots, route),
        forall|k: int|
            1 <= k < route.len() ==> !failed.contains(
                #[trigger] slot_at(items, roots, route.take(k)).id,
            ),
    ensures
        visits_shown(items, roots, failed, subtree_events(items, failed, slot_at(items, roots, route))),
    decreases items.dom().len() - slot_at(items, roots, route).path.len(), 0int,
{
    let slot = slot_at(items, roots, route);
    let ev = subtree_events(items, failed, slot);
    if failed.contains(slot.id) || !items.contains_key(slot.id) || slot.path.contains(slot.id)
        || slot.path.len() >= items.dom().len() {
        assert(ev.len() == 1 && !(ev[0] is Visit));
    } else {
        let v = visible_node(items[slot.id], slot);
        let head = seq![WalkEvent::Visit(v)];
        assert(route.take(route.len() as int) =~= route);
        assert(route_avoids(items, roots, failed, route));
        if v is Some {
            assert(shown_in_thread(items, roots, failed, v->Some_0));
        }
        assert(visits_shown(items, roots, failed, head));
        lemma_kids_shown(items, failed, roots, route, 0);
        lemma_visits_shown_concat(items, roots, failed, head, kids_events(items, failed, slot, 0));
    }
}

proof fn lemma_kids_shown(
    items: Map<u64, Item>,
    failed: Set<u64>,
    roots: Seq<u64>,
    route: Seq<int>,
    i: int,
)
    requires
        valid_route(items, roots, route),
        route_avoids(items, roots, failed, route),
        items.contains_key(slot_at(items, roots, route).id),
        slot_at(items, roots, route).path.len() < items.dom().len(),
    ensures
        visits_shown(items, roots, failed, kids_events(items, failed, slot_at(items, roots, route), i)),
    decreases items.dom().len() - slot_at(items, roots, route).path.len() - 1, kids_of(
        items[slot_at(items, roots, route).id],
    ).len() - i,
{
    let parent = slot_at(items, roots, route);
    let kids = kids_of(items[parent.id]);
    if i < 0 || i >= kids.len() {
        assert(kids_events(items, failed, parent, i).len() == 0);
    } else {
        let next = route.push(i);
        assert(next.drop_last() =~= route);
        assert(next.last() == i);
        assert(slot_at(items, roots, next) == child_slot(parent, kids, i));
        assert(valid_route(items, roots, next));
        assert forall|k: int| 1 <= k < next.len() implies !failed.contains(
            #[trigger] slot_at(items, roots, next.take(k)).id,
        ) by {
            assert(next.take(k) =~= route.take(k));
        }
        lemma_subtree_shown(items, failed, roots, next);
        lemma_kids_shown(items, failed, roots, route, i + 1);
        lemma_visits_shown_concat(
            items,
            roots,
            failed,
            subtree_events(items, failed, child_slot(parent, kids, i)),
            kids_events(items, failed, parent, i + 1),
        );
    }
}

proof fn lemma_forest_shown(items: Map<u64, Item>, failed: Set<u64>, roots: Seq<u64>, i: int)
    ensures
        visits_shown(items, roots, failed, forest_events(items, failed, roots, i)),
    decreases roots.len() - i,
{
    if i < 0 || i >= roots.len() {
        assert(forest_events(items, failed, roots, i).len() == 0);
    } else {
        let route = seq![i];
        assert(slot_at(items, roots, route) == root_slot(roots, i));
        assert(valid_route(items, roots, route));
        lemma_subtree_shown(items, failed, roots, route);
        lemma_forest_shown(items, failed, roots, i + 1);
        lemma_visits_shown_concat(
            items,
            roots,
            failed,
            subtree_events(items, failed, root_slot(roots, i)),
            forest_events(items, failed, roots, i + 1),
        );
    }
}

proof fn lemma_walk_shown(
    items: Map<u64, Item>,
    roots: Seq<u64>,
    failed: Set<u64>,
    events: Seq<WalkEvent>,
    limit: nat,
    acc: Seq<CommentView>,
)
    requires
        visits_shown(items, roots, failed, events),
        forall|j: int| 0 <= j < acc.len() ==> shown_in_thread(items, roots, failed, #[trigger] acc[j]),
    ensures
        walk_outcome(events, limit, acc) is Some ==> forall|j: int|
            0 <= j < walk_outcome(events, limit, acc)->Some_0.len() ==> shown_in_thread(
                items,
                roots,
                failed,
                #[trigger] walk_outcome(events, limit, acc)->Some_0[j],
            ),
    decreases events.len(),
{
    if acc.len() >= limit || events.len() == 0 {
    } else {
        let rest = events.skip(1);
        assert forall|k: int| 0 <= k < rest.len() implies match #[trigger] rest[k] {
            WalkEvent::Visit(Some(c)) => shown_in_thread(items, roots, failed, c),
            _ => true,
        } by {
            assert(rest[k] == events[k + 1]);
        }
        let e = events[0];
        match e {
            WalkEvent::Visit(Some(c)) => {
                let next = acc.push(c);
                assert forall|j: int| 0 <= j < next.len() implies shown_in_thread(
                    items,
                    roots,
                    failed,
                    #[trigger] next[j],
                ) by {
                    if j < acc.len() {
                        assert(next[j] == acc[j]);
                    }
                }
                lemma_walk_shown(items, roots, failed, rest, limit, next);
            },
            _ => {
                lemma_walk_shown(items, roots, failed, rest, limit, acc);
            },
        }
    }
}

/// Every node of a successful pass is the node that the item at some place
/// of the thread shows there: a place reached from the root ids by a route
/// of child positions (see `lemma_route_shape` for what that place records)
/// on which neither the node's id nor any ancestor's is a failed id. So no
/// node comes from a failed id, nor from an id below one in the tree.
pub proof fn lemma_pass_nodes_placed(roots: Seq<u64>, limit: nat, items: Map<u64, Item>, failed: Set<u64>)
    ensures
        materialize(roots, limit, items, failed) is Some ==> forall|j: int|
            0 <= j < materialize(roots, limit, items, failed)->Some_0.len() ==> shown_in_thread(
                items,
                roots,
                failed,
                #[trigger] materialize(roots, limit, items, failed)->Some_0[j],
            ),
{
    lemma_forest_shown(items, failed, roots, 0);
    lemma_walk_shown(items, roots, failed, forest_events(items, failed, roots, 0), limit, Seq::empty());
}

/// The place at a route is as deep as the route has parents; it is marked
/// last exactly when its position is the last of its parent's child list
/// (of the root ids at depth 0); and its flag for each ancestor level says
/// whether the ancestor at that level is not the last of its own list.
pub proof fn lemma_route_shape(items: Map<u64, Item>, roots: Seq<u64>, route: Seq<int>)
    requires
        valid_route(items, roots, route),
    ensures
        slot_at(items, roots, route).path.len() == route.len() - 1,
        slot_at(items, roots, route).ancestors.len() == route.len() - 1,
        route.len() == 1 ==> slot_at(items, roots, route).is_last == (route[0] + 1 == roots.len()),
        route.len() > 1 ==> slot_at(items, roots, route).is_last == (route.last() + 1 == kids_of(
            items[slot_at(items, roots, route.drop_last()).id],
        ).len()),
        forall|k: int|
            0 <= k < route.len() - 1 ==> #[trigger] slot_at(items, roots, route).ancestors[k]
                == !slot_at(items, roots, route.take(k + 1)).is_last,
    decreases route.len(),
{
    if route.len() > 1 {
        let up = route.drop_last();
        lemma_route_shape(items, roots, up);
        let s = slot_at(items, roots, route);
        let p = slot_at(items, roots, up);
        assert forall|k: int| 0 <= k < route.len() - 1 implies #[trigger] s.ancestors[k]
            == !slot_at(items, roots, route.take(k + 1)).is_last by {
            if k < route.len() - 2 {
                assert(up.take(k + 1) =~= route.take(k + 1));
                assert(s.ancestors[k] == p.ancestors[k]);
            } else {
                assert(route.take(k + 1) =~= up);
            }
        }
    }
}

proof fn lemma_fresh_kids_listed(kids: Seq<u64>, scheduled: Set<u64>)
    ensures
        forall|k: int|
            0 <= k < fresh_kids(kids, scheduled).len() ==> kids.contains(
                #[trigger] fresh_kids(kids, scheduled)[k],
            ),
    decreases kids.len(),
{
    if kids.len() > 0 {
        let up = kids.drop_last();
        let last = kids.last();
        let f = fresh_kids(kids, scheduled);
        let next = if scheduled.contains(last) {
            scheduled
        } else {
            scheduled.insert(last)
        };
        lemma_fresh_kids_listed(up, next);
        assert forall|k: int| 0 <= k < f.len() implies kids.contains(#[trigger] f[k]) by {
            if scheduled.contains(last) {
                let x = f[k];
                assert(up.contains(x));
                let q = choose|q: int| 0 <= q < up.len() && up[q] == x;
                assert(kids[q] == x);
            } else if k == 0 {
                assert(kids[kids.len() - 1] == last);
            } else {
                let x = f[k];
                assert(f[k] == fresh_kids(up, next)[k - 1]);
                assert(up.contains(x));
                let q = choose|q: int| 0 <= q < up.len() && up[q] == x;
                assert(kids[q] == x);
            }
        }
    }
}

/// Some item fetched in the round `outcomes` lists `x` among its children.
pub open spec fn listed_by_fetched(outcomes: Seq<(u64, Option<Item>)>, x: u64) -> bool {
    exists|j: int|
        0 <= j < outcomes.len() && (#[trigger] outcomes[j]).1 is Some && kids_of(
            outcomes[j].1->Some_0,
        ).contains(x)
}

/// A round of outcomes keeps the ids already waiting, and adds only
/// children listed by items fetched in that round: a failure adds none, so
/// the children of a failed id are asked for only where a fetched item
/// lists them too (in a tree, never).
pub proof fn lemma_round_requests_only_fetched_children(
    v: LoaderView,
    outcomes: Seq<(u64, Option<Item>)>,
)
    ensures
        with_outcomes(v, outcomes).pending.len() >= v.pending.len(),
        with_outcomes(v, outcomes).pending.take(v.pending.len() as int) == v.pending,
        forall|k: int|
            v.pending.len() <= k < with_outcomes(v, outcomes).pending.len() ==> listed_by_fetched(
                outcomes,
                #[trigger] with_outcomes(v, outcomes).pending[k],
            ),
    decreases outcomes.len(),
{
    if outcomes.len() == 0 {
        assert(v.pending.take(v.pending.len() as int) =~= v.pending);
    } else {
        let (id, outcome) = outcomes.last();
        let next = match outcome {
            Some(item) => with_item(v, id, item),
            None => with_failure(v, id),
        };
        let rest = outcomes.drop_last();
        let w = with_outcomes(v, outcomes);
        assert(w == with_outcomes(next, rest));
        lemma_round_requests_only_fetched_children(next, rest);
        assert(next.pending.take(v.pending.len() as int) =~= v.pending);
        assert(w.pending.take(v.pending.len() as int) =~= v.pending) by {
            assert(w.pending.take(next.pending.len() as int) == next.pending);
        }
        if outcome is Some {
            lemma_fresh_kids_listed(kids_of(outcome->Some_0), v.scheduled);
        }
        assert forall|k: int| v.pending.len() <= k < w.pending.len() implies listed_by_fetched(
            outcomes,
            #[trigger] w.pending[k],
        ) by {
            if k >= next.pending.len() {
                assert(listed_by_fetched(rest, w.pending[k]));
                let j = choose|j: int|
                    0 <= j < rest.len() && (#[trigger] rest[j]).1 is Some && kids_of(
                        rest[j].1->Some_0,
                    ).contains(w.pending[k]);
                assert(outcomes[j] == rest[j]);
            } else {
                assert(w.pending[k] == w.pending.take(next.pending.len() as int)[k]);
                assert(w.pending[k] == next.pending[k]);
                let item = outcome->Some_0;
                let f = fresh_kids(kids_of(item), v.scheduled);
                assert(next.pending[k] == f[k - v.pending.len()]);
                assert(outcomes[outcomes.len() - 1] == outcomes.last());
            }
        }
    }
}

proof fn lemma_no_missing_concat(a: Seq<WalkEvent>, b: Seq<WalkEvent>)
    requires
        !meets_missing(a),
        !meets_missing(b),
    ensures
        !meets_missing(a + b),
{
    if meets_missing(a + b) {
        let k = choose|k: int| 0 <= k < (a + b).len() && #[trigger] (a + b)[k] == WalkEvent::Missing;
        if k < a.len() {
            assert(a[k] == (a + b)[k]);
        } else {
            assert(b[k - a.len()] == (a + b)[k]);
        }
    }
}

proof fn lemma_subtree_settled(items: Map<u64, Item>, failed: Set<u64>, slot: Slot)
    requires
        forall|id: u64| !items.contains_key(id) ==> failed.contains(id),
    ensures
        !meets_missing(subtree_events(items, failed, slot)),
    decreases items.dom().len() - slot.path.len(), 0int,
{
    let ev = subtree_events(items, failed, slot);
    if failed.contains(slot.id) || slot.path.contains(slot.id) || slot.path.len()
        >= items.dom().len() {
        assert(ev.len() == 1 && ev[0] == WalkEvent::Skip);
    } else {
        let head = seq![WalkEvent::Visit(visible_node(items[slot.id], slot))];
        assert(!meets_missing(head)) by {
            if meets_missing(head) {
                let k = choose|k: int| 0 <= k < head.len() && #[trigger] head[k] == WalkEvent::Missing;
            }
        }
        lemma_kids_settled(items, failed, slot, 0);
        lemma_no_missing_concat(head, kids_events(items, failed, slot, 0));
    }
}

proof fn lemma_kids_settled(items: Map<u64, Item>, failed: Set<u64>, parent: Slot, i: int)
    requires
        forall|id: u64| !items.contains_key(id) ==> failed.contains(id),
        items.contains_key(parent.id),
        parent.path.len() < items.dom().len(),
    ensures
        !meets_missing(kids_events(items, failed, parent, i)),
    decreases items.dom().len() - parent.path.len() - 1, kids_of(items[parent.id]).len() - i,
{
    let kids = kids_of(items[parent.id]);
    if i < 0 || i >= kids.len() {
        assert(kids_events(items, failed, parent, i).len() == 0);
    } else {
        let child = child_slot(parent, kids, i);
        lemma_subtree_settled(items, failed, child);
        lemma_kids_settled(items, failed, parent, i + 1);
        lemma_no_missing_concat(
            subtree_events(items, failed, child),
            kids_events(items, failed, parent, i + 1),
        );
    }
}

proof fn lemma_forest_settled(items: Map<u64, Item>, failed: Set<u64>, roots: Seq<u64>, i: int)
    requires
        forall|id: u64| !items.contains_key(id) ==> failed.contains(id),
    ensures
        !meets_missing(forest_events(items, failed, roots, i)),
    decreases roots.len() - i,
{
    if i < 0 || i >= roots.len() {
        assert(forest_events(items, failed, roots, i).len() == 0);
    } else {
        lemma_subtree_settled(items, failed, root_slot(roots, i));
        lemma_forest_settled(items, failed, roots, i + 1);
        lemma_no_missing_concat(
            subtree_events(items, failed, root_slot(roots, i)),
            forest_events(items, failed, roots, i + 1),
        );
    }
}

/// A pass that treats every id not fetched as failed always succeeds.
pub proof fn lemma_settled_pass_succeeds(
    roots: Seq<u64>,
    limit: nat,
    items: Map<u64, Item>,
    failed: Set<u64>,
)
    ensures
        materialize(roots, limit, items, settled(items, failed)) is Some,
{
    let all = settled(items, failed);
    assert forall|id: u64| !items.contains_key(id) implies all.contains(id) by {}
    lemma_forest_settled(items, all, roots, 0);
    lemma_pass_is_preorder_prefix(roots, limit, items, all);
}

/// With a limit of zero a pass succeeds with no node, whatever the cache.
pub proof fn lemma_zero_limit_pass(roots: Seq<u64>, items: Map<u64, Item>, failed: Set<u64>)
    ensures
        materialize(roots, 0, items, failed) == Some(Seq::<CommentView>::empty()),
{
}

} // verus!
