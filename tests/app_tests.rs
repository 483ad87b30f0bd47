use lazynews::app::{
    first_page, posts_from_items, CachedComments, CommentsState, FeedState, FeedTab,
    PostType, PostsFetchError, PostsFetchMode, PostsFetchResult, RequestTracker,
};
use lazynews::hn::{Comment, Item, StoryFeed};

fn base_item(id: u64) -> Item {
    Item {
        id,
        title: None,
        url: None,
        score: None,
        descendants: None,
        by: None,
        time: None,
        text: None,
        kids: None,
        kind: None,
        dead: false,
        deleted: false,
    }
}

fn story_item(id: u64, title: &str) -> Item {
    let mut item = base_item(id);
    item.title = Some(title.to_string());
    item.url = Some(format!("https://example.com/{id}"));
    item.kind = Some("story".to_string());
    item
}

#[test]
fn posts_from_items_filters_invalid_and_maps_defaults() {
    let mut story = base_item(1);
    story.title = Some("Story title".to_string());
    story.url = Some("https://example.com/story".to_string());
    story.kind = Some("story".to_string());
    story.score = Some(123);
    story.descendants = Some(45);
    story.by = Some("alice".to_string());
    story.time = Some(1_700_000_000);

    let mut job = base_item(2);
    job.title = Some("Job title".to_string());
    job.url = Some("https://example.com/job".to_string());
    job.kind = Some("job".to_string());
    job.by = Some(String::new());

    let mut comment_kind = base_item(3);
    comment_kind.title = Some("Comment-like post".to_string());
    comment_kind.url = Some("https://example.com/comment".to_string());
    comment_kind.kind = Some("comment".to_string());

    let mut dead_story = base_item(4);
    dead_story.title = Some("Dead".to_string());
    dead_story.url = Some("https://example.com/dead".to_string());
    dead_story.kind = Some("story".to_string());
    dead_story.dead = true;

    let mut missing_title = base_item(5);
    missing_title.url = Some("https://example.com/missing-title".to_string());
    missing_title.kind = Some("story".to_string());

    let posts = posts_from_items(vec![story, job, comment_kind, dead_story, missing_title]);

    assert_eq!(posts.len(), 2);

    assert_eq!(posts[0].id, 1);
    assert_eq!(posts[0].title, "Story title");
    assert_eq!(posts[0].url, "https://example.com/story");
    assert!(matches!(posts[0].post_type, PostType::Story));
    assert_eq!(posts[0].points, 123);
    assert_eq!(posts[0].comments, 45);
    assert_eq!(posts[0].author, "alice");
    assert_eq!(posts[0].published_at, 1_700_000_000);

    assert_eq!(posts[1].id, 2);
    assert_eq!(posts[1].title, "Job title");
    assert_eq!(posts[1].url, "https://example.com/job");
    assert!(matches!(posts[1].post_type, PostType::Job));
    assert_eq!(posts[1].points, 0);
    assert_eq!(posts[1].comments, 0);
    assert_eq!(posts[1].author, "unknown");
    assert_eq!(posts[1].published_at, 0);
}

#[test]
fn post_type_from_kind() {
    assert_eq!(PostType::from_kind(Some("story")), Some(PostType::Story));
    assert_eq!(PostType::from_kind(Some("job")), Some(PostType::Job));
    assert_eq!(PostType::from_kind(Some("poll")), None);
    assert_eq!(PostType::from_kind(None), None);
}

#[test]
fn feed_tabs_round_trip_and_wrap() {
    assert_eq!(FeedTab::from_index(FeedTab::Show.index()), FeedTab::Show);
    assert_eq!(FeedTab::from_index(7), FeedTab::New);
    assert_eq!(FeedTab::Top.shifted(-1), FeedTab::Best);
    assert_eq!(FeedTab::Best.shifted(1), FeedTab::Top);
    assert_eq!(FeedTab::Ask.label(), "ask");
    assert_eq!(FeedTab::Show.posts_title(), "Show HN");
    assert_eq!(FeedTab::Jobs.api_feed(), StoryFeed::Jobs);
}

#[test]
fn request_generations_wrap_and_skip_zero() {
    let mut tracker = RequestTracker::new();
    assert_eq!(tracker.begin(), (1, None));
    assert_eq!(tracker.begin(), (2, Some(1)));
    assert!(!tracker.is_current(1));
    assert!(!tracker.finish(1));
    assert!(tracker.finish(2));
    assert_eq!(tracker.active, None);
    tracker.last_issued = u64::MAX;
    assert_eq!(tracker.begin(), (1, None));
}

fn page(mode: PostsFetchMode, ids: Option<Vec<u64>>, items: Vec<Item>, next: usize) -> PostsFetchResult {
    PostsFetchResult { mode, story_ids: ids, items, next_story_index: next }
}

#[test]
fn superseded_posts_result_is_dropped() {
    let mut feed = FeedState::new();
    let (first, _) = feed.start_refresh();
    let (second, superseded) = feed.start_refresh();
    assert_eq!(superseded, Some(first));
    feed.posts_fetched(
        first,
        Ok(page(PostsFetchMode::Replace, Some(vec![1]), vec![story_item(1, "old")], 1)),
        "10:00:00".to_string(),
    );
    assert!(feed.posts.is_empty());
    assert!(feed.loading);
    assert_eq!(feed.requests.active, Some(second));
    feed.posts_fetched(
        second,
        Ok(page(PostsFetchMode::Replace, Some(vec![2, 3]), vec![story_item(2, "new")], 1)),
        "10:00:01".to_string(),
    );
    assert_eq!(feed.posts.len(), 1);
    assert_eq!(feed.posts[0].title, "new");
    assert!(!feed.loading);
    assert!(feed.has_more_posts);
    assert_eq!(feed.selected, Some(0));
    assert_eq!(feed.last_fetched.as_deref(), Some("10:00:01"));
}

#[test]
fn failed_and_cancelled_posts_requests() {
    let mut feed = FeedState::new();
    let (id, _) = feed.start_refresh();
    feed.posts_fetched(id, Err(PostsFetchError::Failed("boom".to_string())), String::new());
    assert_eq!(feed.notice.as_deref(), Some("Failed to load posts: boom"));
    assert!(!feed.loading);
    let (id, _) = feed.start_refresh();
    assert_eq!(feed.notice, None);
    feed.posts_fetched(id, Err(PostsFetchError::Cancelled), String::new());
    assert_eq!(feed.notice, None);
    assert!(!feed.loading);
}

#[test]
fn load_more_threshold_is_last_quarter() {
    let mut feed = FeedState::new();
    assert!(feed.has_reached_load_more_threshold());
    let items: Vec<Item> = (1..=8).map(|i| story_item(i, "t")).collect();
    feed.posts = posts_from_items(items);
    feed.selected = None;
    assert!(!feed.has_reached_load_more_threshold());
    feed.selected = Some(4);
    assert!(!feed.has_reached_load_more_threshold());
    feed.selected = Some(5);
    assert!(feed.has_reached_load_more_threshold());
    feed.posts.truncate(1);
    feed.selected = Some(0);
    assert!(feed.has_reached_load_more_threshold());
}

#[test]
fn pages_follow_the_cursor() {
    let ids: Vec<u64> = (1..=45).collect();
    let (first, next) = first_page(&ids);
    assert_eq!(first, (1..=30).collect::<Vec<u64>>());
    assert_eq!(next, 30);
    let mut feed = FeedState::new();
    feed.story_ids = ids;
    feed.next_story_index = next;
    let more = feed.start_more_posts().unwrap();
    assert_eq!(more.page_ids, (31..=45).collect::<Vec<u64>>());
    assert_eq!(more.next_story_index, 45);
    assert!(feed.start_more_posts().is_none());
    feed.posts_fetched(
        more.request_id,
        Ok(page(PostsFetchMode::Append, None, vec![story_item(31, "p")], 45)),
        "t".to_string(),
    );
    assert!(!feed.has_more_posts);
    assert_eq!(feed.posts.len(), 1);
    assert!(feed.start_more_posts().is_none());
}

#[test]
fn switching_feeds_restores_snapshots() {
    let mut feed = FeedState::new();
    let (id, _) = feed.start_refresh();
    let items: Vec<Item> = (1..=3).map(|i| story_item(i, "top")).collect();
    feed.posts_fetched(id, Ok(page(PostsFetchMode::Replace, Some(vec![1, 2, 3, 4]), items, 3)), "t".to_string());
    feed.select_next();
    feed.select_next();
    assert_eq!(feed.selected, Some(2));
    assert!(feed.switch_to_feed(FeedTab::New));
    assert!(feed.posts.is_empty());
    assert!(feed.has_more_posts);
    assert_eq!(feed.selected, None);
    assert!(!feed.switch_to_feed(FeedTab::New));
    assert!(feed.switch_feed(-1));
    assert_eq!(feed.feed, FeedTab::Top);
    assert_eq!(feed.posts.len(), 3);
    assert_eq!(feed.selected, Some(2));
    assert_eq!(feed.next_story_index, 3);
    feed.select_next();
    assert_eq!(feed.selected, Some(0));
    feed.select_previous();
    assert_eq!(feed.selected, Some(2));
}

fn cached_comment(text: &str) -> Comment {
    Comment {
        author: "alice".to_string(),
        text: text.to_string(),
        published_at: 0,
        depth: 0,
        ancestor_has_next_sibling: Vec::new(),
        is_last_sibling: true,
    }
}

#[test]
fn stale_cache_is_shown_and_refreshed_and_kept_on_failure() {
    let mut state = CommentsState::new();
    state.cache.insert(
        1,
        CachedComments { comments: vec![cached_comment("cached")], fetched_at: 1000 },
    );
    let fetch = state.open_comments(1, PostType::Story, 1091);
    assert!(fetch);
    assert!(state.loading);
    assert_eq!(state.comments.len(), 1);
    assert_eq!(state.comments[0].text, "cached");
    state.comments_loaded(1, Err("network down".to_string()), 1092);
    assert!(!state.loading);
    assert_eq!(state.comments.len(), 1);
    assert_eq!(state.comments[0].text, "cached");
    assert_eq!(state.error, None);
}

#[test]
fn fresh_cache_is_shown_without_fetch() {
    let mut state = CommentsState::new();
    state.cache.insert(
        1,
        CachedComments { comments: vec![cached_comment("cached")], fetched_at: 1000 },
    );
    assert!(!state.open_comments(1, PostType::Story, 1089));
    assert!(!state.loading);
    assert_eq!(state.comments[0].text, "cached");
}

#[test]
fn uncached_failure_is_shown_and_success_is_cached() {
    let mut state = CommentsState::new();
    assert!(state.open_comments(2, PostType::Story, 50));
    assert!(state.comments.is_empty());
    state.comments_loaded(2, Err("boom".to_string()), 51);
    assert_eq!(state.error.as_deref(), Some("boom"));
    assert!(state.open_comments(2, PostType::Story, 60));
    state.comments_loaded(3, Ok(vec![cached_comment("other post")]), 61);
    assert!(state.loading);
    state.comments_loaded(2, Ok(vec![cached_comment("fresh")]), 62);
    assert_eq!(state.comments[0].text, "fresh");
    assert_eq!(state.error, None);
    assert_eq!(state.cache.get(&2).map(|c| c.fetched_at), Some(62));
}

#[test]
fn jobs_have_no_comment_threads() {
    let mut state = CommentsState::new();
    assert!(!state.open_comments(9, PostType::Job, 0));
    assert_eq!(state.notice.as_deref(), Some("Jobs do not have comment threads."));
    assert!(state.comments.is_empty());
}

#[test]
fn load_more_waits_for_requests_and_closed_comments() {
    let mut feed = FeedState::new();
    assert!(feed.should_load_more(false));
    assert!(!feed.should_load_more(true));
    let items: Vec<Item> = (1..=4).map(|i| story_item(i, "t")).collect();
    feed.posts = posts_from_items(items);
    feed.selected = Some(2);
    assert!(feed.should_load_more(false));
    feed.selected = Some(1);
    assert!(!feed.should_load_more(false));
    feed.selected = Some(3);
    feed.loading = true;
    assert!(!feed.should_load_more(false));
    feed.loading = false;
    feed.has_more_posts = false;
    assert!(!feed.should_load_more(false));
}

#[test]
fn switching_back_restores_last_fetched_and_exhaustion() {
    let mut feed = FeedState::new();
    let (id, _) = feed.start_refresh();
    feed.posts_fetched(
        id,
        Ok(page(PostsFetchMode::Replace, Some(vec![1]), vec![story_item(1, "only")], 1)),
        "09:30:00".to_string(),
    );
    assert!(!feed.has_more_posts);
    assert!(feed.switch_to_feed(FeedTab::Ask));
    assert_eq!(feed.last_fetched, None);
    assert!(feed.switch_to_feed(FeedTab::Top));
    assert_eq!(feed.last_fetched.as_deref(), Some("09:30:00"));
    assert!(!feed.has_more_posts);
}

#[test]
fn feed_shift_wraps_for_any_distance() {
    assert_eq!(FeedTab::Top.shifted(6), FeedTab::Top);
    assert_eq!(FeedTab::Top.shifted(-7), FeedTab::Best);
    assert_eq!(FeedTab::Ask.shifted(13), FeedTab::Show);
    assert_eq!(FeedTab::New.shifted(isize::MIN), FeedTab::from_index((1 + 4) % 6));
    assert_eq!(FeedTab::Best.shifted(isize::MAX), FeedTab::from_index((5 + 1) % 6));
    let mut feed = FeedState::new();
    assert!(!feed.switch_feed(12));
    assert_eq!(feed.feed, FeedTab::Top);
    assert!(feed.switch_feed(-2));
    assert_eq!(feed.feed, FeedTab::Jobs);
}
