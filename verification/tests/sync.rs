use dispatch::feeds::{
    sort_feeds_and_categories, CategoryInfo, CategoryMappingInfo, FeedInfo, FeedMappingInfo,
};
use dispatch::sync::{
    stats_report, sync_report, FeedStats, FeedsAndCategories, NewArticles, SyncOutputConfig,
};

fn default_config() -> SyncOutputConfig {
    SyncOutputConfig {
        sync_output_format: "{label}:{count}".to_string(),
        all_label_format: "all:All".to_string(),
        feed_label_format: "feed:{category}/{label}".to_string(),
    }
}

fn feed(id: &str, label: &str) -> FeedInfo {
    FeedInfo { feed_id: id.to_string(), label: label.to_string() }
}

fn category(id: &str, label: &str) -> CategoryInfo {
    CategoryInfo { category_id: id.to_string(), label: label.to_string() }
}

fn feed_mapping(feed: &str, category: &str, sort_index: Option<i32>) -> FeedMappingInfo {
    FeedMappingInfo {
        feed_id: feed.to_string(),
        category_id: category.to_string(),
        sort_index,
    }
}

fn category_mapping(category: &str, sort_index: Option<i32>) -> CategoryMappingInfo {
    CategoryMappingInfo { category_id: category.to_string(), sort_index }
}

fn count(feed: &str, count: i64) -> NewArticles {
    NewArticles { feed_id: feed.to_string(), count }
}

fn store() -> FeedsAndCategories {
    FeedsAndCategories {
        feeds: vec![
            feed("zeit", "zeit.de"),
            feed("golem", "Golem.de"),
            feed("polygon", "Polygon.com"),
            feed("heise", "heise online News"),
        ],
        feed_mappings: vec![
            feed_mapping("zeit", "news", Some(0)),
            feed_mapping("golem", "it", Some(0)),
            feed_mapping("polygon", "games", Some(0)),
            feed_mapping("heise", "it", Some(1)),
        ],
        categories: vec![
            category("news", "News"),
            category("it", "IT-News"),
            category("games", "Games"),
        ],
        category_mappings: vec![
            category_mapping("news", Some(3)),
            category_mapping("it", Some(2)),
            category_mapping("games", Some(1)),
        ],
    }
}

#[test]
fn sync_output_with_default_format() {
    let counts = vec![count("golem", 6), count("heise", 7), count("polygon", 6), count("zeit", 30)];
    let lines = sync_report(&default_config(), false, &counts, &store());
    assert_eq!(
        lines,
        vec![
            "all:All:49".to_string(),
            "feed:Games/Polygon.com:6".to_string(),
            "feed:IT-News/Golem.de:6".to_string(),
            "feed:IT-News/heise online News:7".to_string(),
            "feed:News/zeit.de:30".to_string(),
        ]
    );
}

#[test]
fn feeds_without_new_articles_are_left_out() {
    let counts = vec![count("golem", 0), count("zeit", 2)];
    let lines = sync_report(&default_config(), false, &counts, &store());
    assert_eq!(lines, vec!["all:All:2".to_string(), "feed:News/zeit.de:2".to_string()]);
}

#[test]
fn nothing_new_prints_nothing() {
    let lines = sync_report(&default_config(), false, &vec![], &store());
    assert!(lines.is_empty());
}

#[test]
fn quiet_sync_prints_nothing() {
    let counts = vec![count("zeit", 2)];
    let lines = sync_report(&default_config(), true, &counts, &store());
    assert!(lines.is_empty());
}

#[test]
fn feed_without_category_gets_empty_category() {
    let mut s = store();
    s.feeds.push(feed("lone", "Lonely"));
    let counts = vec![count("lone", 1)];
    let lines = sync_report(&default_config(), false, &counts, &s);
    assert_eq!(lines, vec!["all:All:1".to_string(), "feed:/Lonely:1".to_string()]);
}

#[test]
fn placeholders_in_names_stay() {
    // `{category}` becomes the category's name as it is: placeholders inside
    // inserted names are left alone.
    let mut s = store();
    s.categories[0].label = "N{label}".to_string();
    s.feeds[0].label = "z{count}".to_string();
    let counts = vec![count("zeit", 3)];
    let lines = sync_report(&default_config(), false, &counts, &s);
    assert_eq!(lines, vec!["all:All:3".to_string(), "feed:N{label}/z{count}:3".to_string()]);
}

#[test]
fn negative_total_suppresses_all_line() {
    let counts = vec![count("zeit", 2), count("golem", -5)];
    let lines = sync_report(&default_config(), false, &counts, &store());
    assert_eq!(lines, vec!["feed:News/zeit.de:2".to_string()]);
}

#[test]
fn custom_format() {
    let config = SyncOutputConfig {
        sync_output_format: "{count} new in {label}".to_string(),
        all_label_format: "everything".to_string(),
        feed_label_format: "{label} ({category})".to_string(),
    };
    let counts = vec![count("polygon", 12)];
    let lines = sync_report(&config, false, &counts, &store());
    assert_eq!(
        lines,
        vec!["12 new in everything".to_string(), "12 new in Polygon.com (Games)".to_string()]
    );
}

#[test]
fn feeds_sorted_by_category_then_feed_index() {
    let s = store();
    let (feed_order, category_order) = sort_feeds_and_categories(
        &s.feeds,
        &s.categories,
        &s.feed_mappings,
        &s.category_mappings,
    );
    assert_eq!(feed_order, vec![2, 1, 3, 0]);
    assert_eq!(category_order, vec![2, 1, 0]);
}

#[test]
fn unmapped_entries_sort_first_and_ties_keep_order() {
    let feeds = vec![feed("a", "A"), feed("b", "B"), feed("c", "C"), feed("d", "D")];
    let categories = vec![category("x", "X"), category("y", "Y")];
    let feed_mappings = vec![
        feed_mapping("a", "x", Some(5)),
        feed_mapping("c", "x", None),
        feed_mapping("d", "x", Some(5)),
    ];
    let category_mappings = vec![category_mapping("x", Some(-4))];
    let (feed_order, category_order) =
        sort_feeds_and_categories(&feeds, &categories, &feed_mappings, &category_mappings);
    // b has no mapping; c has no own index; a and d tie and keep their order
    assert_eq!(feed_order, vec![1, 2, 0, 3]);
    // y has no mapping and sorts before x
    assert_eq!(category_order, vec![1, 0]);
}

#[test]
fn last_mapping_of_a_feed_counts() {
    let feeds = vec![feed("a", "A")];
    let categories = vec![category("x", "X"), category("y", "Y")];
    let feed_mappings = vec![feed_mapping("a", "x", Some(1)), feed_mapping("a", "y", Some(2))];
    let s = FeedsAndCategories {
        feeds,
        feed_mappings,
        categories,
        category_mappings: vec![],
    };
    let lines = sync_report(&default_config(), false, &vec![count("a", 1)], &s);
    assert_eq!(lines, vec!["all:All:1".to_string(), "feed:Y/A:1".to_string()]);
}

#[test]
fn all_label_with_count_placeholder_is_kept() {
    let config = SyncOutputConfig {
        sync_output_format: "{label}={count}".to_string(),
        all_label_format: "all{count}".to_string(),
        feed_label_format: "{label}".to_string(),
    };
    let lines = sync_report(&config, false, &vec![count("zeit", 4)], &store());
    assert_eq!(lines, vec!["all{count}=4".to_string(), "zeit.de=4".to_string()]);
}

#[test]
fn stats_lines_in_listing_order() {
    let stats = vec![
        FeedStats { feed_id: "zeit".to_string(), unread: 3, read: 10, marked: 1 },
        FeedStats { feed_id: "polygon".to_string(), unread: 0, read: 2, marked: 0 },
    ];
    let lines = stats_report(&stats, &store());
    assert_eq!(
        lines,
        vec![
            "Games/Polygon.com: 0 unread, 2 read, 0 marked".to_string(),
            "IT-News/Golem.de: 0 unread, 0 read, 0 marked".to_string(),
            "IT-News/heise online News: 0 unread, 0 read, 0 marked".to_string(),
            "News/zeit.de: 3 unread, 10 read, 1 marked".to_string(),
        ]
    );
}

#[test]
fn sorting_sorted_feeds_keeps_them() {
    let s = store();
    let (order, _) = sort_feeds_and_categories(
        &s.feeds,
        &s.categories,
        &s.feed_mappings,
        &s.category_mappings,
    );
    let sorted: Vec<FeedInfo> = order
        .iter()
        .map(|&i| feed(&s.feeds[i].feed_id, &s.feeds[i].label))
        .collect();
    let (again, _) =
        sort_feeds_and_categories(&sorted, &s.categories, &s.feed_mappings, &s.category_mappings);
    assert_eq!(again, vec![0, 1, 2, 3]);
}
