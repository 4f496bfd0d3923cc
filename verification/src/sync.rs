//! The summaries printed by the command-line sync and stats actions.
use vstd::prelude::*;

use crate::feeds::{
    CategoryInfo, CategoryMappingInfo, FeedInfo, FeedMappingInfo, Keyed, feed_key_seq,
    find_last, lemma_last_index_in_range, lookup, sort_feeds_and_categories,
};
use crate::order::{lemma_sorted_order_bounds, sorted_order};
use crate::text::{
    append_chars, decimal_string, fill_spec, fill_template, i64_to_decimal, str_chars,
    string_from_chars,
};

verus! {

/// The `[cli]` settings that shape the sync summary.
pub struct SyncOutputConfig {
    /// Format of a line; `{label}` and `{count}` are filled in.
    pub sync_output_format: String,
    /// Label of the line for all feeds.
    pub all_label_format: String,
    /// Label of a feed's line; `{category}` and `{label}` are filled in.
    pub feed_label_format: String,
}

/// The number of articles a sync brought for one feed.
pub struct NewArticles {
    pub feed_id: String,
    pub count: i64,
}

impl Keyed for NewArticles {
    open spec fn key_view(&self) -> Seq<char> {
        self.feed_id@
    }

    fn key(&self) -> (res: &String) {
        &self.feed_id
    }
}

/// Feeds, categories and their mappings as read from the local store.
pub struct FeedsAndCategories {
    pub feeds: Vec<FeedInfo>,
    pub feed_mappings: Vec<FeedMappingInfo>,
    pub categories: Vec<CategoryInfo>,
    pub category_mappings: Vec<CategoryMappingInfo>,
}

/// Sum of all counts.
pub open spec fn count_sum(counts: Seq<NewArticles>) -> int
    decreases counts.len(),
{
    if counts.len() == 0 {
        0
    } else {
        count_sum(counts.drop_last()) + counts.last().count
    }
}

/// Adding the counts up in order never leaves the range of `i64`.
pub open spec fn sums_fit(counts: Seq<NewArticles>) -> bool {
    forall|k: int|
        0 <= k <= counts.len() ==> i64::MIN <= #[trigger] count_sum(counts.take(k)) <= i64::MAX
}

/// Number of new articles of the feed `id`, zero when it has none listed.
pub open spec fn new_count(counts: Seq<NewArticles>, id: Seq<char>) -> i64 {
    match lookup(counts, id) {
        Some(entry) => entry.count,
        None => 0,
    }
}

/// The line for all feeds: the output format with `{label}` filled in
/// with the all-feeds label and `{count}` with the total.
pub open spec fn all_line(config: SyncOutputConfig, total: int) -> Seq<char> {
    fill_spec(
        config.sync_output_format@,
        "{label}"@,
        config.all_label_format@,
        "{count}"@,
        decimal_string(total),
    )
}

/// Label of the category that the feed `id` is mapped to, empty when it
/// has no mapping or the category is unknown.
pub open spec fn category_label(store: FeedsAndCategories, id: Seq<char>) -> Seq<char> {
    match lookup(store.feed_mappings@, id) {
        Some(mapping) => match lookup(store.categories@, mapping.category_id@) {
            Some(category) => category.label@,
            None => Seq::<char>::empty(),
        },
        None => Seq::<char>::empty(),
    }
}

/// Label of the feed `id`, empty when it is unknown.
pub open spec fn feed_label(store: FeedsAndCategories, id: Seq<char>) -> Seq<char> {
    match lookup(store.feeds@, id) {
        Some(feed) => feed.label@,
        None => Seq::<char>::empty(),
    }
}

/// The label of the feed `id`: the feed label format with `{category}`
/// filled in with its category's label and `{label}` with its own label.
pub open spec fn feed_line_label(
    config: SyncOutputConfig,
    store: FeedsAndCategories,
    id: Seq<char>,
) -> Seq<char> {
    fill_spec(
        config.feed_label_format@,
        "{category}"@,
        category_label(store, id),
        "{label}"@,
        feed_label(store, id),
    )
}

/// The line for the feed `id` with `count` new articles: the output format
/// with `{label}` filled in with the feed's label and `{count}` with the
/// count.
pub open spec fn feed_line(
    config: SyncOutputConfig,
    store: FeedsAndCategories,
    id: Seq<char>,
    count: int,
) -> Seq<char> {
    fill_spec(
        config.sync_output_format@,
        "{label}"@,
        feed_line_label(config, store, id),
        "{count}"@,
        decimal_string(count),
    )
}

/// The lines of the feeds at the positions `order`, in that order, for the
/// feeds with new articles.
pub open spec fn feed_lines(
    config: SyncOutputConfig,
    counts: Seq<NewArticles>,
    store: FeedsAndCategories,
    order: Seq<usize>,
) -> Seq<Seq<char>>
    decreases order.len(),
{
    if order.len() == 0 {
        Seq::<Seq<char>>::empty()
    } else {
        let id = store.feeds@[order.last() as int].feed_id@;
        let count = new_count(counts, id);
        feed_lines(config, counts, store, order.drop_last()) + if count > 0 {
            seq![feed_line(config, store, id, count as int)]
        } else {
            Seq::<Seq<char>>::empty()
        }
    }
}

/// The listing order of the feeds.
pub open spec fn feed_order(store: FeedsAndCategories) -> Seq<usize> {
    sorted_order(
        feed_key_seq(store.feeds@, store.feed_mappings@, store.category_mappings@),
        store.feeds@.len(),
    )
}

/// The summary after a sync: nothing when quiet; otherwise the line for
/// all feeds when the sync brought any article, then a line for each feed
/// that got new articles, in listing order.
pub open spec fn report_lines(
    config: SyncOutputConfig,
    quiet: bool,
    counts: Seq<NewArticles>,
    store: FeedsAndCategories,
) -> Seq<Seq<char>> {
    if quiet {
        Seq::<Seq<char>>::empty()
    } else {
        let total = count_sum(counts);
        (if total > 0 {
            seq![all_line(config, total)]
        } else {
            Seq::<Seq<char>>::empty()
        }) + feed_lines(config, counts, store, feed_order(store))
    }
}

/// The views of a list of strings.
pub open spec fn string_views(lines: Seq<String>) -> Seq<Seq<char>> {
    lines.map_values(|line: String| line@)
}

fn total_new_articles(counts: &Vec<NewArticles>) -> (res: i64)
    requires
        sums_fit(counts@),
    ensures
        res == count_sum(counts@),
{
    let n = counts.len();
    let mut total: i64 = 0;
    let mut i: usize = 0;
    assert(counts@.take(0) =~= Seq::<NewArticles>::empty());
    while i < n
        invariant
            n == counts@.len(),
            i <= n,
            sums_fit(counts@),
            total == count_sum(counts@.take(i as int)),
        decreases n - i,
    {
        assert(counts@.take(i + 1).drop_last() =~= counts@.take(i as int));
        assert(counts@.take(i + 1).last() == counts@[i as int]);
        assert(i64::MIN <= count_sum(counts@.take(i + 1)) <= i64::MAX);
        total = total + counts[i].count;
        i = i + 1;
    }
    assert(counts@.take(n as int) =~= counts@);
    total
}

fn count_of(counts: &Vec<NewArticles>, id: &String) -> (res: i64)
    ensures
        res == new_count(counts@, id@),
{
    proof {
        lemma_last_index_in_range(counts@, id@);
    }
    match find_last(counts, id) {
        Some(i) => counts[i].count,
        None => 0,
    }
}

fn category_label_of(store: &FeedsAndCategories, id: &String) -> (res: String)
    ensures
        res@ == category_label(*store, id@),
{
    proof {
        lemma_last_index_in_range(store.feed_mappings@, id@);
    }
    match find_last(&store.feed_mappings, id) {
        Some(m) => {
            let category_id = &store.feed_mappings[m].category_id;
            proof {
                lemma_last_index_in_range(store.categories@, category_id@);
            }
            match find_last(&store.categories, category_id) {
                Some(c) => store.categories[c].label.clone(),
                None => String::new(),
            }
        },
        None => String::new(),
    }
}

fn feed_label_of(store: &FeedsAndCategories, id: &String) -> (res: String)
    ensures
        res@ == feed_label(*store, id@),
{
    proof {
        lemma_last_index_in_range(store.feeds@, id@);
    }
    match find_last(&store.feeds, id) {
        Some(f) => store.feeds[f].label.clone(),
        None => String::new(),
    }
}

/// The summary lines printed after `--sync`; see `report_lines`.
pub fn sync_report(
    config: &SyncOutputConfig,
    quiet: bool,
    new_articles: &Vec<NewArticles>,
    store: &FeedsAndCategories,
) -> (res: Vec<String>)
    requires
        sums_fit(new_articles@),
    ensures
        string_views(res@) == report_lines(*config, quiet, new_articles@, *store),
        quiet ==> res@.len() == 0,
{
    let mut lines: Vec<String> = Vec::new();
    if quiet {
        assert(string_views(lines@) =~= Seq::<Seq<char>>::empty());
        return lines;
    }
    let total = total_new_articles(new_articles);
    if total > 0 {
        let count_text = i64_to_decimal(total);
        let line = fill_template(
            config.sync_output_format.as_str(),
            "{label}",
            config.all_label_format.as_str(),
            "{count}",
            count_text.as_str(),
        );
        lines.push(line);
    }
    let ghost head = string_views(lines@);
    assert(head =~= if total > 0 {
        seq![all_line(*config, total as int)]
    } else {
        Seq::<Seq<char>>::empty()
    });
    let (order, _category_order) = sort_feeds_and_categories(
        &store.feeds,
        &store.categories,
        &store.feed_mappings,
        &store.category_mappings,
    );
    proof {
        lemma_sorted_order_bounds(
            feed_key_seq(store.feeds@, store.feed_mappings@, store.category_mappings@),
            store.feeds@.len(),
        );
    }
    let n = order.len();
    let mut k: usize = 0;
    assert(order@.take(0) =~= Seq::<usize>::empty());
    while k < n
        invariant
            order@ == feed_order(*store),
            n == order@.len(),
            n == store.feeds@.len(),
            forall|j: int| 0 <= j < n ==> #[trigger] order@[j] < n,
            k <= n,
            string_views(lines@) == head + feed_lines(
                *config,
                new_articles@,
                *store,
                order@.take(k as int),
            ),
        decreases n - k,
    {
        let feed = &store.feeds[order[k]];
        let count = count_of(new_articles, &feed.feed_id);
        let ghost before = string_views(lines@);
        assert(order@.take(k + 1).drop_last() =~= order@.take(k as int));
        assert(order@.take(k + 1).last() == order@[k as int]);
        if count > 0 {
            let category = category_label_of(store, &feed.feed_id);
            let label = feed_label_of(store, &feed.feed_id);
            let count_text = i64_to_decimal(count);
            let feed_text = fill_template(
                config.feed_label_format.as_str(),
                "{category}",
                category.as_str(),
                "{label}",
                label.as_str(),
            );
            let line = fill_template(
                config.sync_output_format.as_str(),
                "{label}",
                feed_text.as_str(),
                "{count}",
                count_text.as_str(),
            );
            lines.push(line);
            assert(string_views(lines@) =~= before.push(line@));
        }
        assert(string_views(lines@) =~= head + feed_lines(
            *config,
            new_articles@,
            *store,
            order@.take(k + 1),
        ));
        k = k + 1;
    }
    assert(order@.take(n as int) =~= order@);
    lines
}

/// Article counts of one feed in the local store.
pub struct FeedStats {
    pub feed_id: String,
    pub unread: i64,
    pub read: i64,
    pub marked: i64,
}

impl Keyed for FeedStats {
    open spec fn key_view(&self) -> Seq<char> {
        self.feed_id@
    }

    fn key(&self) -> (res: &String) {
        &self.feed_id
    }
}

/// Unread, read and marked counts of the feed `id`, zero when it has no
/// entry.
pub open spec fn stats_of(stats: Seq<FeedStats>, id: Seq<char>) -> (i64, i64, i64) {
    match lookup(stats, id) {
        Some(entry) => (entry.unread, entry.read, entry.marked),
        None => (0, 0, 0),
    }
}

/// The stats line of the feed `id`:
/// `CATEGORY/LABEL: U unread, R read, M marked`.
pub open spec fn stats_line(
    store: FeedsAndCategories,
    stats: Seq<FeedStats>,
    id: Seq<char>,
) -> Seq<char> {
    let counts = stats_of(stats, id);
    category_label(store, id) + "/"@ + feed_label(store, id) + ": "@ + decimal_string(
        counts.0 as int,
    ) + " unread, "@ + decimal_string(counts.1 as int) + " read, "@ + decimal_string(
        counts.2 as int,
    ) + " marked"@
}

/// The stats lines of the feeds at the positions `order`, in that order.
pub open spec fn stats_lines(
    store: FeedsAndCategories,
    stats: Seq<FeedStats>,
    order: Seq<usize>,
) -> Seq<Seq<char>>
    decreases order.len(),
{
    if order.len() == 0 {
        Seq::<Seq<char>>::empty()
    } else {
        stats_lines(store, stats, order.drop_last()).push(
            stats_line(store, stats, store.feeds@[order.last() as int].feed_id@),
        )
    }
}

fn push_str_chars(out: &mut Vec<char>, s: &str)
    ensures
        final(out)@ == old(out)@ + s@,
{
    let chars = str_chars(s);
    append_chars(out, &chars);
}

fn stats_line_of(store: &FeedsAndCategories, stats: &Vec<FeedStats>, id: &String) -> (res: String)
    ensures
        res@ == stats_line(*store, stats@, id@),
{
    proof {
        lemma_last_index_in_range(stats@, id@);
    }
    let (unread, read, marked) = match find_last(stats, id) {
        Some(i) => (stats[i].unread, stats[i].read, stats[i].marked),
        None => (0, 0, 0),
    };
    let category = category_label_of(store, id);
    let label = feed_label_of(store, id);
    let unread_text = i64_to_decimal(unread);
    let read_text = i64_to_decimal(read);
    let marked_text = i64_to_decimal(marked);
    let mut out: Vec<char> = Vec::new();
    push_str_chars(&mut out, category.as_str());
    push_str_chars(&mut out, "/");
    push_str_chars(&mut out, label.as_str());
    push_str_chars(&mut out, ": ");
    push_str_chars(&mut out, unread_text.as_str());
    push_str_chars(&mut out, " unread, ");
    push_str_chars(&mut out, read_text.as_str());
    push_str_chars(&mut out, " read, ");
    push_str_chars(&mut out, marked_text.as_str());
    push_str_chars(&mut out, " marked");
    assert(out@ =~= stats_line(*store, stats@, id@));
    string_from_chars(&out)
}

/// The lines printed by `--stats`: one per feed, in listing order.
pub fn stats_report(stats: &Vec<FeedStats>, store: &FeedsAndCategories) -> (res: Vec<String>)
    ensures
        string_views(res@) == stats_lines(*store, stats@, feed_order(*store)),
{
    let (order, _category_order) = sort_feeds_and_categories(
        &store.feeds,
        &store.categories,
        &store.feed_mappings,
        &store.category_mappings,
    );
    proof {
        lemma_sorted_order_bounds(
            feed_key_seq(store.feeds@, store.feed_mappings@, store.category_mappings@),
            store.feeds@.len(),
        );
    }
    let mut lines: Vec<String> = Vec::new();
    let n = order.len();
    let mut k: usize = 0;
    assert(order@.take(0) =~= Seq::<usize>::empty());
    assert(string_views(lines@) =~= Seq::<Seq<char>>::empty());
    while k < n
        invariant
            order@ == feed_order(*store),
            n == order@.len(),
            n == store.feeds@.len(),
            forall|j: int| 0 <= j < n ==> #[trigger] order@[j] < n,
            k <= n,
            string_views(lines@) == stats_lines(*store, stats@, order@.take(k as int)),
        decreases n - k,
    {
        let ghost before = string_views(lines@);
        assert(order@.take(k + 1).drop_last() =~= order@.take(k as int));
        assert(order@.take(k + 1).last() == order@[k as int]);
        let line = stats_line_of(store, stats, &store.feeds[order[k]].feed_id);
        lines.push(line);
        assert(string_views(lines@) =~= before.push(line@));
        k = k + 1;
    }
    assert(order@.take(n as int) =~= order@);
    lines
}

} // verus!
