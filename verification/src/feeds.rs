//! Feeds, categories and their mappings as the sync summary reads them, and
//! the order in which feeds and categories are listed.
use vstd::prelude::*;

use crate::order::{
    identity_order, lemma_sorting_twice_keeps_order, is_permutation_of_range, is_sorted_by, is_stable, lemma_sorted_order_is_stable_sort,
    sorted_order, stable_sort_order,
};

verus! {

/// A feed: its identifier and its label.
pub struct FeedInfo {
    pub feed_id: String,
    pub label: String,
}

/// A category: its identifier and its label.
pub struct CategoryInfo {
    pub category_id: String,
    pub label: String,
}

/// The placement of a feed in a category, with the feed's position there.
pub struct FeedMappingInfo {
    pub feed_id: String,
    pub category_id: String,
    pub sort_index: Option<i32>,
}

/// The placement of a category, with its position.
pub struct CategoryMappingInfo {
    pub category_id: String,
    pub sort_index: Option<i32>,
}

/// Something looked up by a string identifier.
pub trait Keyed {
    spec fn key_view(&self) -> Seq<char>;

    fn key(&self) -> (res: &String)
        ensures
            res@ == self.key_view(),
    ;
}

impl Keyed for FeedInfo {
    open spec fn key_view(&self) -> Seq<char> {
        self.feed_id@
    }

    fn key(&self) -> (res: &String) {
        &self.feed_id
    }
}

impl Keyed for CategoryInfo {
    open spec fn key_view(&self) -> Seq<char> {
        self.category_id@
    }

    fn key(&self) -> (res: &String) {
        &self.category_id
    }
}

impl Keyed for FeedMappingInfo {
    open spec fn key_view(&self) -> Seq<char> {
        self.feed_id@
    }

    fn key(&self) -> (res: &String) {
        &self.feed_id
    }
}

impl Keyed for CategoryMappingInfo {
    open spec fn key_view(&self) -> Seq<char> {
        self.category_id@
    }

    fn key(&self) -> (res: &String) {
        &self.category_id
    }
}

/// Index of the last item of `items` whose identifier is `id`: the entry
/// that a map built from `items` in order keeps for `id`.
pub open spec fn last_index_of<T: Keyed>(items: Seq<T>, id: Seq<char>) -> Option<int>
    decreases items.len(),
{
    if items.len() == 0 {
        None
    } else if items.last().key_view() == id {
        Some(items.len() - 1)
    } else {
        last_index_of(items.drop_last(), id)
    }
}

/// The item that a map built from `items` in order holds for `id`.
pub open spec fn lookup<T: Keyed>(items: Seq<T>, id: Seq<char>) -> Option<T> {
    match last_index_of(items, id) {
        Some(i) => Some(items[i]),
        None => None,
    }
}

/// The last position found for an identifier lies within the items and
/// holds that identifier.
pub proof fn lemma_last_index_in_range<T: Keyed>(items: Seq<T>, id: Seq<char>)
    ensures
        last_index_of(items, id) matches Some(i) ==> 0 <= i < items.len() && items[i].key_view()
            == id,
    decreases items.len(),
{
    if items.len() > 0 && items.last().key_view() != id {
        lemma_last_index_in_range(items.drop_last(), id);
    }
}

/// Position of the last item of `items` whose identifier is `id`.
pub fn find_last<T: Keyed>(items: &Vec<T>, id: &String) -> (res: Option<usize>)
    ensures
        match res {
            Some(i) => last_index_of(items@, id@) == Some(i as int),
            None => last_index_of(items@, id@) is None,
        },
        res matches Some(i) ==> i < items@.len(),
{
    let mut i = items.len();
    assert(items@.take(i as int) =~= items@);
    while i > 0
        invariant
            i <= items@.len(),
            last_index_of(items@, id@) == last_index_of(items@.take(i as int), id@),
        decreases i,
    {
        let ghost prefix = items@.take(i as int);
        assert(prefix.drop_last() =~= items@.take(i - 1));
        assert(prefix.last() == items@[i - 1]);
        let same = items[i - 1].key().eq(id);
        if same {
            return Some(i - 1);
        }
        i = i - 1;
    }
    None
}

/// Rank that orders `None` before `Some(None)` before `Some(Some(v))`, the
/// latter by `v`, as `Option`'s own ordering does.
pub open spec fn option_rank(o: Option<Option<i32>>) -> i64 {
    match o {
        None => 0,
        Some(None) => 1,
        Some(Some(v)) => (v + 2147483650) as i64,
    }
}

/// `a` comes before `b` in the order that `Option` derives: `None` first,
/// then `Some` by its contents.
pub open spec fn option_lt(a: Option<Option<i32>>, b: Option<Option<i32>>) -> bool {
    match (a, b) {
        (None, Some(_)) => true,
        (Some(None), Some(Some(_))) => true,
        (Some(Some(x)), Some(Some(y))) => x < y,
        _ => false,
    }
}

/// Ranks order optional sort indices exactly as `Option`'s ordering does,
/// and only equal indices share a rank.
pub proof fn lemma_rank_orders_like_option(a: Option<Option<i32>>, b: Option<Option<i32>>)
    ensures
        option_rank(a) < option_rank(b) <==> option_lt(a, b),
        option_rank(a) == option_rank(b) <==> a == b,
{
}

fn rank_of(o: Option<Option<i32>>) -> (res: i64)
    ensures
        res == option_rank(o),
{
    match o {
        None => 0,
        Some(None) => 1,
        Some(Some(v)) => v as i64 + 2147483650,
    }
}

/// The sort index of the category `id` as the category mappings give it:
/// `None` when the category has no mapping.
pub open spec fn category_sort_index(
    category_mappings: Seq<CategoryMappingInfo>,
    id: Seq<char>,
) -> Option<Option<i32>> {
    match lookup(category_mappings, id) {
        Some(m) => Some(m.sort_index),
        None => None,
    }
}

/// The key by which a category is listed: its sort index.
pub open spec fn category_key(
    category: CategoryInfo,
    category_mappings: Seq<CategoryMappingInfo>,
) -> (i64, i64) {
    (option_rank(category_sort_index(category_mappings, category.category_id@)), 0)
}

/// The key by which a feed is listed: the sort index of the category its
/// mapping places it in, then its own sort index in that mapping.
pub open spec fn feed_key(
    feed: FeedInfo,
    feed_mappings: Seq<FeedMappingInfo>,
    category_mappings: Seq<CategoryMappingInfo>,
) -> (i64, i64) {
    match lookup(feed_mappings, feed.feed_id@) {
        Some(m) => (
            option_rank(category_sort_index(category_mappings, m.category_id@)),
            option_rank(Some(m.sort_index)),
        ),
        None => (option_rank(None), option_rank(None)),
    }
}

fn category_sort_index_of(category_mappings: &Vec<CategoryMappingInfo>, id: &String) -> (res:
    Option<Option<i32>>)
    ensures
        res == category_sort_index(category_mappings@, id@),
{
    proof {
        lemma_last_index_in_range(category_mappings@, id@);
    }
    match find_last(category_mappings, id) {
        Some(i) => Some(category_mappings[i].sort_index),
        None => None,
    }
}

/// The sort key of each category, in order.
pub fn category_keys(
    categories: &Vec<CategoryInfo>,
    category_mappings: &Vec<CategoryMappingInfo>,
) -> (res: Vec<(i64, i64)>)
    ensures
        res@.len() == categories@.len(),
        forall|i: int|
            0 <= i < categories@.len() ==> #[trigger] res@[i] == category_key(
                categories@[i],
                category_mappings@,
            ),
{
    let mut keys: Vec<(i64, i64)> = Vec::new();
    let n = categories.len();
    let mut i: usize = 0;
    while i < n
        invariant
            n == categories@.len(),
            i <= n,
            keys@.len() == i,
            forall|j: int|
                0 <= j < i ==> #[trigger] keys@[j] == category_key(
                    categories@[j],
                    category_mappings@,
                ),
        decreases n - i,
    {
        let index = category_sort_index_of(category_mappings, &categories[i].category_id);
        keys.push((rank_of(index), 0));
        i = i + 1;
    }
    keys
}

/// The sort key of each feed, in order.
pub fn feed_keys(
    feeds: &Vec<FeedInfo>,
    feed_mappings: &Vec<FeedMappingInfo>,
    category_mappings: &Vec<CategoryMappingInfo>,
) -> (res: Vec<(i64, i64)>)
    ensures
        res@.len() == feeds@.len(),
        forall|i: int|
            0 <= i < feeds@.len() ==> #[trigger] res@[i] == feed_key(
                feeds@[i],
                feed_mappings@,
                category_mappings@,
            ),
{
    let mut keys: Vec<(i64, i64)> = Vec::new();
    let n = feeds.len();
    let mut i: usize = 0;
    while i < n
        invariant
            n == feeds@.len(),
            i <= n,
            keys@.len() == i,
            forall|j: int|
                0 <= j < i ==> #[trigger] keys@[j] == feed_key(
                    feeds@[j],
                    feed_mappings@,
                    category_mappings@,
                ),
        decreases n - i,
    {
        proof {
            lemma_last_index_in_range(feed_mappings@, feeds@[i as int].feed_id@);
        }
        let key = match find_last(feed_mappings, &feeds[i].feed_id) {
            Some(m) => {
                let mapping = &feed_mappings[m];
                let category = category_sort_index_of(category_mappings, &mapping.category_id);
                (rank_of(category), rank_of(Some(mapping.sort_index)))
            },
            None => (rank_of(None), rank_of(None)),
        };
        keys.push(key);
        i = i + 1;
    }
    keys
}

/// The sort keys of all feeds, in order.
pub open spec fn feed_key_seq(
    feeds: Seq<FeedInfo>,
    feed_mappings: Seq<FeedMappingInfo>,
    category_mappings: Seq<CategoryMappingInfo>,
) -> Seq<(i64, i64)> {
    Seq::new(feeds.len(), |i: int| feed_key(feeds[i], feed_mappings, category_mappings))
}

/// The sort keys of all categories, in order.
pub open spec fn category_key_seq(
    categories: Seq<CategoryInfo>,
    category_mappings: Seq<CategoryMappingInfo>,
) -> Seq<(i64, i64)> {
    Seq::new(categories.len(), |i: int| category_key(categories[i], category_mappings))
}

/// The order in which feeds and categories are listed, as positions into
/// `feeds` and `categories`: categories by their sort index; feeds by the
/// sort index of their category, then by their own sort index; ties in
/// the order given (a stable sort).
pub fn sort_feeds_and_categories(
    feeds: &Vec<FeedInfo>,
    categories: &Vec<CategoryInfo>,
    feed_mappings: &Vec<FeedMappingInfo>,
    category_mappings: &Vec<CategoryMappingInfo>,
) -> (res: (Vec<usize>, Vec<usize>))
    ensures
        res.0@ == sorted_order(
            feed_key_seq(feeds@, feed_mappings@, category_mappings@),
            feeds@.len(),
        ),
        res.1@ == sorted_order(
            category_key_seq(categories@, category_mappings@),
            categories@.len(),
        ),
        is_permutation_of_range(res.0@, feeds@.len()),
        is_sorted_by(res.0@, feed_key_seq(feeds@, feed_mappings@, category_mappings@)),
        is_stable(res.0@, feed_key_seq(feeds@, feed_mappings@, category_mappings@)),
        is_permutation_of_range(res.1@, categories@.len()),
        is_sorted_by(res.1@, category_key_seq(categories@, category_mappings@)),
        is_stable(res.1@, category_key_seq(categories@, category_mappings@)),
{
    let category_order_keys = category_keys(categories, category_mappings);
    assert(category_order_keys@ =~= category_key_seq(categories@, category_mappings@));
    let category_order = stable_sort_order(&category_order_keys);
    let feed_order_keys = feed_keys(feeds, feed_mappings, category_mappings);
    assert(feed_order_keys@ =~= feed_key_seq(feeds@, feed_mappings@, category_mappings@));
    let feed_order = stable_sort_order(&feed_order_keys);
    proof {
        lemma_sorted_order_is_stable_sort(
            feed_key_seq(feeds@, feed_mappings@, category_mappings@),
            feeds@.len(),
        );
        lemma_sorted_order_is_stable_sort(
            category_key_seq(categories@, category_mappings@),
            categories@.len(),
        );
    }
    (feed_order, category_order)
}

/// Sorting feeds that are already in listing order leaves them in place:
/// the feeds arranged by their sorted order, sorted again, keep that
/// arrangement.
pub proof fn lemma_feed_sort_is_idempotent(
    feeds: Seq<FeedInfo>,
    feed_mappings: Seq<FeedMappingInfo>,
    category_mappings: Seq<CategoryMappingInfo>,
)
    requires
        feeds.len() <= usize::MAX,
    ensures
        ({
            let keys = feed_key_seq(feeds, feed_mappings, category_mappings);
            let o = sorted_order(keys, feeds.len());
            let sorted_feeds = Seq::new(feeds.len(), |i: int| feeds[o[i] as int]);
            sorted_order(
                feed_key_seq(sorted_feeds, feed_mappings, category_mappings),
                feeds.len(),
            ) == identity_order(feeds.len())
        }),
{
    let n = feeds.len();
    let keys = feed_key_seq(feeds, feed_mappings, category_mappings);
    let o = sorted_order(keys, n);
    lemma_sorting_twice_keeps_order(keys, n);
    crate::order::lemma_sorted_order_bounds(keys, n);
    let sorted_feeds = Seq::new(n, |i: int| feeds[o[i] as int]);
    assert(feed_key_seq(sorted_feeds, feed_mappings, category_mappings) =~= Seq::new(
        n,
        |i: int| keys[o[i] as int],
    ));
}

/// Sorting categories that are already in listing order leaves them in
/// place.
pub proof fn lemma_category_sort_is_idempotent(
    categories: Seq<CategoryInfo>,
    category_mappings: Seq<CategoryMappingInfo>,
)
    requires
        categories.len() <= usize::MAX,
    ensures
        ({
            let keys = category_key_seq(categories, category_mappings);
            let o = sorted_order(keys, categories.len());
            let sorted_categories = Seq::new(categories.len(), |i: int| categories[o[i] as int]);
            sorted_order(category_key_seq(sorted_categories, category_mappings), categories.len())
                == identity_order(categories.len())
        }),
{
    let n = categories.len();
    let keys = category_key_seq(categories, category_mappings);
    let o = sorted_order(keys, n);
    lemma_sorting_twice_keeps_order(keys, n);
    crate::order::lemma_sorted_order_bounds(keys, n);
    let sorted_categories = Seq::new(n, |i: int| categories[o[i] as int]);
    assert(category_key_seq(sorted_categories, category_mappings) =~= Seq::new(
        n,
        |i: int| keys[o[i] as int],
    ));
}

/// Where a feed is listed, as the listing compares feeds: the sort index of
/// the category its mapping names (`None` without a feed mapping or a
/// category mapping), then its own sort index (`None` without a feed
/// mapping).
pub open spec fn feed_position(
    feed: FeedInfo,
    feed_mappings: Seq<FeedMappingInfo>,
    category_mappings: Seq<CategoryMappingInfo>,
) -> (Option<Option<i32>>, Option<Option<i32>>) {
    match lookup(feed_mappings, feed.feed_id@) {
        Some(m) => (category_sort_index(category_mappings, m.category_id@), Some(m.sort_index)),
        None => (None, None),
    }
}

/// `a` is listed before `b`: by category position, then by own position.
pub open spec fn position_lt(
    a: (Option<Option<i32>>, Option<Option<i32>>),
    b: (Option<Option<i32>>, Option<Option<i32>>),
) -> bool {
    option_lt(a.0, b.0) || (a.0 == b.0 && option_lt(a.1, b.1))
}

/// A feed's sort key depends on its position alone: keys compare exactly as
/// positions do, and two feeds share a key exactly when they share a
/// position. Nothing else about a feed (its label, its identifier) breaks
/// ties, so feeds at the same position keep their given order.
pub proof fn lemma_feed_key_is_position(
    f1: FeedInfo,
    f2: FeedInfo,
    feed_mappings: Seq<FeedMappingInfo>,
    category_mappings: Seq<CategoryMappingInfo>,
)
    ensures
        crate::order::key_lt(
            feed_key(f1, feed_mappings, category_mappings),
            feed_key(f2, feed_mappings, category_mappings),
        ) <==> position_lt(
            feed_position(f1, feed_mappings, category_mappings),
            feed_position(f2, feed_mappings, category_mappings),
        ),
        feed_key(f1, feed_mappings, category_mappings) == feed_key(
            f2,
            feed_mappings,
            category_mappings,
        ) <==> feed_position(f1, feed_mappings, category_mappings) == feed_position(
            f2,
            feed_mappings,
            category_mappings,
        ),
{
    let p1 = feed_position(f1, feed_mappings, category_mappings);
    let p2 = feed_position(f2, feed_mappings, category_mappings);
    lemma_rank_orders_like_option(p1.0, p2.0);
    lemma_rank_orders_like_option(p1.1, p2.1);
}

/// A category's sort key depends on its sort index alone, compared as
/// `Option` compares.
pub proof fn lemma_category_key_is_position(
    c1: CategoryInfo,
    c2: CategoryInfo,
    category_mappings: Seq<CategoryMappingInfo>,
)
    ensures
        crate::order::key_lt(
            category_key(c1, category_mappings),
            category_key(c2, category_mappings),
        ) <==> option_lt(
            category_sort_index(category_mappings, c1.category_id@),
            category_sort_index(category_mappings, c2.category_id@),
        ),
        category_key(c1, category_mappings) == category_key(c2, category_mappings)
            <==> category_sort_index(category_mappings, c1.category_id@) == category_sort_index(
            category_mappings,
            c2.category_id@,
        ),
{
    lemma_rank_orders_like_option(
        category_sort_index(category_mappings, c1.category_id@),
        category_sort_index(category_mappings, c2.category_id@),
    );
}

/// The listing order of feeds: a permutation in which no feed comes after
/// one with a greater position, and feeds at the same position keep their
/// given order.
pub proof fn lemma_feed_order_by_position(
    feeds: Seq<FeedInfo>,
    feed_mappings: Seq<FeedMappingInfo>,
    category_mappings: Seq<CategoryMappingInfo>,
)
    requires
        feeds.len() <= usize::MAX,
    ensures
        ({
            let o = sorted_order(
                feed_key_seq(feeds, feed_mappings, category_mappings),
                feeds.len(),
            );
            &&& is_permutation_of_range(o, feeds.len())
            &&& forall|a: int, b: int|
                #![trigger o[a], o[b]]
                0 <= a < b < o.len() ==> !position_lt(
                    feed_position(feeds[o[b] as int], feed_mappings, category_mappings),
                    feed_position(feeds[o[a] as int], feed_mappings, category_mappings),
                )
            &&& forall|a: int, b: int|
                #![trigger o[a], o[b]]
                0 <= a < b < o.len() && feed_position(
                    feeds[o[a] as int],
                    feed_mappings,
                    category_mappings,
                ) == feed_position(feeds[o[b] as int], feed_mappings, category_mappings) ==> o[a]
                    < o[b]
        }),
{
    let keys = feed_key_seq(feeds, feed_mappings, category_mappings);
    let o = sorted_order(keys, feeds.len());
    lemma_sorted_order_is_stable_sort(keys, feeds.len());
    assert forall|a: int, b: int| #![trigger o[a], o[b]] 0 <= a < b < o.len() implies !position_lt(
        feed_position(feeds[o[b] as int], feed_mappings, category_mappings),
        feed_position(feeds[o[a] as int], feed_mappings, category_mappings),
    ) by {
        lemma_feed_key_is_position(feeds[o[b] as int], feeds[o[a] as int], feed_mappings, category_mappings);
        assert(!crate::order::key_lt(keys[o[b] as int], keys[o[a] as int]));
    }
    assert forall|a: int, b: int|
        #![trigger o[a], o[b]]
        0 <= a < b < o.len() && feed_position(feeds[o[a] as int], feed_mappings, category_mappings)
            == feed_position(feeds[o[b] as int], feed_mappings, category_mappings) implies o[a]
        < o[b] by {
        lemma_feed_key_is_position(feeds[o[a] as int], feeds[o[b] as int], feed_mappings, category_mappings);
        assert(keys[o[a] as int] == keys[o[b] as int]);
    }
}

} // verus!
