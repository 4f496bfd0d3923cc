//! State of the scrolling headline ticker.
use std::collections::VecDeque;

use ratatui::style::Color;
use vstd::prelude::*;

use crate::text::char_count;

verus! {

/// How many scrolled-off headlines the ticker remembers for stepping back.
pub const HISTORY_CAPACITY: usize = 20;

/// Slowest speed level.
pub const MIN_SPEED: u8 = 1;

/// Fastest speed level.
pub const MAX_SPEED: u8 = 10;

/// A point in time in UTC: whole seconds since the Unix epoch and the
/// nanoseconds within that second.
#[derive(Debug, Clone, Copy, PartialEq, Eq)]
pub struct UtcTimestamp {
    pub seconds: i64,
    pub nanoseconds: u32,
}

/// A single headline in the ticker queue.
#[derive(Debug)]
pub struct TickerItem {
    pub category: String,
    pub color: Color,
    pub feed_name: String,
    pub title: String,
    pub summary: Option<String>,
    pub url: String,
    /// Identifier of the article the headline belongs to, if known.
    pub article_id: Option<String>,
    /// Publication time, if known.
    pub published: Option<UtcTimestamp>,
}

impl TickerItem {
    /// A copy of this item, equal to it in every field.
    pub fn duplicate(&self) -> (res: TickerItem)
        ensures
            res == *self,
    {
        let summary = match &self.summary {
            Some(s) => Some(s.clone()),
            None => None,
        };
        let article_id = match &self.article_id {
            Some(s) => Some(s.clone()),
            None => None,
        };
        TickerItem {
            category: self.category.clone(),
            color: self.color,
            feed_name: self.feed_name.clone(),
            title: self.title.clone(),
            summary,
            url: self.url.clone(),
            article_id,
            published: self.published,
        }
    }
}

/// Display width of an item on the ticker line, in character cells: the
/// characters of `"[CATEGORY] "`, of the title, of `" | summary"` when there
/// is a summary, and five for the separator `" ███ "`.
pub open spec fn item_width(item: TickerItem) -> nat {
    (item.category@.len() + 3) + item.title@.len() + match item.summary {
        Some(s) => 3 + s@.len(),
        None => 0nat,
    } + 5
}

/// The display width of `item`, or `None` when it does not fit in `usize`.
fn item_width_checked(item: &TickerItem) -> (res: Option<usize>)
    ensures
        match res {
            Some(w) => w == item_width(*item),
            None => item_width(*item) > usize::MAX,
        },
{
    let category = char_count(item.category.as_str());
    let title = char_count(item.title.as_str());
    let summary: usize = match &item.summary {
        Some(s) => {
            let n = char_count(s.as_str());
            if n > usize::MAX - 3 {
                return None;
            }
            3 + n
        },
        None => 0,
    };
    if category > usize::MAX - 3 {
        return None;
    }
    let tag = category + 3;
    if title > usize::MAX - tag {
        return None;
    }
    let text = tag + title;
    if summary > usize::MAX - text {
        return None;
    }
    let body = text + summary;
    if body > usize::MAX - 5 {
        return None;
    }
    Some(body + 5)
}

/// Width of the first item of a queue, zero for an empty queue.
pub open spec fn front_width(queue: Seq<TickerItem>) -> nat {
    if queue.len() == 0 {
        0
    } else {
        item_width(queue[0])
    }
}

/// The history after `item` has scrolled off: `item` at the front, and the
/// oldest entry dropped when the history was already full.
pub open spec fn history_after_pop(history: Seq<TickerItem>, item: TickerItem) -> Seq<TickerItem> {
    seq![item] + if history.len() >= HISTORY_CAPACITY {
        history.drop_last()
    } else {
        history
    }
}

/// `value` limited to the speed levels `MIN_SPEED..=MAX_SPEED`.
pub open spec fn clamp_speed(value: u8) -> u8 {
    if value < MIN_SPEED {
        MIN_SPEED
    } else if value > MAX_SPEED {
        MAX_SPEED
    } else {
        value
    }
}

/// Speed level after one step up: one more, at most `MAX_SPEED`.
pub open spec fn speed_after_up(speed: u8) -> u8 {
    if speed + 1 < MAX_SPEED {
        (speed + 1) as u8
    } else {
        MAX_SPEED
    }
}

/// Speed level after one step down: one less, at least `MIN_SPEED`.
pub open spec fn speed_after_down(speed: u8) -> u8 {
    if speed <= 2 {
        MIN_SPEED
    } else {
        (speed - 1) as u8
    }
}

/// Mutable state for the scrolling ticker.
pub struct TickerState {
    pub queue: VecDeque<TickerItem>,
    pub history: VecDeque<TickerItem>,
    pub scroll_offset: usize,
    pub speed: u8,
    pub paused: bool,
    pub highlight_index: usize,
    pub current_category_index: usize,
}

impl TickerState {
    /// The state is well formed: the speed is a valid level and the history
    /// holds at most `HISTORY_CAPACITY` items.
    pub open spec fn wf(&self) -> bool {
        &&& MIN_SPEED <= self.speed <= MAX_SPEED
        &&& self.history@.len() <= HISTORY_CAPACITY
    }

    /// The ticker moves on a tick: it is playing and has something to show.
    pub open spec fn spec_is_scrolling(&self) -> bool {
        !self.paused && self.queue@.len() > 0
    }

    /// The state of a fresh ticker: empty queue and history, playing,
    /// scrolled to the start, first category and headline selected, and
    /// `default_speed` limited to the valid speed levels.
    pub open spec fn is_initial(&self, default_speed: u8) -> bool {
        &&& self.queue@ == Seq::<TickerItem>::empty()
        &&& self.history@ == Seq::<TickerItem>::empty()
        &&& self.scroll_offset == 0
        &&& self.speed == clamp_speed(default_speed)
        &&& !self.paused
        &&& self.highlight_index == 0
        &&& self.current_category_index == 0
    }

    /// A fresh ticker for the configured default speed.
    pub fn new(default_speed: u8) -> (res: Self)
        ensures
            res.wf(),
            res.is_initial(default_speed),
    {
        let speed = if default_speed < MIN_SPEED {
            MIN_SPEED
        } else if default_speed > MAX_SPEED {
            MAX_SPEED
        } else {
            default_speed
        };
        TickerState {
            queue: VecDeque::new(),
            history: VecDeque::with_capacity(HISTORY_CAPACITY),
            scroll_offset: 0,
            speed,
            paused: false,
            highlight_index: 0,
            current_category_index: 0,
        }
    }

    /// Whether a tick moves the ticker: it is playing and the queue is not
    /// empty.
    pub fn is_scrolling(&self) -> (res: bool)
        ensures
            res == self.spec_is_scrolling(),
    {
        !self.paused && self.queue.len() > 0
    }

    /// Index into the table of per-tick scroll rates for the current speed
    /// level: the level minus one, at most nine.
    pub fn speed_table_index(&self) -> (res: usize)
        requires
            self.speed >= 1,
        ensures
            res == if self.speed - 1 < 9 { self.speed - 1 } else { 9 },
            self.wf() ==> res == self.speed - 1,
    {
        let i = (self.speed - 1) as usize;
        if i < 9 {
            i
        } else {
            9
        }
    }

    /// Advance the scroll offset by `whole_chars` whole characters when the
    /// ticker is playing and has headlines; otherwise nothing changes.
    pub fn advance(&mut self, whole_chars: usize)
        requires
            old(self).spec_is_scrolling() ==> old(self).scroll_offset + whole_chars <= usize::MAX,
        ensures
            final(self).scroll_offset == if old(self).spec_is_scrolling() {
                old(self).scroll_offset + whole_chars
            } else {
                old(self).scroll_offset as int
            },
            old(self).wf() ==> final(self).wf(),
            final(self).queue == old(self).queue,
            final(self).history == old(self).history,
            final(self).speed == old(self).speed,
            final(self).paused == old(self).paused,
            final(self).highlight_index == old(self).highlight_index,
            final(self).current_category_index == old(self).current_category_index,
    {
        if !self.paused && self.queue.len() > 0 {
            self.scroll_offset = self.scroll_offset + whole_chars;
        }
    }

    /// Switch between playing and paused; pausing highlights the first
    /// headline.
    pub fn toggle_pause(&mut self)
        ensures
            final(self).paused == !old(self).paused,
            final(self).highlight_index == if final(self).paused {
                0
            } else {
                old(self).highlight_index
            },
            final(self).queue == old(self).queue,
            final(self).history == old(self).history,
            final(self).scroll_offset == old(self).scroll_offset,
            final(self).speed == old(self).speed,
            old(self).wf() ==> final(self).wf(),
            final(self).current_category_index == old(self).current_category_index,
    {
        self.paused = !self.paused;
        if self.paused {
            self.highlight_index = 0;
        }
    }

    /// One speed level faster, at most `MAX_SPEED`.
    pub fn speed_up(&mut self)
        requires
            old(self).speed < u8::MAX,
        ensures
            final(self).speed == speed_after_up(old(self).speed),
            old(self).wf() ==> final(self).wf(),
            final(self).queue == old(self).queue,
            final(self).history == old(self).history,
            final(self).scroll_offset == old(self).scroll_offset,
            final(self).paused == old(self).paused,
            final(self).highlight_index == old(self).highlight_index,
            final(self).current_category_index == old(self).current_category_index,
    {
        let next = self.speed + 1;
        self.speed = if next < MAX_SPEED {
            next
        } else {
            MAX_SPEED
        };
    }

    /// One speed level slower, at least `MIN_SPEED`.
    pub fn speed_down(&mut self)
        ensures
            final(self).speed == speed_after_down(old(self).speed),
            old(self).wf() ==> final(self).wf(),
            final(self).queue == old(self).queue,
            final(self).history == old(self).history,
            final(self).scroll_offset == old(self).scroll_offset,
            final(self).paused == old(self).paused,
            final(self).highlight_index == old(self).highlight_index,
            final(self).current_category_index == old(self).current_category_index,
    {
        let lower = if self.speed > 0 {
            self.speed - 1
        } else {
            0
        };
        self.speed = if lower > MIN_SPEED {
            lower
        } else {
            MIN_SPEED
        };
    }

    /// Step to the next headline when paused, stopping at the last one.
    pub fn next_headline(&mut self)
        requires
            old(self).paused && old(self).queue@.len() > 0 ==> old(self).highlight_index
                < usize::MAX,
        ensures
            final(self).highlight_index == if old(self).paused && old(self).queue@.len() > 0 {
                if old(self).highlight_index + 1 < old(self).queue@.len() - 1 {
                    old(self).highlight_index + 1
                } else {
                    old(self).queue@.len() - 1
                }
            } else {
                old(self).highlight_index as int
            },
            old(self).paused && old(self).queue@.len() > 0 ==> final(self).highlight_index
                < final(self).queue@.len(),
            final(self).queue == old(self).queue,
            final(self).history == old(self).history,
            final(self).scroll_offset == old(self).scroll_offset,
            final(self).speed == old(self).speed,
            final(self).paused == old(self).paused,
            old(self).wf() ==> final(self).wf(),
            final(self).current_category_index == old(self).current_category_index,
    {
        if self.paused && self.queue.len() > 0 {
            let next = self.highlight_index + 1;
            let last = self.queue.len() - 1;
            self.highlight_index = if next < last {
                next
            } else {
                last
            };
        }
    }

    /// Step to the previous headline when paused. At the front of the queue
    /// the most recently scrolled-off headline comes back from the history
    /// and stays highlighted.
    pub fn prev_headline(&mut self)
        ensures
            !old(self).paused ==> *final(self) == *old(self),
            old(self).paused && old(self).highlight_index > 0 ==> {
                &&& final(self).highlight_index == old(self).highlight_index - 1
                &&& final(self).queue == old(self).queue
                &&& final(self).history == old(self).history
            },
            old(self).paused && old(self).highlight_index == 0 && old(self).history@.len() > 0
                ==> {
                &&& final(self).queue@ == seq![old(self).history@[0]] + old(self).queue@
                &&& final(self).history@ == old(self).history@.drop_first()
                &&& final(self).highlight_index == 0
            },
            old(self).paused && old(self).highlight_index == 0 && old(self).history@.len() == 0
                ==> {
                &&& final(self).queue@ == old(self).queue@
                &&& final(self).history@ == old(self).history@
                &&& final(self).highlight_index == 0
            },
            final(self).scroll_offset == old(self).scroll_offset,
            final(self).speed == old(self).speed,
            final(self).paused == old(self).paused,
            old(self).wf() ==> final(self).wf(),
            final(self).current_category_index == old(self).current_category_index,
    {
        if !self.paused {
            return ;
        }
        if self.highlight_index > 0 {
            self.highlight_index = self.highlight_index - 1;
        } else if let Some(item) = self.history.pop_front() {
            self.queue.push_front(item);
        }
    }

    /// Display width of the first queued item including its separator,
    /// zero when the queue is empty. Once the scroll offset reaches it, the
    /// item has scrolled off screen.
    pub fn first_item_width(&self) -> (res: usize)
        requires
            front_width(self.queue@) <= usize::MAX,
        ensures
            res == front_width(self.queue@),
    {
        if self.queue.len() > 0 {
            match item_width_checked(&self.queue[0]) {
                Some(w) => w,
                None => 0,
            }
        } else {
            0
        }
    }

    /// When the first item has scrolled off screen, remove it from the
    /// queue, record it at the front of the history (dropping the oldest
    /// entry of a full history), rewind the offset by its width and return
    /// it. Otherwise nothing changes and `None` comes back.
    pub fn check_and_pop_scrolled_off(&mut self) -> (res: Option<TickerItem>)
        ensures
            ({
                let pops = old(self).queue@.len() > 0 && old(self).scroll_offset >= item_width(
                    old(self).queue@[0],
                );
                &&& pops ==> {
                    &&& res == Some(old(self).queue@[0])
                    &&& final(self).queue@ == old(self).queue@.drop_first()
                    &&& final(self).history@ == history_after_pop(
                        old(self).history@,
                        old(self).queue@[0],
                    )
                    &&& final(self).scroll_offset == old(self).scroll_offset - item_width(
                        old(self).queue@[0],
                    )
                }
                &&& !pops ==> res is None && *final(self) == *old(self)
            }),
            final(self).speed == old(self).speed,
            final(self).paused == old(self).paused,
            final(self).highlight_index == old(self).highlight_index,
            old(self).wf() ==> final(self).wf(),
            final(self).current_category_index == old(self).current_category_index,
    {
        if self.queue.len() == 0 {
            return None;
        }
        // A width beyond `usize` is never reached by the scroll offset.
        let width = match item_width_checked(&self.queue[0]) {
            Some(w) => w,
            None => {
                return None;
            },
        };
        if self.scroll_offset >= width {
            self.scroll_offset = self.scroll_offset - width;
            let item = self.queue.pop_front();
            match item {
                Some(popped) => {
                    if self.history.len() >= HISTORY_CAPACITY {
                        self.history.pop_back();
                    }
                    self.history.push_front(popped.duplicate());
                    Some(popped)
                },
                None => None,
            }
        } else {
            None
        }
    }

    /// URL of the highlighted headline while paused; `None` while playing
    /// or when the highlight is past the end of the queue.
    pub fn highlighted_url(&self) -> (res: Option<&str>)
        ensures
            res is Some <==> self.paused && self.highlight_index < self.queue@.len(),
            res matches Some(url) ==> url@ == self.queue@[self.highlight_index as int].url@,
    {
        if self.paused && self.highlight_index < self.queue.len() {
            Some(self.queue[self.highlight_index].url.as_str())
        } else {
            None
        }
    }
}

/// One speed step up followed by one step down returns to the starting
/// level, for every level below the top.
pub proof fn lemma_speed_up_then_down(speed: u8)
    requires
        MIN_SPEED <= speed < MAX_SPEED,
    ensures
        speed_after_down(speed_after_up(speed)) == speed,
{
}

/// One speed step down followed by one step up returns to the starting
/// level, for every level above the bottom.
pub proof fn lemma_speed_down_then_up(speed: u8)
    requires
        MIN_SPEED < speed <= MAX_SPEED,
    ensures
        speed_after_up(speed_after_down(speed)) == speed,
{
}

/// Speed steps never leave the valid levels `MIN_SPEED..=MAX_SPEED`.
pub proof fn lemma_speed_steps_stay_in_range(speed: u8)
    requires
        MIN_SPEED <= speed <= MAX_SPEED,
    ensures
        MIN_SPEED <= speed_after_up(speed) <= MAX_SPEED,
        MIN_SPEED <= speed_after_down(speed) <= MAX_SPEED,
{
}

/// The history keeps the most recently scrolled-off headline in front and
/// never grows beyond `HISTORY_CAPACITY`.
pub proof fn lemma_history_stays_bounded(history: Seq<TickerItem>, item: TickerItem)
    requires
        history.len() <= HISTORY_CAPACITY,
    ensures
        history_after_pop(history, item).len() <= HISTORY_CAPACITY,
        history_after_pop(history, item)[0] == item,
{
}

/// Stepping back while paused at the front of the queue undoes a
/// scroll-off: the headline that left comes back in front of the rest of
/// the queue, and the history is as it was, except that a full history has
/// lost its oldest entry.
pub proof fn lemma_step_back_restores_scrolled_off(
    queue: Seq<TickerItem>,
    history: Seq<TickerItem>,
)
    requires
        queue.len() > 0,
    ensures
        ({
            let after = history_after_pop(history, queue[0]);
            &&& after.len() > 0
            &&& seq![after[0]] + queue.drop_first() == queue
            &&& history.len() < HISTORY_CAPACITY ==> after.drop_first() == history
            &&& history.len() >= HISTORY_CAPACITY ==> after.drop_first() == history.drop_last()
        }),
{
    let after = history_after_pop(history, queue[0]);
    assert(seq![after[0]] + queue.drop_first() =~= queue);
    if history.len() < HISTORY_CAPACITY {
        assert(after.drop_first() =~= history);
    } else {
        assert(after.drop_first() =~= history.drop_last());
    }
}

/// Each speed step moves exactly one level: up from any level below the
/// top goes to the next level and stays at the top; down from any level
/// above the bottom goes to the previous level and stays at the bottom.
pub proof fn lemma_speed_steps_are_single_levels(speed: u8)
    requires
        MIN_SPEED <= speed <= MAX_SPEED,
    ensures
        speed < MAX_SPEED ==> speed_after_up(speed) == speed + 1,
        speed == MAX_SPEED ==> speed_after_up(speed) == speed,
        speed > MIN_SPEED ==> speed_after_down(speed) == speed - 1,
        speed == MIN_SPEED ==> speed_after_down(speed) == speed,
{
}

} // verus!
