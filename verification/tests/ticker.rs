use dispatch::render::build_styled_chars;
use dispatch::ticker::{TickerItem, TickerState, UtcTimestamp, HISTORY_CAPACITY, MAX_SPEED, MIN_SPEED};
use ratatui::style::Color;

fn item(category: &str, title: &str, summary: Option<&str>, url: &str) -> TickerItem {
    TickerItem {
        category: category.to_string(),
        color: Color::Green,
        feed_name: "Feed".to_string(),
        title: title.to_string(),
        summary: summary.map(|s| s.to_string()),
        url: url.to_string(),
        article_id: None,
        published: Some(UtcTimestamp { seconds: 1_700_000_000, nanoseconds: 0 }),
    }
}

#[test]
fn new_clamps_speed_and_starts_empty() {
    assert_eq!(TickerState::new(0).speed, 1);
    assert_eq!(TickerState::new(5).speed, 5);
    assert_eq!(TickerState::new(42).speed, 10);
    let state = TickerState::new(3);
    assert!(state.queue.is_empty());
    assert!(state.history.is_empty());
    assert_eq!(state.scroll_offset, 0);
    assert!(!state.paused);
    assert_eq!(state.highlight_index, 0);
    assert_eq!(state.current_category_index, 0);
}

#[test]
fn advance_moves_only_while_playing_with_headlines() {
    let mut state = TickerState::new(5);
    state.advance(3);
    assert_eq!(state.scroll_offset, 0, "empty queue does not scroll");
    state.queue.push_back(item("A", "x", None, "u"));
    assert!(state.is_scrolling());
    state.advance(3);
    assert_eq!(state.scroll_offset, 3);
    state.toggle_pause();
    assert!(!state.is_scrolling());
    state.advance(4);
    assert_eq!(state.scroll_offset, 3, "paused ticker is frozen");
}

#[test]
fn speed_steps_are_bounded() {
    let mut state = TickerState::new(9);
    state.speed_up();
    assert_eq!(state.speed, MAX_SPEED);
    state.speed_up();
    assert_eq!(state.speed, MAX_SPEED);
    let mut slow = TickerState::new(2);
    slow.speed_down();
    assert_eq!(slow.speed, MIN_SPEED);
    slow.speed_down();
    assert_eq!(slow.speed, MIN_SPEED);
}

#[test]
fn speed_up_then_down_returns_to_level() {
    for level in 1..10u8 {
        let mut state = TickerState::new(level);
        state.speed_up();
        state.speed_down();
        assert_eq!(state.speed, level);
    }
}

#[test]
fn speed_table_index_follows_level() {
    assert_eq!(TickerState::new(1).speed_table_index(), 0);
    assert_eq!(TickerState::new(10).speed_table_index(), 9);
    let mut odd = TickerState::new(1);
    odd.speed = 200;
    assert_eq!(odd.speed_table_index(), 9);
}

#[test]
fn toggle_pause_highlights_first_headline() {
    let mut state = TickerState::new(5);
    state.highlight_index = 4;
    state.toggle_pause();
    assert!(state.paused);
    assert_eq!(state.highlight_index, 0);
    state.highlight_index = 2;
    state.toggle_pause();
    assert!(!state.paused);
    assert_eq!(state.highlight_index, 2);
}

#[test]
fn next_headline_stops_at_last() {
    let mut state = TickerState::new(5);
    state.queue.push_back(item("A", "a", None, "ua"));
    state.queue.push_back(item("B", "b", None, "ub"));
    state.next_headline();
    assert_eq!(state.highlight_index, 0, "playing ticker ignores stepping");
    state.toggle_pause();
    state.next_headline();
    assert_eq!(state.highlight_index, 1);
    state.next_headline();
    assert_eq!(state.highlight_index, 1);
}

#[test]
fn prev_headline_pulls_from_history() {
    let mut state = TickerState::new(5);
    state.queue.push_back(item("A", "a", None, "ua"));
    state.queue.push_back(item("B", "b", None, "ub"));
    state.history.push_back(item("H", "old", None, "uh"));
    state.prev_headline();
    assert_eq!(state.queue.len(), 2, "playing ticker ignores stepping");
    state.toggle_pause();
    state.next_headline();
    assert_eq!(state.highlight_index, 1);
    state.prev_headline();
    assert_eq!(state.highlight_index, 0);
    assert_eq!(state.queue.len(), 2);
    state.prev_headline();
    assert_eq!(state.queue.len(), 3);
    assert_eq!(state.queue[0].title, "old");
    assert!(state.history.is_empty());
    assert_eq!(state.highlight_index, 0);
    state.prev_headline();
    assert_eq!(state.queue.len(), 3);
}

#[test]
fn first_item_width_counts_characters_and_separator() {
    let mut state = TickerState::new(5);
    assert_eq!(state.first_item_width(), 0);
    state.queue.push_back(item("TECH", "Hello", None, "u"));
    // "[TECH] " 7 + "Hello" 5 + separator 5
    assert_eq!(state.first_item_width(), 17);
    state.queue.clear();
    state.queue.push_back(item("TECH", "Hello", Some("Sum"), "u"));
    // plus " | " 3 + "Sum" 3
    assert_eq!(state.first_item_width(), 23);
    state.queue.clear();
    state.queue.push_back(item("É", "Ünï", None, "u"));
    // characters: "[É] " 4, "Ünï" 3, separator 5
    assert_eq!(state.first_item_width(), 12);
    state.queue.clear();
    state.queue.push_back(item("A", "é", None, "u"));
    assert_eq!(state.first_item_width(), 10);
}

#[test]
fn check_and_pop_scrolled_off_moves_item_to_history() {
    let mut state = TickerState::new(5);
    assert!(state.check_and_pop_scrolled_off().is_none());
    state.queue.push_back(item("A", "xy", None, "ua"));
    state.queue.push_back(item("B", "z", None, "ub"));
    // width of first item: 4 + 2 + 5 = 11
    state.scroll_offset = 10;
    assert!(state.check_and_pop_scrolled_off().is_none());
    assert_eq!(state.scroll_offset, 10);
    state.scroll_offset = 13;
    let popped = state.check_and_pop_scrolled_off().expect("scrolled off");
    assert_eq!(popped.title, "xy");
    assert_eq!(state.scroll_offset, 2);
    assert_eq!(state.queue.len(), 1);
    assert_eq!(state.history.len(), 1);
    assert_eq!(state.history[0].title, "xy");
}

#[test]
fn history_is_capped() {
    let mut state = TickerState::new(5);
    for i in 0..(HISTORY_CAPACITY + 5) {
        state.queue.push_back(item("A", &format!("t{}", i % 10), None, "u"));
    }
    for _ in 0..(HISTORY_CAPACITY + 5) {
        state.scroll_offset = state.first_item_width();
        assert!(state.check_and_pop_scrolled_off().is_some());
        assert!(state.history.len() <= HISTORY_CAPACITY);
    }
    assert_eq!(state.history.len(), HISTORY_CAPACITY);
    assert_eq!(state.history[0].title, "t4");
    assert!(state.queue.is_empty());
}

#[test]
fn step_back_restores_scrolled_off_headline() {
    let mut state = TickerState::new(5);
    state.queue.push_back(item("A", "first", None, "u1"));
    state.queue.push_back(item("B", "second", None, "u2"));
    state.scroll_offset = state.first_item_width();
    state.check_and_pop_scrolled_off();
    state.toggle_pause();
    state.prev_headline();
    assert_eq!(state.queue.len(), 2);
    assert_eq!(state.queue[0].title, "first");
    assert_eq!(state.queue[1].title, "second");
    assert!(state.history.is_empty());
    assert_eq!(state.highlighted_url(), Some("u1"));
}

#[test]
fn highlighted_url_only_while_paused() {
    let mut state = TickerState::new(5);
    state.queue.push_back(item("A", "a", None, "ua"));
    state.queue.push_back(item("B", "b", None, "ub"));
    assert_eq!(state.highlighted_url(), None);
    state.toggle_pause();
    assert_eq!(state.highlighted_url(), Some("ua"));
    state.next_headline();
    assert_eq!(state.highlighted_url(), Some("ub"));
    state.highlight_index = 7;
    assert_eq!(state.highlighted_url(), None);
}

#[test]
fn duplicate_keeps_every_field() {
    let original = item("A", "t", Some("s"), "u");
    let copy = original.duplicate();
    assert_eq!(copy.category, original.category);
    assert_eq!(copy.color, original.color);
    assert_eq!(copy.title, original.title);
    assert_eq!(copy.summary, original.summary);
    assert_eq!(copy.url, original.url);
    assert_eq!(copy.published, original.published);
}

#[test]
fn chyron_state_starts_fresh() {
    let state = dispatch::chyron::ChyronState::new(12);
    assert_eq!(state.ticker.speed, 10);
    assert!(state.last_sync_time.is_none());
}

#[test]
fn popping_non_ascii_headline_keeps_visible_text() {
    let mut state = TickerState::new(5);
    state.queue.push_back(item("Ünï", "çödé ▶ ünïcode", Some("ñ"), "u1"));
    state.queue.push_back(item("B", "second", None, "u2"));
    state.scroll_offset = state.first_item_width() + 2;
    let before = build_styled_chars(&state);
    let old_offset = state.scroll_offset;
    assert!(state.check_and_pop_scrolled_off().is_some());
    let after = build_styled_chars(&state);
    for k in 0..(before.len() - old_offset) {
        assert_eq!(after[state.scroll_offset + k].0, before[old_offset + k].0);
    }
}
