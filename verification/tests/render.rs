use dispatch::render::{
    build_styled_chars, cell_style, ticker_view, Area, BaseColor, CharStyle, Paint, TickerView,
};
use dispatch::ticker::{TickerItem, TickerState};
use ratatui::style::Color;

fn item(category: &str, title: &str, summary: Option<&str>, color: Color) -> TickerItem {
    TickerItem {
        category: category.to_string(),
        color,
        feed_name: String::new(),
        title: title.to_string(),
        summary: summary.map(|s| s.to_string()),
        url: String::new(),
        article_id: None,
        published: None,
    }
}

fn two_item_state() -> TickerState {
    let mut state = TickerState::new(5);
    state.queue.push_back(item("A", "x", None, Color::Red));
    state.queue.push_back(item("B", "y", Some("s"), Color::Blue));
    state
}

#[test]
fn styled_chars_spell_the_ticker_line() {
    let state = two_item_state();
    let chars = build_styled_chars(&state);
    let text: String = chars.iter().map(|(c, _)| *c).collect();
    assert_eq!(text, "[A] x ███ [B] y | s");
}

#[test]
fn styled_chars_carry_roles() {
    let state = two_item_state();
    let chars = build_styled_chars(&state);
    assert!(matches!(chars[0].1, CharStyle::Tag { color: Color::Red, highlighted: false }));
    assert!(matches!(chars[4].1, CharStyle::Title { highlighted: false }));
    assert!(matches!(chars[5].1, CharStyle::Separator));
    assert!(matches!(chars[10].1, CharStyle::Tag { color: Color::Blue, highlighted: false }));
    assert!(matches!(chars[15].1, CharStyle::Pipe));
    assert!(matches!(chars[18].1, CharStyle::Summary { highlighted: false }));
}

#[test]
fn paused_ticker_highlights_selected_headline() {
    let mut state = two_item_state();
    state.toggle_pause();
    state.next_headline();
    let chars = build_styled_chars(&state);
    assert!(matches!(chars[0].1, CharStyle::Tag { highlighted: false, .. }));
    assert!(matches!(chars[10].1, CharStyle::Tag { highlighted: true, .. }));
    assert!(matches!(chars[14].1, CharStyle::Title { highlighted: true }));
    assert!(matches!(chars[18].1, CharStyle::Summary { highlighted: true }));
}

#[test]
fn empty_ticker_shows_centered_message() {
    let state = TickerState::new(5);
    let area = Area { x: 0, y: 0, width: 40, height: 1 };
    match ticker_view(area, &state) {
        TickerView::NoHeadlines(cells) => {
            let text: String = cells.iter().map(|c| c.ch).collect();
            assert_eq!(text, "No new headlines. Press s to sync.");
            assert_eq!(cells[0].x, 3);
            assert_eq!(cells[33].x, 36);
            assert!(cells.iter().all(|c| c.y == 0));
        }
        other => panic!("expected message, got {:?}", other),
    }
}

#[test]
fn message_is_clipped_to_narrow_area() {
    let state = TickerState::new(5);
    let area = Area { x: 5, y: 2, width: 10, height: 1 };
    match ticker_view(area, &state) {
        TickerView::NoHeadlines(cells) => {
            let text: String = cells.iter().map(|c| c.ch).collect();
            assert_eq!(text, "No new hea");
            assert_eq!(cells[0].x, 5);
        }
        other => panic!("expected message, got {:?}", other),
    }
    let flat = Area { x: 0, y: 0, width: 40, height: 0 };
    match ticker_view(flat, &state) {
        TickerView::NoHeadlines(cells) => assert!(cells.is_empty()),
        other => panic!("expected message, got {:?}", other),
    }
}

#[test]
fn area_at_right_screen_edge_without_room_draws_nothing() {
    let state = two_item_state();
    let area = Area { x: u16::MAX, y: 0, width: 10, height: 0 };
    assert!(matches!(ticker_view(area, &state), TickerView::Nothing));
}

#[test]
fn ticker_without_room_draws_nothing() {
    let state = two_item_state();
    let area = Area { x: 0, y: 0, width: 10, height: 0 };
    assert!(matches!(ticker_view(area, &state), TickerView::Nothing));
    let area = Area { x: 0, y: 0, width: 0, height: 1 };
    assert!(matches!(ticker_view(area, &state), TickerView::Nothing));
}

#[test]
fn ticker_view_shows_line_from_offset() {
    let mut state = two_item_state();
    state.scroll_offset = 2;
    let area = Area { x: 3, y: 7, width: 4, height: 1 };
    match ticker_view(area, &state) {
        TickerView::Cells(cells) => {
            let text: String = cells.iter().map(|c| c.ch).collect();
            assert_eq!(text, "] x ");
            let xs: Vec<u16> = cells.iter().map(|c| c.x).collect();
            assert_eq!(xs, vec![3, 4, 5, 6]);
            assert!(cells.iter().all(|c| c.y == 7));
        }
        other => panic!("expected cells, got {:?}", other),
    }
}

#[test]
fn ticker_view_stops_at_end_of_line() {
    let mut state = two_item_state();
    state.scroll_offset = 17;
    let area = Area { x: 0, y: 0, width: 10, height: 1 };
    match ticker_view(area, &state) {
        TickerView::Cells(cells) => {
            let text: String = cells.iter().map(|c| c.ch).collect();
            assert_eq!(text, " s");
        }
        other => panic!("expected cells, got {:?}", other),
    }
    state.scroll_offset = 1000;
    match ticker_view(area, &state) {
        TickerView::Cells(cells) => assert!(cells.is_empty()),
        other => panic!("expected cells, got {:?}", other),
    }
}

#[test]
fn ascii_item_width_matches_drawn_chars() {
    let mut state = TickerState::new(5);
    state.queue.push_back(item("NEWS", "Hello world", Some("more"), Color::Red));
    let drawn = build_styled_chars(&state).len();
    assert_eq!(state.first_item_width(), drawn + 5);
}

#[test]
fn cell_styles_follow_roles() {
    let sep = cell_style(CharStyle::Separator);
    assert!(matches!(sep.fg, Paint::Base(BaseColor::DarkGray)) && sep.bg.is_none() && !sep.bold);
    let tag = cell_style(CharStyle::Tag { color: Color::Cyan, highlighted: false });
    assert!(matches!(tag.fg, Paint::Custom(Color::Cyan)) && tag.bg.is_none() && tag.bold);
    let tag_hi = cell_style(CharStyle::Tag { color: Color::Cyan, highlighted: true });
    assert!(matches!(tag_hi.fg, Paint::Base(BaseColor::Black)));
    assert!(matches!(tag_hi.bg, Some(Paint::Custom(Color::Cyan))) && tag_hi.bold);
    let title = cell_style(CharStyle::Title { highlighted: false });
    assert!(matches!(title.fg, Paint::Base(BaseColor::White)) && title.bg.is_none());
    let title_hi = cell_style(CharStyle::Title { highlighted: true });
    assert!(matches!(title_hi.bg, Some(Paint::Base(BaseColor::White))));
    let summary_hi = cell_style(CharStyle::Summary { highlighted: true });
    assert!(matches!(summary_hi.fg, Paint::Base(BaseColor::Black)));
    assert!(matches!(summary_hi.bg, Some(Paint::Base(BaseColor::Gray))));
    let pipe = cell_style(CharStyle::Pipe);
    assert!(matches!(pipe.fg, Paint::Base(BaseColor::DarkGray)));
}

#[test]
fn no_headlines_message_text() {
    assert_eq!(dispatch::render::NO_HEADLINES_MESSAGE, "No new headlines. Press s to sync.");
}
