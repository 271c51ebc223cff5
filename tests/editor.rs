use hex_editor::event::{Event, EventResult, Key, MouseButton, MouseEvent};
use hex_editor::address::{hex_to_cursor_pos, to_32bit_hex};
use hex_editor::hex_area::{HexArea, ADDRESS_LENGTH};
use hex_editor::layout::{make_rows, Row};
use hex_editor::mode::EditorMode;
use hex_editor::xy::Vec2;

fn area(tokens: &[&str]) -> HexArea {
    let values: Vec<&str> = tokens.to_vec();
    HexArea::from(&values)
}

fn send(a: &mut HexArea, e: Event) -> bool {
    let r: EventResult<()> = a.on_event(e);
    r.is_consumed()
}

#[test]
fn from_joins_tokens_with_spaces() {
    let a = area(&["DE", "AD", "BE", "EF"]);
    assert_eq!(a.get_content(), "DE AD BE EF");
    assert_eq!(a.cursor(), 0);
    assert!(a.is_enabled());
    assert!(a.mode().is_normal());
}

#[test]
fn goto_scenario() {
    let mut a = area(&["DE", "AD", "BE", "EF"]);
    assert_eq!(a.get_content().len(), 11);
    a.layout(Vec2::new(100, 10));
    a.goto("00");
    assert_eq!(a.cursor(), 0);
    a.goto("02");
    assert_eq!(a.cursor(), 6);
    a.goto("ZZ");
    assert_eq!(a.cursor(), 6);
}

#[test]
fn goto_past_the_end_stops_at_the_end() {
    let mut a = area(&["DE", "AD", "BE", "EF"]);
    a.layout(Vec2::new(100, 10));
    a.goto("ff");
    assert_eq!(a.cursor(), 11);
    a.goto("1");
    assert_eq!(a.cursor(), 3);
}

#[test]
fn l_moves_to_next_token_and_stops_at_last() {
    let mut a = area(&["DE", "AD"]);
    a.layout(Vec2::new(100, 10));
    assert!(send(&mut a, Event::Char('l')));
    assert_eq!(a.cursor(), 3);
    assert!(send(&mut a, Event::Char('l')));
    assert_eq!(a.cursor(), 3);
}

#[test]
fn insert_overwrites_and_advances() {
    let mut a = area(&["DE", "AD"]);
    a.layout(Vec2::new(100, 10));
    send(&mut a, Event::Char('i'));
    assert!(a.mode().is_insert());
    send(&mut a, Event::Char('F'));
    assert_eq!(a.get_content(), "FE AD");
    assert_eq!(a.cursor(), 3);
}

#[test]
fn insert_in_last_token_moves_forward() {
    let mut a = area(&["DE", "AD"]);
    a.layout(Vec2::new(100, 10));
    a.set_cursor(3);
    send(&mut a, Event::Char('i'));
    send(&mut a, Event::Char('F'));
    assert_eq!(a.get_content(), "DE FD");
    assert_eq!(a.cursor(), 4);
    send(&mut a, Event::Char('0'));
    assert_eq!(a.get_content(), "DE F0");
    assert_eq!(a.cursor(), 5);
    send(&mut a, Event::Char('1'));
    assert_eq!(a.get_content(), "DE F0");
    assert_eq!(a.cursor(), 5);
}

#[test]
fn l_inside_last_token_stays() {
    let mut a = area(&["DE", "AD"]);
    a.layout(Vec2::new(100, 10));
    a.set_cursor(4);
    send(&mut a, Event::Char('l'));
    assert_eq!(a.cursor(), 4);
    send(&mut a, Event::Char('w'));
    assert_eq!(a.cursor(), 4);
}

#[test]
fn insert_uppercases_and_ignores_non_hex() {
    let mut a = area(&["DE", "AD"]);
    a.layout(Vec2::new(100, 10));
    send(&mut a, Event::Char('i'));
    send(&mut a, Event::Char('z'));
    assert_eq!(a.get_content(), "DE AD");
    assert_eq!(a.cursor(), 0);
    send(&mut a, Event::Char('b'));
    assert_eq!(a.get_content(), "BE AD");
    assert_eq!(a.cursor(), 3);
    send(&mut a, Event::Key(Key::Esc));
    assert!(a.mode().is_normal());
}

#[test]
fn h_goes_back_to_previous_token() {
    let mut a = area(&["DE", "AD", "BE"]);
    a.layout(Vec2::new(100, 10));
    a.set_cursor(6);
    send(&mut a, Event::Char('h'));
    assert_eq!(a.cursor(), 3);
    send(&mut a, Event::Char('b'));
    assert_eq!(a.cursor(), 0);
    send(&mut a, Event::Char('h'));
    assert_eq!(a.cursor(), 0);
    send(&mut a, Event::Char('w'));
    assert_eq!(a.cursor(), 3);
}

#[test]
fn rows_wrap_and_vertical_moves() {
    let mut a = area(&["DE", "AD", "BE", "EF"]);
    a.layout(Vec2::new(ADDRESS_LENGTH + 6, 10));
    let lines = a.render();
    assert_eq!(lines, vec!["00000000  DE AD ".to_string(), "00000002  BE EF".to_string()]);
    send(&mut a, Event::Char('j'));
    assert_eq!(a.cursor(), 6);
    send(&mut a, Event::Char('k'));
    assert_eq!(a.cursor(), 0);
    send(&mut a, Event::Char('$'));
    assert_eq!(a.cursor(), 4);
    send(&mut a, Event::Char('0'));
    assert_eq!(a.cursor(), 0);
}

#[test]
fn j_from_last_column_stays_on_a_character() {
    let mut a = area(&["DE", "AD", "BE"]);
    a.layout(Vec2::new(ADDRESS_LENGTH + 6, 10));
    a.set_cursor(5);
    send(&mut a, Event::Char('j'));
    assert_eq!(a.cursor(), 7);
}

#[test]
fn arrows_and_ctrl_home_end() {
    let mut a = area(&["DE", "AD"]);
    a.layout(Vec2::new(100, 10));
    assert!(!send(&mut a, Event::Key(Key::Left)));
    assert!(send(&mut a, Event::Key(Key::Right)));
    assert_eq!(a.cursor(), 1);
    send(&mut a, Event::Ctrl(Key::End));
    assert_eq!(a.cursor(), 5);
    assert!(!send(&mut a, Event::Key(Key::Right)));
    send(&mut a, Event::Ctrl(Key::Home));
    assert_eq!(a.cursor(), 0);
    assert!(!send(&mut a, Event::Key(Key::Up)));
    assert!(!send(&mut a, Event::Key(Key::Down)));
}

#[test]
fn page_down_moves_at_most_five_rows() {
    let tokens: Vec<&str> = vec!["AA"; 10];
    let mut a = HexArea::from(&tokens);
    a.layout(Vec2::new(ADDRESS_LENGTH + 3, 20));
    send(&mut a, Event::Key(Key::PageDown));
    assert_eq!(a.cursor(), 15);
    send(&mut a, Event::Key(Key::PageUp));
    assert_eq!(a.cursor(), 0);
}

#[test]
fn disabled_view_ignores_input() {
    let mut a = area(&["DE", "AD"]);
    a.layout(Vec2::new(100, 10));
    a.disable();
    assert!(!a.is_enabled());
    assert!(!send(&mut a, Event::Char('l')));
    assert_eq!(a.cursor(), 0);
    a.enable();
    assert!(a.is_enabled());
    assert!(send(&mut a, Event::Char('l')));
    let b = area(&["00"]).disabled();
    assert!(!b.is_enabled());
    assert!(b.enabled().is_enabled());
}

#[test]
fn press_moves_cursor_to_cell() {
    let mut a = area(&["DE", "AD", "BE", "EF"]);
    a.layout(Vec2::new(ADDRESS_LENGTH + 6, 10));
    let e = Event::Mouse {
        offset: Vec2::new(2, 3),
        position: Vec2::new(6, 4),
        event: MouseEvent::Press(MouseButton::Left),
    };
    assert!(send(&mut a, e));
    assert_eq!(a.cursor(), 10);
    let outside = Event::Mouse {
        offset: Vec2::new(2, 3),
        position: Vec2::new(0, 0),
        event: MouseEvent::Press(MouseButton::Left),
    };
    assert!(!send(&mut a, outside));
    let wheel = Event::Mouse {
        offset: Vec2::new(0, 0),
        position: Vec2::new(0, 0),
        event: MouseEvent::WheelUp,
    };
    assert!(!send(&mut a, wheel));
    assert!(!send(&mut a, Event::Refresh));
}

#[test]
fn width_one_never_fails() {
    let mut a = area(&["DE", "AD"]);
    a.layout(Vec2::new(0, 0));
    let size = a.required_size(Vec2::new(1, 1));
    assert!(size.y >= 1);
    let rows = make_rows("DE AD", 1);
    assert_eq!(rows.len(), 5);
    assert!(rows.iter().all(|r| r.width <= 1 && r.start < r.end));
    assert_eq!(rows[0], Row { start: 0, end: 1, width: 1 });
    assert_eq!(make_rows("DE AD", 0), rows);
    assert_eq!(make_rows("D\n", 1), vec![Row { start: 0, end: 2, width: 1 }]);
    assert_eq!(make_rows("D\n", 0), make_rows("D\n", 1));
    let empty = area(&[]);
    assert_eq!(empty.get_content(), "");
    let mut e = empty;
    e.layout(Vec2::new(1, 1));
    assert_eq!(e.render(), Vec::<String>::new());
    assert_eq!(e.cursor_glyph(), "_");
}

#[test]
fn make_rows_breaks_between_tokens() {
    let rows = make_rows("DE AD BE EF", 6);
    assert_eq!(
        rows,
        vec![Row { start: 0, end: 6, width: 6 }, Row { start: 6, end: 11, width: 5 }]
    );
    let one = make_rows("DE AD BE EF", 100);
    assert_eq!(one, vec![Row { start: 0, end: 11, width: 11 }]);
    assert!(make_rows("", 4).is_empty());
    let lines = make_rows("DE\nAD", 100);
    assert_eq!(
        lines,
        vec![Row { start: 0, end: 3, width: 2 }, Row { start: 3, end: 5, width: 2 }]
    );
}

#[test]
fn layout_is_cached_for_same_size() {
    let mut a = area(&["DE", "AD", "BE", "EF"]);
    let first = a.required_size(Vec2::new(ADDRESS_LENGTH + 6, 10));
    let lines = a.render();
    let second = a.required_size(Vec2::new(ADDRESS_LENGTH + 6, 10));
    assert_eq!(first, second);
    assert_eq!(lines, a.render());
    assert_eq!(first, Vec2::new(7, 2));
}

#[test]
fn required_size_counts_scrollbar() {
    let tokens: Vec<&str> = vec!["AA"; 4];
    let mut a = HexArea::from(&tokens);
    let size = a.required_size(Vec2::new(ADDRESS_LENGTH + 3, 2));
    assert_eq!(size, Vec2::new(4, 7));
}

#[test]
fn set_content_clamps_cursor() {
    let mut a = area(&["DE", "AD", "BE"]);
    a.layout(Vec2::new(100, 10));
    a.set_cursor(7);
    a.set_content("01 02".to_string());
    assert_eq!(a.cursor(), 5);
    assert_eq!(a.get_content(), "01 02");
    let b = area(&["00"]).content("11 22 33".to_string());
    assert_eq!(b.get_content(), "11 22 33");
}

#[test]
fn important_area_and_glyph() {
    let mut a = area(&["DE", "AD", "BE", "EF"]);
    a.layout(Vec2::new(ADDRESS_LENGTH + 6, 10));
    a.set_cursor(7);
    let r = a.important_area(Vec2::new(16, 10));
    assert_eq!(r.top_left, Vec2::new(1, 1));
    assert_eq!(r.size, Vec2::new(1, 1));
    assert_eq!(a.cursor_glyph(), "E");
    a.set_cursor(11);
    assert_eq!(a.cursor_glyph(), "_");
    assert!(a.take_focus(hex_editor::direction::Direction::front()));
}

#[test]
fn address_labels() {
    assert_eq!(to_32bit_hex(0), "00000000  ");
    assert_eq!(to_32bit_hex(0x1A), "0000001A  ");
    assert_eq!(to_32bit_hex(0x1_2345_6789), "123456789  ");
}

#[test]
fn address_offsets() {
    assert_eq!(hex_to_cursor_pos(""), Some(0));
    assert_eq!(hex_to_cursor_pos("10"), Some(48));
    assert_eq!(hex_to_cursor_pos("aB"), Some(0xAB * 3));
    assert_eq!(hex_to_cursor_pos("g"), None);
    assert_eq!(hex_to_cursor_pos("\u{fb00}"), None);
    assert_eq!(hex_to_cursor_pos("FFFFFFFFFFFFFFFFFF"), Some(usize::MAX));
}

#[test]
fn mode_names() {
    assert_eq!(EditorMode::Normal.to_string(), "NORMAL");
    assert_eq!(EditorMode::Insert.to_string(), "INSERT");
    assert!(EditorMode::Insert.is_insert());
    assert!(!EditorMode::Insert.is_normal());
}
