use hex_editor::direction::{Absolute, Direction, Orientation, Relative};
use hex_editor::event::{Event, EventResult, Key, MouseButton, MouseEvent};
use hex_editor::scroll::ScrollBase;
use hex_editor::xy::{Vec2, XY};

#[test]
fn orientation_basics() {
    let p = Orientation::pair();
    assert_eq!(p.x, Orientation::Horizontal);
    assert_eq!(p.y, Orientation::Vertical);
    assert_eq!(Orientation::Horizontal.swap(), Orientation::Vertical);
    let v = XY::new(1, 2);
    assert_eq!(Orientation::Vertical.get(&v), 2);
    let mut xy = XY::new(1, 2);
    *Orientation::Horizontal.get_ref(&mut xy) = 42;
    assert_eq!(xy, XY::new(42, 2));
    assert_eq!(Orientation::Horizontal.make_vec(1, 2), Vec2::new(1, 2));
    assert_eq!(Orientation::Vertical.make_vec(1, 2), Vec2::new(2, 1));
}

#[test]
fn orientation_stack() {
    let sizes = [Vec2::new(1, 5), Vec2::new(2, 3)];
    assert_eq!(Orientation::Horizontal.stack(&sizes), Vec2::new(3, 5));
    assert_eq!(Orientation::Vertical.stack(&sizes), Vec2::new(2, 8));
    assert_eq!(Orientation::Vertical.stack(&[]), Vec2::new(0, 0));
}

#[test]
fn directions() {
    assert_eq!(Relative::Front.absolute(Orientation::Horizontal), Absolute::Left);
    assert_eq!(Relative::Back.absolute(Orientation::Vertical), Absolute::Down);
    assert_eq!(Absolute::Up.relative(Orientation::Vertical), Some(Relative::Front));
    assert_eq!(Absolute::Left.relative(Orientation::Vertical), None);
    assert_eq!(Direction::back().absolute(Orientation::Horizontal), Absolute::Right);
    assert_eq!(Direction::up().relative(Orientation::Vertical), Some(Relative::Front));
    assert_eq!(Direction::none(), Direction::Abs(Absolute::Unspecified));
    assert_eq!(Direction::left(), Direction::Abs(Absolute::Left));
    assert_eq!(Direction::right(), Direction::Abs(Absolute::Right));
    assert_eq!(Direction::down(), Direction::Abs(Absolute::Down));
    assert_eq!(Direction::front(), Direction::Rel(Relative::Front));
}

#[test]
fn events() {
    assert_eq!(Key::from_f(1), Key::F1);
    assert_eq!(Key::from_f(12), Key::F12);
    assert_eq!(MouseEvent::Hold(MouseButton::Right).button(), Some(MouseButton::Right));
    assert_eq!(MouseEvent::WheelUp.button(), None);
    assert!(MouseEvent::WheelDown.grabs_focus());
    assert!(!MouseEvent::Release(MouseButton::Left).grabs_focus());
    let e = Event::Mouse {
        offset: Vec2::new(1, 1),
        position: Vec2::new(5, 6),
        event: MouseEvent::Press(MouseButton::Left),
    };
    assert_eq!(e.mouse_position(), Some(Vec2::new(5, 6)));
    let moved = e.relativized(Vec2::new(2, 3));
    assert_eq!(
        moved,
        Event::Mouse {
            offset: Vec2::new(3, 4),
            position: Vec2::new(5, 6),
            event: MouseEvent::Press(MouseButton::Left),
        }
    );
    let mut m = e.clone();
    if let Some(p) = m.mouse_position_mut() {
        *p = Vec2::new(0, 0);
    }
    assert_eq!(m.mouse_position(), Some(Vec2::new(0, 0)));
    let mut c = Event::Char('x');
    c.relativize(Vec2::new(1, 1));
    assert_eq!(c, Event::Char('x'));
    assert_eq!(Event::Key(Key::Up).mouse_position(), None);
}

#[test]
fn event_results() {
    let ignored: EventResult<u8> = EventResult::Ignored;
    assert!(!ignored.is_consumed());
    let with = EventResult::with_cb(7u8);
    assert!(with.is_consumed());
    assert!(with.has_callback());
    let plain: EventResult<u8> = EventResult::Consumed(None);
    assert!(!plain.has_callback());
    let r = ignored.or_else(|| EventResult::with_cb(3u8));
    assert!(r.has_callback());
    let kept = plain.or_else(|| EventResult::with_cb(3u8));
    assert!(!kept.has_callback());
}

#[test]
fn vec2_arithmetic() {
    let a = Vec2::new(5, 3);
    assert_eq!(a.checked_sub(Vec2::new(2, 1)), Some(Vec2::new(3, 2)));
    assert_eq!(a.checked_sub(Vec2::new(6, 1)), None);
    assert_eq!(a.saturating_sub(Vec2::new(6, 1)), Vec2::new(0, 2));
    assert!(a.fits_in_rect(Vec2::new(5, 3), Vec2::new(1, 1)));
    assert!(!a.fits_in_rect(Vec2::new(0, 0), Vec2::new(5, 5)));
    assert_eq!(a.stack_horizontal(Vec2::new(1, 7)), Vec2::new(6, 7));
    assert_eq!(a.stack_vertical(Vec2::new(1, 7)), Vec2::new(5, 10));
    assert_eq!(Vec2::zero(), Vec2::new(0, 0));
}

#[test]
fn scrolling() {
    let mut s = ScrollBase::new();
    s.set_heights(3, 10);
    assert!(s.scrollable());
    assert!(!s.can_scroll_up());
    assert!(s.can_scroll_down());
    s.scroll_to(5);
    assert_eq!(s.start_line, 3);
    s.scroll_down(5);
    assert_eq!(s.start_line, 7);
    s.scroll_up(5);
    assert_eq!(s.start_line, 2);
    s.scroll_to(0);
    assert_eq!(s.start_line, 0);
    assert!(!s.start_drag(Vec2::new(0, 0), 10));
    assert!(s.start_drag(Vec2::new(9, 2), 10));
    assert!(s.dragging);
    s.drag(Vec2::new(9, 3));
    assert_eq!(s.start_line, 7);
    s.release_grab();
    assert!(!s.dragging);
}
