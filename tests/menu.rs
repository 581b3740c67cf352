use sfml_menu::menu::{Menu, NavEvent, MARGIN};
use sfml_menu::menu_text::{Color, MenuText, Position, TextStyle};

fn three_entries() -> Menu {
    let mut m = Menu::new();
    for caption in ["Play", "Settings", "Exit"] {
        m.add_stacked(caption.to_string(), "RedHatMono.ttf".to_string(), 32, Color::white());
    }
    m
}

#[test]
fn test_menu() {
    let mut my_menu: Menu = Menu::new();
    my_menu.add_text(String::from("Test 1."), String::from("RedHatMono.ttf"), 32, Position::new(16, 0), Color::white());
    my_menu.add_text(String::from("Test 2."), String::from("RedHatMono.ttf"), 32, Position::new(16, 64), Color::white());
    my_menu.add_text(String::from("Test 3."), String::from("RedHatMono.ttf"), 32, Position::new(16, 128), Color::white());

    let frame = my_menu.draw();
    assert_eq!(frame.len(), 3);
    let ys: Vec<i64> = frame.iter().map(|d| d.y).collect();
    assert_eq!(ys, vec![0, 64, 128]);
    assert!(frame.iter().all(|d| d.x == 16 && d.size == 32 && d.font == "RedHatMono.ttf"));
    assert_eq!(frame[1].caption, "Test 2.");
    assert_eq!(frame[0].style, TextStyle::Underlined);
    assert_eq!(frame[1].style, TextStyle::Regular);

    my_menu.event(NavEvent::Down);
    let frame = my_menu.draw();
    assert_eq!(frame[0].style, TextStyle::Regular);
    assert_eq!(frame[1].style, TextStyle::Underlined);
}

#[test]
fn play_settings_exit_scenario() {
    let mut m = three_entries();
    assert_eq!(m.selected_index(), 0);
    m.event(NavEvent::Down);
    assert_eq!(m.selected_index(), 1);
    m.event(NavEvent::Down);
    m.event(NavEvent::Down);
    assert_eq!(m.selected_index(), 0);
    m.event(NavEvent::Up);
    assert_eq!(m.selected_index(), 2);
}

#[test]
fn down_n_times_returns_to_start() {
    for n in 1..6usize {
        for start in 0..n {
            let mut m = Menu::new();
            for _ in 0..n {
                m.add_text("x".to_string(), "f".to_string(), 10, Position::new(0, 0), Color::white());
            }
            for _ in 0..start {
                m.event(NavEvent::Down);
            }
            assert_eq!(m.selected_index(), start);
            for _ in 0..n {
                m.event(NavEvent::Down);
            }
            assert_eq!(m.selected_index(), start);
            for _ in 0..n {
                m.event(NavEvent::Up);
            }
            assert_eq!(m.selected_index(), start);
        }
    }
}

#[test]
fn cursor_stays_in_range() {
    let mut m = three_entries();
    let events = [
        NavEvent::Up, NavEvent::Up, NavEvent::Other, NavEvent::Down, NavEvent::Up, NavEvent::Up,
        NavEvent::Up, NavEvent::Down, NavEvent::Down, NavEvent::Down, NavEvent::Down,
    ];
    let expected = [2usize, 1, 1, 2, 1, 0, 2, 0, 1, 2, 0];
    for (ev, want) in events.iter().zip(expected.iter()) {
        m.event(*ev);
        assert!(m.selected_index() < 3);
        assert_eq!(m.selected_index(), *want);
    }
}

#[test]
fn other_events_are_ignored() {
    let mut m = three_entries();
    m.event(NavEvent::Down);
    m.event(NavEvent::Other);
    assert_eq!(m.selected_index(), 1);
}

#[test]
fn empty_menu_navigation_is_a_no_op() {
    let mut m = Menu::new();
    m.event(NavEvent::Down);
    m.event(NavEvent::Up);
    m.event(NavEvent::Up);
    assert_eq!(m.selected_index(), 0);
    assert_eq!(m.len(), 0);
    assert!(m.draw().is_empty());
}

#[test]
fn stacked_layout_offsets() {
    assert_eq!(MARGIN, 32);
    let mut m = Menu::new();
    m.add_text("a".to_string(), "f".to_string(), 20, Position::new(16, 10), Color::white());
    m.add_stacked("b".to_string(), "f".to_string(), 40, Color::white());
    m.add_stacked("c".to_string(), "f".to_string(), 8, Color::white());
    m.add_stacked("d".to_string(), "f".to_string(), 8, Color::white());
    let frame = m.draw();
    let pos: Vec<(i64, i64)> = frame.iter().map(|d| (d.x, d.y)).collect();
    // (20 + 32) * 1, (40 + 32) * 2, (8 + 32) * 3 below the first entry
    assert_eq!(pos, vec![(16, 10), (16, 62), (16, 154), (16, 130)]);
}

#[test]
fn first_stacked_entry_is_at_origin() {
    let m = Menu::new();
    assert_eq!(m.stacked_position(), Some(Position::new(0, 0)));
    let m = three_entries();
    let ys: Vec<i64> = m.draw().iter().map(|d| d.y).collect();
    assert_eq!(ys, vec![0, 64, 128]);
}

#[test]
fn stacked_position_out_of_range() {
    let mut m = Menu::new();
    m.add_text("a".to_string(), "f".to_string(), 20, Position::new(0, i32::MAX - 10), Color::white());
    assert_eq!(m.stacked_position(), None);
    let mut m = Menu::new();
    m.add_text("a".to_string(), "f".to_string(), 20, Position::new(0, i32::MAX - 52), Color::white());
    assert_eq!(m.stacked_position(), Some(Position::new(0, i32::MAX)));
}

#[test]
fn style_underlined_only_at_cursor() {
    let mut m = three_entries();
    for s in 0..3usize {
        let frame = m.draw();
        for (i, d) in frame.iter().enumerate() {
            let want = if i == s { TextStyle::Underlined } else { TextStyle::Regular };
            assert_eq!(d.style, want);
        }
        m.event(NavEvent::Down);
    }
}

#[test]
fn draw_adds_base_position() {
    let mut m = Menu::at(Position::new(100, -20));
    let red = Color::rgba(255, 0, 0, 128);
    m.add_text("a".to_string(), "font.ttf".to_string(), 12, Position::new(5, 7), red);
    let frame = m.draw();
    assert_eq!((frame[0].x, frame[0].y), (105, -13));
    assert_eq!(frame[0].color, red);
    assert_eq!(frame[0].caption, "a");
}

#[test]
fn menu_text_defaults_and_getters() {
    let t = MenuText::new();
    assert_eq!(t.get_caption(), "Test.");
    assert_eq!(t.get_font(), "RedHatMono.ttf");
    assert_eq!(*t.get_size(), 30);
    assert_eq!(*t.get_position(), Position::new(0, 0));
    assert_eq!(*t.get_text_color(), Color::rgba(255, 255, 255, 255));

    let t = MenuText::with_params("Go".to_string(), "g.ttf".to_string(), 14, Position::new(3, 4), Color::rgba(1, 2, 3, 4));
    let d = t.draw(Position::new(10, 10), true);
    assert_eq!((d.x, d.y, d.size), (13, 14, 14));
    assert_eq!(d.style, TextStyle::Underlined);
    assert_eq!(t.draw(Position::new(0, 0), false).style, TextStyle::Regular);
}
