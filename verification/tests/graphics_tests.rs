use rust_gwbasic::graphics::Screen;
use rust_gwbasic::Error;

#[test]
fn test_screen_creation() {
    let screen = Screen::new(80, 25);
    assert_eq!(screen.get_size().1, 80);
    assert_eq!(screen.get_size().0, 25);
}

#[test]
fn test_cls() {
    let mut screen = Screen::new(80, 25);
    screen.cls();
    assert_eq!(screen.get_cursor().1, 0);
    assert_eq!(screen.get_cursor().0, 0);
}

#[test]
fn test_locate() {
    let mut screen = Screen::new(80, 25);
    screen.locate(10, 20).unwrap();
    assert_eq!(screen.get_cursor().0, 10);
    assert_eq!(screen.get_cursor().1, 20);
}

#[test]
fn locate_outside_is_refused() {
    let mut screen = Screen::new(80, 25);
    screen.locate(3, 4).unwrap();
    let err = screen.locate(25, 0).unwrap_err();
    assert_eq!(
        err,
        Error::RuntimeError("LOCATE position out of range: (25, 0)".to_string())
    );
    let err = screen.locate(0, 80).unwrap_err();
    assert_eq!(
        err.to_string(),
        "Runtime error: LOCATE position out of range: (0, 80)"
    );
    assert_eq!(screen.get_cursor(), (3, 4));
}

#[test]
fn default_screen_is_80_by_25() {
    let screen = Screen::default();
    assert_eq!(screen.get_size(), (25, 80));
    assert_eq!(screen.get_cursor(), (0, 0));
    assert_eq!(screen.cell(0, 0), Some(' '));
    assert_eq!(screen.cell(25, 0), None);
}

#[test]
fn pset_marks_inside_and_ignores_outside() {
    let mut screen = Screen::new(10, 5);
    screen.pset(3, 2, None).unwrap();
    assert_eq!(screen.cell(2, 3), Some('#'));
    assert_eq!(screen.cell(3, 2), Some(' '));
    screen.pset(-1, 0, Some(4)).unwrap();
    screen.pset(10, 0, None).unwrap();
    screen.pset(0, 5, None).unwrap();
    screen.pset(i32::MAX, i32::MIN, None).unwrap();
    let mut marked = 0;
    for r in 0..5 {
        for c in 0..10 {
            if screen.cell(r, c) == Some('#') {
                marked += 1;
            }
        }
    }
    assert_eq!(marked, 1);
}

#[test]
fn cls_blanks_the_cells_and_keeps_the_colours() {
    let mut screen = Screen::new(10, 5);
    screen.color(Some(2), None);
    screen.pset(1, 1, None).unwrap();
    screen.locate(2, 2).unwrap();
    screen.cls();
    assert_eq!(screen.cell(1, 1), Some(' '));
    assert_eq!(screen.get_cursor(), (0, 0));
    assert_eq!(screen.get_size(), (5, 10));
}

fn marked(screen: &Screen) -> Vec<(usize, usize)> {
    let (h, w) = screen.get_size();
    let mut out = Vec::new();
    for r in 0..h {
        for c in 0..w {
            if screen.cell(r, c) == Some('#') {
                out.push((c, r));
            }
        }
    }
    out
}

#[test]
fn line_draws_both_ends_and_a_diagonal() {
    let mut screen = Screen::new(8, 8);
    screen.line(0, 0, 3, 3, None).unwrap();
    assert_eq!(marked(&screen), vec![(0, 0), (1, 1), (2, 2), (3, 3)]);
}

#[test]
fn line_draws_a_shallow_slope() {
    let mut screen = Screen::new(8, 8);
    screen.line(5, 1, 0, 3, None).unwrap();
    assert_eq!(
        marked(&screen),
        vec![(4, 1), (5, 1), (2, 2), (3, 2), (0, 3), (1, 3)]
    );
}

#[test]
fn line_of_one_point() {
    let mut screen = Screen::new(4, 4);
    screen.line(2, 1, 2, 1, None).unwrap();
    assert_eq!(marked(&screen), vec![(2, 1)]);
}

#[test]
fn line_partly_outside_is_clipped() {
    let mut screen = Screen::new(4, 4);
    screen.line(-2, 1, 5, 1, None).unwrap();
    assert_eq!(marked(&screen), vec![(0, 1), (1, 1), (2, 1), (3, 1)]);
}

#[test]
fn circle_of_radius_two() {
    let mut screen = Screen::new(9, 9);
    screen.circle(4, 4, 2, None).unwrap();
    let got = marked(&screen);
    let want = vec![(4, 2), (3, 3), (5, 3), (2, 4), (6, 4), (3, 5), (5, 5), (4, 6)];
    assert_eq!(got, want);
}

#[test]
fn circle_of_negative_radius_draws_nothing() {
    let mut screen = Screen::new(9, 9);
    screen.circle(4, 4, -1, None).unwrap();
    assert!(marked(&screen).is_empty());
}

#[test]
fn circle_of_radius_zero_marks_the_centre() {
    let mut screen = Screen::new(9, 9);
    screen.circle(4, 4, 0, None).unwrap();
    assert_eq!(marked(&screen), vec![(4, 4)]);
}

#[test]
fn pset_at_the_edges_of_the_screen() {
    let mut screen = Screen::new(4, 3);
    screen.locate(1, 2).unwrap();
    screen.color(Some(5), Some(6));
    for (x, y) in [(4, 0), (0, 3), (4, 3), (-1, -1), (3, -1), (i32::MIN, 0), (0, i32::MAX)] {
        screen.pset(x, y, None).unwrap();
    }
    assert!(marked(&screen).is_empty());
    screen.pset(3, 2, None).unwrap();
    screen.pset(0, 0, None).unwrap();
    assert_eq!(marked(&screen), vec![(0, 0), (3, 2)]);
    assert_eq!(screen.get_cursor(), (1, 2));
    assert_eq!(screen.get_size(), (3, 4));
}
