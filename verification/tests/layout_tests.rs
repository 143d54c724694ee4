use termdash::layout::{center, centered_rect, death_banner_area, main_menu_layout, CameraSize, Rect};
use termdash::layout::{banner_band, death_banner_rules, main_menu_rules, menu_parts, Constraint};

fn rect(x: u16, y: u16, width: u16, height: u16) -> Rect {
    Rect { x, y, width, height }
}

#[test]
fn center_in_larger_area() {
    assert_eq!(center(42, 9, rect(0, 0, 100, 30)), rect(29, 10, 42, 9));
    assert_eq!(center(42, 9, rect(5, 2, 43, 10)), rect(5, 2, 42, 9));
}

#[test]
fn center_shrinks_to_area() {
    assert_eq!(center(80, 40, rect(3, 4, 20, 10)), rect(3, 4, 20, 10));
    assert_eq!(centered_rect(80, 5, rect(0, 0, 20, 10)), rect(0, 2, 20, 5));
}

#[test]
fn camera_fits_terminal() {
    let mut size = CameraSize { autoresize: true, width: 1, height: 1 };
    size.fit_to(80, 24);
    assert_eq!(size, CameraSize { autoresize: false, width: 160, height: 96 });
    size.fit_to(0, 0);
    assert_eq!(size, CameraSize { autoresize: false, width: 1, height: 1 });
}

#[test]
fn main_menu_parts_stack() {
    let layout = main_menu_layout(rect(0, 0, 100, 40));
    assert_eq!(layout.header, rect(12, 1, 76, 6));
    assert_eq!(layout.list, rect(12, 7, 76, 10));
    assert_eq!(layout.details, rect(12, 17, 76, 5));
    assert_eq!(layout.footer, rect(12, 22, 76, 3));
}

#[test]
fn death_banner_in_middle() {
    assert_eq!(death_banner_area(rect(0, 0, 50, 20)), rect(0, 6, 50, 8));
}

#[test]
fn short_screen_keeps_parts_inside() {
    let area = rect(3, 2, 90, 12);
    let layout = main_menu_layout(area);
    for part in [layout.header, layout.list, layout.details, layout.footer] {
        assert_eq!(part.x, 10);
        assert_eq!(part.width, 76);
        assert!(part.y >= 3);
        assert!(part.y + part.height <= 3 + 10);
    }
    let band = death_banner_area(rect(0, 0, 40, 5));
    assert_eq!((band.x, band.width), (0, 40));
    assert!(band.y + band.height <= 5);
}

#[test]
fn rules_and_parts() {
    assert_eq!(main_menu_rules(), [Constraint::Length(6), Constraint::Length(10), Constraint::Length(5), Constraint::Length(3)]);
    assert_eq!(death_banner_rules(), [Constraint::Fill(1), Constraint::Length(8), Constraint::Fill(1)]);
    let rows = vec![rect(0, 0, 5, 1), rect(0, 1, 5, 2), rect(0, 3, 5, 3), rect(0, 6, 5, 4)];
    let layout = menu_parts(&rows);
    assert_eq!((layout.header, layout.list, layout.details, layout.footer), (rows[0], rows[1], rows[2], rows[3]));
    assert_eq!(banner_band(&vec![rect(0, 0, 5, 1), rect(0, 1, 5, 8), rect(0, 9, 5, 1)]), rect(0, 1, 5, 8));
}

#[test]
fn death_banner_on_odd_and_small_screens() {
    let band = death_banner_area(rect(2, 3, 30, 21));
    assert_eq!((band.x, band.width, band.height), (2, 30, 8));
    let above = band.y - 3;
    let below = 3 + 21 - (band.y + 8);
    assert!(above + below == 13 && above.abs_diff(below) <= 1);
    let exact = death_banner_area(rect(0, 0, 10, 8));
    assert_eq!(exact, rect(0, 0, 10, 8));
}
