use termdash::banner::{banner_width, percent_banner, title_lines};

#[test]
fn banner_for_single_digit() {
    let rows = percent_banner(7);
    assert_eq!(rows.len(), 5);
    assert_eq!(rows[0], "███ █   █");
    assert_eq!(rows[4], "  █ █   █");
}

#[test]
fn banner_for_hundred() {
    let rows = percent_banner(100);
    assert_eq!(rows[0], " ██ ███ ███ █   █");
    assert_eq!(rows[4], " ███ ███ ███ █   █");
    assert_eq!(banner_width(&rows), 18);
}

#[test]
fn banner_width_of_nothing() {
    assert_eq!(banner_width(&vec![]), 0);
}

#[test]
fn narrow_title_is_plain() {
    assert_eq!(title_lines(20), vec!["Term Dash".to_string()]);
}

#[test]
fn wide_title_uses_large_font() {
    let lines = title_lines(80);
    assert!(lines.len() > 1);
    assert!(lines.iter().all(|line| !line.ends_with(' ')));
}
