use termdash::camera::{add_pixel, braille_cell, braille_char, braille_dot, braille_picture, is_visible, BrailleCell};

#[test]
fn braille_dots_table() {
    assert_eq!(braille_dot(0, 0), 0x01);
    assert_eq!(braille_dot(0, 3), 0x40);
    assert_eq!(braille_dot(1, 2), 0x20);
    assert_eq!(braille_dot(1, 3), 0x80);
    assert_eq!(braille_dot(2, 0), 0);
}

#[test]
fn thick_pixel_lights_neighbours() {
    let mut mask = 0u8;
    add_pixel(&mut mask, 0, 0);
    assert_eq!(mask, 0x01 | 0x02 | 0x08);
    let mut mask = 0u8;
    add_pixel(&mut mask, 1, 3);
    assert_eq!(mask, 0x80 | 0x20 | 0x40);
}

#[test]
fn visibility_rules() {
    assert!(!is_visible([255, 255, 255, 0]));
    assert!(is_visible([40, 30, 30, 255]));
    assert!(!is_visible([30, 30, 30, 255]));
    assert!(is_visible([0, 0, 36, 255]));
    assert!(!is_visible([0, 0, 35, 255]));
}

#[test]
fn cell_averages_visible_pixels() {
    let blank = [0, 0, 0, 0];
    let mut pixels = [blank; 8];
    assert_eq!(braille_cell(&pixels), None);
    pixels[0] = [200, 100, 50, 255];
    pixels[7] = [100, 50, 250, 255];
    assert_eq!(
        braille_cell(&pixels),
        Some(BrailleCell { mask: 0x01 | 0x02 | 0x08 | 0x80 | 0x20 | 0x40, red: 150, green: 75, blue: 150 })
    );
}

#[test]
fn braille_characters() {
    assert_eq!(braille_char(0), '\u{2800}');
    assert_eq!(braille_char(0xFF), '\u{28FF}');
    assert_eq!(braille_char(0x0B), '⠋');
}

#[test]
fn picture_is_drawn_cell_by_cell() {
    // a picture 5 pixels wide and 4 high; two cells of 2 by 4 pixels, the
    // fifth column is not drawn
    let blank = [0u8, 0, 0, 0];
    let mut image = vec![blank; 5 * 4];
    image[0] = [200, 100, 50, 255]; // column 0, row 0: first cell, top left
    image[3 * 5 + 3] = [100, 50, 250, 255]; // column 3, row 3: second cell, bottom right
    image[4] = [255, 255, 255, 255]; // column 4 lies outside both cells
    let cells = braille_picture(&image, 5, 4, 2, 1).unwrap();
    assert_eq!(cells.len(), 2);
    assert_eq!(cells[0], Some(BrailleCell { mask: 0x01 | 0x02 | 0x08, red: 200, green: 100, blue: 50 }));
    assert_eq!(cells[1], Some(BrailleCell { mask: 0x80 | 0x20 | 0x40, red: 100, green: 50, blue: 250 }));
    assert_eq!(braille_picture(&image, 5, 4, 3, 1), None);
    assert_eq!(braille_picture(&image, 5, 4, 2, 2), None);
    assert_eq!(braille_picture(&vec![blank; 4 * 8], 4, 8, 2, 2).unwrap(), vec![None; 4]);
}
