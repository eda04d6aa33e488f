use std::collections::HashSet;

use matrix_rain::build_mask;
use matrix_rain::is_inside_symbol;
use matrix_rain::mask_member;
use matrix_rain::palette;
use matrix_rain::render_frame;
use matrix_rain::MARKER;
use matrix_rain::SYMBOL_ART;

fn sorted_coords(mut v: Vec<(i32, i32)>) -> Vec<(i32, i32)> {
    v.sort();
    v
}

#[test]
fn mask_trivial_two_line_art() {
    let m = build_mask(b"0 \n 0", b'0');
    assert_eq!(sorted_coords(m.coords.clone()), vec![(0, 0), (1, 1)]);
    assert_eq!(m.width, 2);
    assert_eq!(m.height, 2);
}

#[test]
fn mask_empty_art() {
    let m = build_mask(b"", b'0');
    assert!(m.coords.is_empty());
    assert_eq!(m.width, 0);
    assert_eq!(m.height, 0);
}

#[test]
fn mask_newline_handling() {
    // a lone newline is one empty line
    let m = build_mask(b"\n", b'0');
    assert!(m.coords.is_empty());
    assert_eq!(m.width, 0);
    assert_eq!(m.height, 1);

    // a trailing newline adds no extra line
    let m = build_mask(b"0\n", b'0');
    assert_eq!(m.coords, vec![(0, 0)]);
    assert_eq!(m.height, 1);

    // an empty line between newlines is kept
    let m = build_mask(b"0\n\n0", b'0');
    assert_eq!(sorted_coords(m.coords.clone()), vec![(0, 0), (0, 2)]);
    assert_eq!(m.height, 3);
}

#[test]
fn mask_construction_idempotent() {
    let m1 = build_mask(SYMBOL_ART.as_bytes(), MARKER);
    let m2 = build_mask(SYMBOL_ART.as_bytes(), MARKER);
    assert_eq!(sorted_coords(m1.coords.clone()), sorted_coords(m2.coords.clone()));
    assert_eq!(m1.width, m2.width);
    assert_eq!(m1.height, m2.height);
}

#[test]
fn mask_matches_line_by_line_scan() {
    // independent reference: std's line splitting and char positions
    let mut expected: HashSet<(i32, i32)> = HashSet::new();
    let mut height = 0;
    let mut width = 0;
    for (y, line) in SYMBOL_ART.lines().enumerate() {
        height = y + 1;
        width = width.max(line.len());
        for (x, ch) in line.chars().enumerate() {
            if ch == '0' {
                expected.insert((x as i32, y as i32));
            }
        }
    }
    let m = build_mask(SYMBOL_ART.as_bytes(), MARKER);
    let got: HashSet<(i32, i32)> = m.coords.iter().copied().collect();
    assert_eq!(got.len(), m.coords.len(), "coordinates must be unique");
    assert_eq!(got, expected);
    assert_eq!(m.width, width);
    assert_eq!(m.height, height);
}

#[test]
fn mask_member_agrees_with_coords() {
    let m = build_mask(b"0 \n 0", b'0');
    assert!(mask_member(&m, 0, 0));
    assert!(mask_member(&m, 1, 1));
    assert!(!mask_member(&m, 1, 0));
    assert!(!mask_member(&m, 0, 1));
    assert!(!mask_member(&m, -1, 0));
}

#[test]
fn overlap_test_symmetric_example() {
    // matrix 80 wide, symbol 10 wide: the box starts at column 35
    let (sw, sh, mw, mh) = (10, 6, 80, 24);
    let oy = mh / 2 - sh / 2; // 9
    assert!(is_inside_symbol(35, oy, sw, sh, mw, mh));
    assert!(is_inside_symbol(44, oy, sw, sh, mw, mh));
    assert!(!is_inside_symbol(45, oy, sw, sh, mw, mh));
    assert!(!is_inside_symbol(34, oy, sw, sh, mw, mh));
    // and vertically
    assert!(is_inside_symbol(35, oy + sh - 1, sw, sh, mw, mh));
    assert!(!is_inside_symbol(35, oy - 1, sw, sh, mw, mh));
    assert!(!is_inside_symbol(35, oy + sh, sw, sh, mw, mh));
}

#[test]
fn overlap_test_symbol_larger_than_matrix() {
    // offsets go negative without panicking; the box covers the matrix
    assert!(is_inside_symbol(0, 0, 100, 50, 10, 8));
    assert!(is_inside_symbol(9, 7, 100, 50, 10, 8));
}

#[test]
fn bounding_box_is_natural_size() {
    let m = build_mask(SYMBOL_ART.as_bytes(), MARKER);
    assert_eq!(m.bounding_box(), (23, 26));
    let m = build_mask(b"0 \n 0", b'0');
    assert_eq!(m.bounding_box(), (2, 2));
}

#[test]
fn mask_coords_lie_within_bounding_box() {
    let m = build_mask(SYMBOL_ART.as_bytes(), MARKER);
    let (w, h) = m.bounding_box();
    for &(x, y) in &m.coords {
        assert!(0 <= x && x < w);
        assert!(0 <= y && y < h);
    }
}

#[test]
fn palette_is_printable_nonspace() {
    let pal = palette();
    assert_eq!(pal.len(), 94);
    assert_eq!(pal[0], '!');
    assert_eq!(pal[93], '~');
    for (i, ch) in pal.iter().enumerate() {
        assert_eq!(*ch as u32, 33 + i as u32);
        assert!(*ch != ' ');
    }
}

#[test]
fn full_frame_forty_by_twenty() {
    let (width, height) = (40u16, 20u16);
    let mask = build_mask(SYMBOL_ART.as_bytes(), MARKER);
    let (sw, sh) = mask.bounding_box();
    assert_eq!((sw, sh), (23, 26));
    let ops = render_frame(width, height, sw, sh, &mask);

    // one draw operation per cell, row-major, doubled column stride
    assert_eq!(ops.len(), 800);
    for (i, op) in ops.iter().enumerate() {
        assert_eq!(op.row as usize, i / 40);
        assert_eq!(op.col as usize, (i % 40) * 2);
    }
    let cols: HashSet<u16> = ops.iter().map(|op| op.col).collect();
    let expected_cols: HashSet<u16> = (0..40u16).map(|c| c * 2).collect();
    assert_eq!(cols, expected_cols);
    assert!(ops.iter().all(|op| op.row < 20));

    // independent silhouette reference from the art itself
    let mut filled: HashSet<(i32, i32)> = HashSet::new();
    for (y, line) in SYMBOL_ART.lines().enumerate() {
        for (x, ch) in line.chars().enumerate() {
            if ch == '0' {
                filled.insert((x as i32, y as i32));
            }
        }
    }
    let offset_x = 40 / 2 - sw / 2; // 9
    let offset_y = 20 / 2 - sh / 2; // -3
    for (i, op) in ops.iter().enumerate() {
        let x = (i % 40) as i32;
        let y = (i / 40) as i32;
        let inside = x >= offset_x && x < offset_x + sw && y >= offset_y && y < offset_y + sh;
        let blank = inside && filled.contains(&(x - offset_x, y - offset_y));
        if blank {
            assert_eq!(op.ch, ' ');
        } else {
            let code = op.ch as u32;
            assert!((33..=126).contains(&code), "cell ({x},{y}) drew {:?}", op.ch);
        }
    }
}

#[test]
fn frame_with_no_silhouette_draws_only_palette_characters() {
    // an empty mask: every cell takes a palette character, never a space
    let mask = build_mask(b"", b'0');
    let ops = render_frame(12, 5, 6, 2, &mask);
    assert_eq!(ops.len(), 60);
    for op in &ops {
        let code = op.ch as u32;
        assert!((33..=126).contains(&code));
    }
}

#[test]
fn frame_at_maximum_width() {
    let mask = build_mask(b"", b'0');
    let ops = render_frame(32768, 1, 0, 0, &mask);
    assert_eq!(ops.len(), 32768);
    assert_eq!(ops[0].col, 0);
    assert_eq!(ops.last().unwrap().col, 65534);
    assert!(ops.iter().all(|op| op.row == 0));
}
