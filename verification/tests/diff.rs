//! The diff engine: correctness, minimality, row discipline, idempotence.

use goldfinger::screen::ScreenBuffer;
use goldfinger::screen::SCREEN_COLS;
use goldfinger::screen::SCREEN_ROWS;

fn blank() -> Vec<Vec<u8>> {
    vec![vec![b' '; SCREEN_COLS]; SCREEN_ROWS]
}

#[test]
fn test_diff_from_blank() {
    let mut buf = ScreenBuffer::new();
    let mut a = blank();
    a[1][3] = b'a';
    a[1][4] = b'b';
    a[1][5] = b'c';
    a[2][0] = b'x';
    let groups = buf.diff_and_apply(&a);
    assert_eq!(groups.len(), 2);
    assert_eq!((groups[0].x, groups[0].row, groups[0].len), (3, 1, 3));
    assert_eq!((groups[1].x, groups[1].row, groups[1].len), (0, 2, 1));
    assert_eq!(buf.snapshot(), a);
}

#[test]
fn test_diff_apply_yields_new_frame() {
    // Applying the groups of diff(A -> B) to a screen showing A gives B,
    // and no unchanged cell is covered by any group.
    let mut a = blank();
    a[0][0] = b'h';
    a[0][1] = b'i';
    a[3][10] = 0xFF;
    let mut b = blank();
    b[0][0] = b'h'; // unchanged
    b[0][1] = b'o'; // changed
    b[0][2] = b'!'; // changed
    b[2][5] = b'z'; // changed
    // a[3][10] goes back to blank: changed

    let mut buf = ScreenBuffer::new();
    buf.diff_and_apply(&a);
    let groups = buf.diff_and_apply(&b);

    // Simulate the device: positioned writes out of B applied onto A.
    let mut screen = a.clone();
    for g in &groups {
        for c in g.x..g.x + g.len {
            screen[g.row][c] = b[g.row][c];
        }
    }
    assert_eq!(screen, b);

    // Minimality: every covered cell really changed.
    for g in &groups {
        for c in g.x..g.x + g.len {
            assert_ne!(a[g.row][c], b[g.row][c]);
        }
    }
    // Completeness: every changed cell is covered by some group.
    for r in 0..SCREEN_ROWS {
        for c in 0..SCREEN_COLS {
            if a[r][c] != b[r][c] {
                assert!(groups.iter().any(|g| g.row == r && g.x <= c && c < g.x + g.len));
            }
        }
    }
}

#[test]
fn test_diff_groups_stay_in_row() {
    // A run that would wrap never crosses its row boundary.
    let mut b = blank();
    for c in 15..SCREEN_COLS {
        b[1][c] = b'#';
    }
    for c in 0..5 {
        b[2][c] = b'#';
    }
    let mut buf = ScreenBuffer::new();
    let groups = buf.diff_and_apply(&b);
    assert_eq!(groups.len(), 2);
    for g in &groups {
        assert!(g.len >= 1);
        assert!(g.row < SCREEN_ROWS);
        assert!(g.x + g.len <= SCREEN_COLS);
    }
    assert_eq!((groups[0].x, groups[0].row, groups[0].len), (15, 1, 5));
    assert_eq!((groups[1].x, groups[1].row, groups[1].len), (0, 2, 5));
}

#[test]
fn test_diff_idempotent() {
    // Diffing the same frame twice in a row yields nothing the second time,
    // and the buffer is untouched.
    let mut b = blank();
    b[0][7] = b'q';
    b[3][19] = b'!';
    let mut buf = ScreenBuffer::new();
    let first = buf.diff_and_apply(&b);
    assert!(!first.is_empty());
    let second = buf.diff_and_apply(&b);
    assert!(second.is_empty());
    assert_eq!(buf.snapshot(), b);
}

#[test]
fn test_diff_every_cell_changed() {
    // The largest possible diff: one full-width group per row.
    let b = vec![vec![0xFF; SCREEN_COLS]; SCREEN_ROWS];
    let mut buf = ScreenBuffer::new();
    let groups = buf.diff_and_apply(&b);
    assert_eq!(groups.len(), SCREEN_ROWS);
    for (r, g) in groups.iter().enumerate() {
        assert_eq!((g.x, g.row, g.len), (0, r, SCREEN_COLS));
    }
}

#[test]
fn test_reset_forgets_content() {
    let mut b = blank();
    b[1][1] = b'y';
    let mut buf = ScreenBuffer::new();
    buf.diff_and_apply(&b);
    buf.reset();
    assert_eq!(buf.snapshot(), blank());
    // After a reset the same frame is re-sent in full.
    let groups = buf.diff_and_apply(&b);
    assert_eq!(groups.len(), 1);
    assert_eq!((groups[0].x, groups[0].row, groups[0].len), (1, 1, 1));
}
