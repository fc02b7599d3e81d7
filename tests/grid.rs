use tetrii::grid::{empty_row, to_binary, to_hex, Grid};

const EMPTY10: u32 = 0xFFFF_F003;
const FULL: u32 = 0xFFFF_FFFF;

fn grid_with(changes: &[(usize, u32)]) -> Grid {
    let mut g = Grid::new(10, 20);
    let mut rows = g.rows().clone();
    for (row, word) in changes {
        rows[row + 2] = *word;
    }
    assert!(g.load(&rows));
    g
}

#[test]
fn new_grid_layout() {
    let g = Grid::new(10, 20);
    assert_eq!(g.width(), 10);
    assert_eq!(g.height(), 20);
    let rows = g.rows();
    assert_eq!(rows.len(), 24);
    for r in &rows[..22] {
        assert_eq!(*r, EMPTY10);
    }
    assert_eq!(rows[22], FULL);
    assert_eq!(rows[23], FULL);
    assert_eq!(empty_row(10), EMPTY10);
    assert_eq!(empty_row(28), 0xC000_0003);
    assert_eq!(empty_row(8), 0xFFFF_FC03);
}

#[test]
fn can_place_checks_cells_walls_and_bounds() {
    let g = grid_with(&[(10, EMPTY10 | (1 << 7))]);
    // a single cell at box (0, 0)
    assert!(g.can_place(0x0001, 0, 0));
    assert!(g.can_place(0x0001, 9, 19));
    assert!(!g.can_place(0x0001, -1, 0));
    assert!(!g.can_place(0x0001, 10, 0));
    assert!(!g.can_place(0x0001, 0, 20));
    // the two hidden rows above the board are free, nothing above them is
    assert!(g.can_place(0x0001, 0, -2));
    assert!(!g.can_place(0x0001, 0, -3));
    // the settled cell at column 5, row 10
    assert!(!g.can_place(0x0001, 5, 10));
    assert!(g.can_place(0x0001, 4, 10));
    // a mask only blocks where it has cells
    assert!(g.can_place(0x0008, -3, 0));
    assert!(!g.can_place(0x0004, -3, 0));
    assert!(g.can_place(0x0000, -100, 1000));
    assert!(!g.can_place(0x0100, 0, 19));
    // far outside the bitmap
    assert!(!g.can_place(0x0001, i32::MAX, 0));
    assert!(!g.can_place(0x0001, 0, i32::MIN));
    assert!(!g.can_place(0x8000, 40, 0));
}

#[test]
fn merge_sets_exactly_the_mask_cells() {
    let mut g = Grid::new(10, 20);
    assert!(g.can_place(0x0270, 3, 17));
    g.merge(0x0270, 3, 17);
    let mut set = Vec::new();
    for y in 0..20 {
        for x in 0..10 {
            if g.occupied(x, y) {
                set.push((x, y));
            }
        }
    }
    assert_eq!(set, vec![(3, 18), (4, 18), (5, 18), (4, 19)]);
    // a box hanging over the left wall
    let mut h = Grid::new(10, 20);
    assert!(h.can_place(0x2222, -1, 5));
    h.merge(0x2222, -1, 5);
    assert_eq!(h.rows()[7], EMPTY10 | (1 << 2));
    assert_eq!(h.rows()[10], EMPTY10 | (1 << 2));
    assert_eq!(h.rows()[11], EMPTY10);
}

#[test]
fn clearing_two_full_rows() {
    let a = EMPTY10 | (1 << 2);
    let b = EMPTY10 | (1 << 3);
    let c = EMPTY10 | (1 << 4);
    let mut g = grid_with(&[(3, a), (5, FULL), (7, b), (9, FULL), (12, c)]);
    let before = g.rows().clone();
    assert_eq!(g.scan_and_clear_full_rows(), 2);
    let after = g.rows();
    assert_eq!(after.len(), before.len());
    assert_eq!(after[0], EMPTY10);
    assert_eq!(after[1], EMPTY10);
    // rows above the upper full row move down two
    for i in 0..7 {
        assert_eq!(after[i + 2], before[i]);
    }
    // rows between the full rows move down one
    for i in 8..11 {
        assert_eq!(after[i + 1], before[i]);
    }
    // rows below stay
    for i in 12..24 {
        assert_eq!(after[i], before[i]);
    }
    assert!(g.occupied(0, 5));
    assert!(g.occupied(1, 8));
    assert!(g.occupied(2, 12));
    assert_eq!(g.scan_and_clear_full_rows(), 0);
}

#[test]
fn clearing_ignores_floor_and_partial_rows() {
    let mut g = grid_with(&[(19, FULL & !(1 << 11)), (18, FULL)]);
    assert_eq!(g.scan_and_clear_full_rows(), 1);
    assert_eq!(g.rows()[21], FULL & !(1 << 11));
    assert_eq!(g.rows()[20], EMPTY10);
    assert_eq!(g.rows()[22], FULL);
    let mut all = Grid::new(8, 10);
    let mut rows = all.rows().clone();
    for r in rows.iter_mut().take(12).skip(2) {
        *r = FULL;
    }
    assert!(all.load(&rows));
    assert_eq!(all.scan_and_clear_full_rows(), 10);
    assert_eq!(all.rows(), Grid::new(8, 10).rows());
}

#[test]
fn binary_and_hex_text() {
    assert_eq!(to_binary(0), "0".repeat(32));
    assert_eq!(to_binary(0xFFFF_F003), "11111111111111111111000000000011");
    assert_eq!(to_binary(0x8000_0001), format!("1{}1", "0".repeat(30)));
    assert_eq!(to_hex(0xFFFF_F003), "0xFFFFF003");
    assert_eq!(to_hex(0), "0x00000000");
    assert_eq!(to_hex(0x0123_ABCD), "0x0123ABCD");
}
