use vstd::prelude::*;

verus! {

/// Whether bit `c` of word `w` is set.
pub open spec fn bit(w: u32, c: u32) -> bool {
    (w >> c) & 1u32 == 1u32
}

/// Whether the mask has a cell at row `r`, column `c` of its 4x4 box.
/// Row `r` is nibble `r` counted from the least significant end, and
/// column `c` is bit `c` of that nibble.
pub open spec fn mask_bit(mask: u16, r: int, c: int) -> bool {
    0 <= r < 4 && 0 <= c < 4 && (mask >> ((4 * r + c) as u16)) & 1u16 == 1u16
}

/// The bits of a row word that hold the playable columns of a board
/// `width` cells wide: bit `col + 2` holds column `col`.
pub open spec fn interior_mask(width: u32) -> u32 {
    (((1u32 << width) - 1) as u32) << 2u32
}

/// A row with every playable cell empty and every border bit set.
pub open spec fn spec_empty_row(width: u32) -> u32 {
    !interior_mask(width)
}

/// Every bit outside the playable columns is set.
pub open spec fn border_ok(w: u32, width: u32) -> bool {
    w & !interior_mask(width) == !interior_mask(width)
}

/// Every playable cell of the row is set.
pub open spec fn row_full(w: u32, width: u32) -> bool {
    w & interior_mask(width) == interior_mask(width)
}

/// The abstract content of a grid.
///
/// `rows` holds one word per bitmap row. Bitmap row `y + 2` holds board
/// row `y`: two hidden rows lie above the board, which has `height` rows,
/// and two fully set rows below it. Bitmap column `x + 2` holds board
/// column `x`, with two set border columns on each side.
pub struct GridView {
    pub rows: Seq<u32>,
    pub width: u32,
    pub height: u32,
}

impl GridView {
    /// The board dimensions are supported, every row keeps its border and
    /// the two rows below the board are fully set.
    pub open spec fn wf(self) -> bool {
        &&& 8 <= self.width <= 28
        &&& 10 <= self.height <= 40
        &&& self.rows.len() == self.height + 4
        &&& forall|i: int| 0 <= i < self.rows.len() ==> border_ok(#[trigger] self.rows[i], self.width)
        &&& self.rows[self.rows.len() - 1] == 0xffff_ffffu32
        &&& self.rows[self.rows.len() - 2] == 0xffff_ffffu32
    }

    /// Whether bitmap cell (`row`, `col`) is unavailable: outside the
    /// bitmap, or set.
    pub open spec fn blocked(self, row: int, col: int) -> bool {
        !(0 <= row < self.rows.len() && 0 <= col < 32) || bit(self.rows[row], col as u32)
    }

    /// Every cell of `mask`, with its box's top-left corner on board cell
    /// (`x`, `y`), lands on a free cell.
    pub open spec fn fits(self, mask: u16, x: int, y: int) -> bool {
        forall|r: int, c: int| #[trigger] mask_bit(mask, r, c) ==> !self.blocked(y + 2 + r, x + 2 + c)
    }

    /// Whether board cell (`x`, `y`) holds a settled block.
    pub open spec fn occupied(self, x: int, y: int) -> bool {
        0 <= x < self.width && 0 <= y < self.height && bit(self.rows[y + 2], (x + 2) as u32)
    }

    /// Bitmap row `i` is a full playable row, to be cleared.
    pub open spec fn clears(self, i: int) -> bool {
        2 <= i < self.rows.len() - 2 && row_full(self.rows[i], self.width)
    }

    /// The first `k` rows without the full playable ones, in order.
    pub open spec fn kept(self, k: int) -> Seq<u32>
        decreases k,
    {
        if k <= 0 {
            Seq::empty()
        } else if self.clears(k - 1) {
            self.kept(k - 1)
        } else {
            self.kept(k - 1).push(self.rows[k - 1])
        }
    }

    /// How many of the first `k` rows are full playable rows.
    pub open spec fn full_count(self, k: int) -> nat
        decreases k,
    {
        if k <= 0 {
            0
        } else if self.clears(k - 1) {
            self.full_count(k - 1) + 1
        } else {
            self.full_count(k - 1)
        }
    }

    /// The number of full playable rows.
    pub open spec fn full_rows(self) -> nat {
        self.full_count(self.rows.len() as int)
    }

    /// The grid with its full playable rows removed and as many empty rows
    /// put on top, so that the rows above each removed row move down.
    pub open spec fn cleared(self) -> GridView {
        GridView {
            rows: Seq::new(self.full_rows(), |_i: int| spec_empty_row(self.width)) + self.kept(
                self.rows.len() as int,
            ),
            width: self.width,
            height: self.height,
        }
    }

    /// The grid with the cells of `mask` set, its box's top-left corner on
    /// board cell (`x`, `y`).
    pub open spec fn merged(self, mask: u16, x: int, y: int) -> GridView {
        GridView {
            rows: Seq::new(
                self.rows.len(),
                |i: int|
                    if 0 <= i - (y + 2) < 4 {
                        merge_word(self.rows[i], nibble(mask, i - (y + 2)), x + 2)
                    } else {
                        self.rows[i]
                    },
            ),
            width: self.width,
            height: self.height,
        }
    }
}

/// Row `r` of a mask's 4x4 box.
pub open spec fn nibble(mask: u16, r: int) -> u16 {
    (mask >> ((4 * r) as u16)) & 0xfu16
}

/// Word `w` with the bits of `nib` set from bit `s` on; bits that would
/// fall below bit 0 are dropped.
pub open spec fn merge_word(w: u32, nib: u16, s: int) -> u32 {
    if nib == 0 {
        w
    } else if s >= 0 {
        w | ((nib as u32) << (s as u32))
    } else {
        w | ((nib as u32) >> ((-s) as u32))
    }
}

/// Bit `c` of nibble `r` of a mask is the mask's cell (`r`, `c`).
pub proof fn lemma_nibble(mask: u16, r: u16, c: u16)
    requires
        r < 4,
        c < 4,
    ensures
        ((((mask >> (4 * r)) & 0xfu16) >> c) & 1u16 == 1u16) == mask_bit(mask, r as int, c as int),
{
    let k: u16 = (4 * r + c) as u16;
    assert(((((mask >> (4 * r)) & 0xfu16) >> c) & 1u16 == 1u16) == ((mask >> k) & 1u16 == 1u16))
        by (bit_vector)
        requires
            r < 4,
            c < 4,
            k == 4 * r + c,
    ;
}

/// A nibble with no bit set is zero.
pub proof fn lemma_nibble_zero(nib: u16)
    requires
        nib < 16,
    ensures
        (nib == 0) == (!((nib >> 0u16) & 1u16 == 1u16) && !((nib >> 1u16) & 1u16 == 1u16) && !((
        nib >> 2u16) & 1u16 == 1u16) && !((nib >> 3u16) & 1u16 == 1u16)),
{
    assert((nib == 0) == (!((nib >> 0u16) & 1u16 == 1u16) && !((nib >> 1u16) & 1u16 == 1u16)
        && !((nib >> 2u16) & 1u16 == 1u16) && !((nib >> 3u16) & 1u16 == 1u16))) by (bit_vector)
        requires
            nib < 16,
    ;
}

/// The 4-bit window of `w` at `s` meets `nib` exactly when some bit of
/// the nibble sits on a set bit of the word.
proof fn lemma_window(w: u32, s: u32, nib: u16)
    requires
        s <= 28,
        nib < 16,
    ensures
        ((((w >> s) & 0xfu32) as u16) & nib == 0) == (!((nib >> 0u16) & 1u16 == 1u16 && bit(w, s))
            && !((nib >> 1u16) & 1u16 == 1u16 && bit(w, (s + 1) as u32)) && !((nib >> 2u16) & 1u16
            == 1u16 && bit(w, (s + 2) as u32)) && !((nib >> 3u16) & 1u16 == 1u16 && bit(
            w,
            (s + 3) as u32,
        ))),
{
    assert(((((w >> s) & 0xfu32) as u16) & nib == 0) == (!((nib >> 0u16) & 1u16 == 1u16 && (w
        >> s) & 1u32 == 1u32) && !((nib >> 1u16) & 1u16 == 1u16 && (w >> ((s + 1) as u32)) & 1u32
        == 1u32) && !((nib >> 2u16) & 1u16 == 1u16 && (w >> ((s + 2) as u32)) & 1u32 == 1u32)
        && !((nib >> 3u16) & 1u16 == 1u16 && (w >> ((s + 3) as u32)) & 1u32 == 1u32)))
        by (bit_vector)
        requires
            s <= 28,
            nib < 16,
    ;
}

/// The empty row keeps its border, and has no playable cell set.
pub proof fn lemma_empty_row(width: u32)
    requires
        8 <= width <= 28,
    ensures
        border_ok(spec_empty_row(width), width),
        border_ok(0xffff_ffffu32, width),
        forall|c: u32| 2 <= c < width + 2 ==> !bit(#[trigger] spec_empty_row(width), c),
        forall|c: u32| c < 32 && !(2 <= c < width + 2) ==> bit(#[trigger] spec_empty_row(width), c),
{
    assert(!(((((1u32 << width) - 1) as u32) << 2u32)) & !(((((1u32 << width) - 1) as u32)
        << 2u32)) == !(((((1u32 << width) - 1) as u32) << 2u32))) by (bit_vector);
    assert(0xffff_ffffu32 & !(((((1u32 << width) - 1) as u32) << 2u32)) == !(((((1u32 << width)
        - 1) as u32) << 2u32))) by (bit_vector);
    assert forall|c: u32| 2 <= c < width + 2 implies !bit(#[trigger] spec_empty_row(width), c) by {
        assert(2 <= c < width + 2 && width <= 28 ==> !((!(((((1u32 << width) - 1) as u32)
            << 2u32)) >> c) & 1u32 == 1u32)) by (bit_vector);
    }
    assert forall|c: u32| c < 32 && !(2 <= c < width + 2) implies bit(
        #[trigger] spec_empty_row(width),
        c,
    ) by {
        assert(c < 32 && !(2 <= c < width + 2) && width <= 28 ==> (!(((((1u32 << width) - 1)
            as u32) << 2u32)) >> c) & 1u32 == 1u32) by (bit_vector);
    }
}

/// Setting bits of a word keeps its border.
proof fn lemma_or_keeps_border(w: u32, b: u32, width: u32)
    requires
        border_ok(w, width),
    ensures
        border_ok(w | b, width),
        w == 0xffff_ffffu32 ==> w | b == 0xffff_ffffu32,
{
    let k = !interior_mask(width);
    assert(w & k == k ==> (w | b) & k == k) by (bit_vector);
    assert(w == 0xffff_ffffu32 ==> w | b == 0xffff_ffffu32) by (bit_vector);
}

/// A bit of `w | (nib << s)` inside the shifted nibble.
proof fn lemma_or_left_in(w: u32, nib: u16, s: u32, d: u16)
    requires
        nib < 16,
        d < 4,
        s + d < 32,
    ensures
        bit(w | ((nib as u32) << s), (s + d) as u32) == (bit(w, (s + d) as u32) || (nib >> d) & 1u16
            == 1u16),
{
    let col: u32 = (s + d) as u32;
    assert(bit(w | ((nib as u32) << s), col) == (bit(w, col) || (nib >> d) & 1u16 == 1u16))
        by (bit_vector)
        requires
            nib < 16,
            d < 4,
            col == s + d,
            col < 32,
    ;
}

/// A bit of `w | (nib << s)` outside the shifted nibble.
proof fn lemma_or_left_out(w: u32, nib: u16, s: u32, col: u32)
    requires
        nib < 16,
        s < 32,
        col < 32,
        col < s || col >= s + 4,
    ensures
        bit(w | ((nib as u32) << s), col) == bit(w, col),
{
    assert(bit(w | ((nib as u32) << s), col) == bit(w, col)) by (bit_vector)
        requires
            nib < 16,
            s < 32,
            col < 32,
            col < s || col >= s + 4,
    ;
}

/// A bit of `w | (nib >> t)` inside the shifted nibble.
proof fn lemma_or_right_in(w: u32, nib: u16, t: u32, col: u32, d: u16)
    requires
        nib < 16,
        t <= 3,
        d < 4,
        d == col + t,
    ensures
        bit(w | ((nib as u32) >> t), col) == (bit(w, col) || (nib >> d) & 1u16 == 1u16),
{
    assert(bit(w | ((nib as u32) >> t), col) == (bit(w, col) || (nib >> d) & 1u16 == 1u16))
        by (bit_vector)
        requires
            nib < 16,
            t <= 3,
            d < 4,
            d == col + t,
    ;
}

/// A bit of `w | (nib >> t)` outside the shifted nibble.
proof fn lemma_or_right_out(w: u32, nib: u16, t: u32, col: u32)
    requires
        nib < 16,
        t <= 3,
        col < 32,
        col + t >= 4,
    ensures
        bit(w | ((nib as u32) >> t), col) == bit(w, col),
{
    assert(bit(w | ((nib as u32) >> t), col) == bit(w, col)) by (bit_vector)
        requires
            nib < 16,
            t <= 3,
            col < 32,
            col + t >= 4,
    ;
}

/// The nibble of a mask holds at most four bits.
proof fn lemma_nibble_bound(mask: u16, r: u16)
    requires
        r < 4,
    ensures
        nibble(mask, r as int) < 16,
        nibble(mask, r as int) == (mask >> (4 * r)) & 0xfu16,
{
    let k: u16 = (4 * r) as u16;
    assert((mask >> k) & 0xfu16 < 16) by (bit_vector);
}

/// If the nibble of row `r` is not empty, the mask has a cell in that row.
proof fn lemma_nibble_witness(mask: u16, r: u16) -> (c: int)
    requires
        r < 4,
        nibble(mask, r as int) != 0,
    ensures
        0 <= c < 4,
        mask_bit(mask, r as int, c),
{
    lemma_nibble_bound(mask, r);
    let nib = nibble(mask, r as int);
    lemma_nibble_zero(nib);
    lemma_nibble(mask, r, 0);
    lemma_nibble(mask, r, 1);
    lemma_nibble(mask, r, 2);
    lemma_nibble(mask, r, 3);
    if mask_bit(mask, r as int, 0) {
        0
    } else if mask_bit(mask, r as int, 1) {
        1
    } else if mask_bit(mask, r as int, 2) {
        2
    } else {
        3
    }
}

/// A non-empty mask that fits keeps its box near the bitmap.
pub proof fn lemma_fits_bounds(g: GridView, mask: u16, x: int, y: int)
    requires
        g.wf(),
        mask != 0,
        g.fits(mask, x, y),
    ensures
        -5 <= x <= 29,
        -5 <= y <= g.rows.len() - 3,
{
    assert(mask != 0 ==> (mask >> 0u16) & 0xfu16 != 0 || (mask >> 4u16) & 0xfu16 != 0 || (mask
        >> 8u16) & 0xfu16 != 0 || (mask >> 12u16) & 0xfu16 != 0) by (bit_vector);
    assert(nibble(mask, 0) == (mask >> 0u16) & 0xfu16);
    assert(nibble(mask, 1) == (mask >> 4u16) & 0xfu16);
    assert(nibble(mask, 2) == (mask >> 8u16) & 0xfu16);
    assert(nibble(mask, 3) == (mask >> 12u16) & 0xfu16);
    let r: u16 = if nibble(mask, 0) != 0 {
        0
    } else if nibble(mask, 1) != 0 {
        1
    } else if nibble(mask, 2) != 0 {
        2
    } else {
        3
    };
    let c = lemma_nibble_witness(mask, r);
    assert(!g.blocked(y + 2 + r, x + 2 + c));
}

/// Merging a mask that fits sets exactly the mask's cells, writes only
/// inside the bitmap, and keeps the grid well formed.
pub proof fn lemma_merge_cells(g: GridView, mask: u16, x: int, y: int)
    requires
        g.wf(),
        g.fits(mask, x, y),
    ensures
        g.merged(mask, x, y).wf(),
        g.merged(mask, x, y).rows.len() == g.rows.len(),
        forall|i: int, col: int|
            0 <= i < g.rows.len() && 0 <= col < 32 ==> #[trigger] bit(
                g.merged(mask, x, y).rows[i],
                col as u32,
            ) == (bit(g.rows[i], col as u32) || mask_bit(mask, i - (y + 2), col - (x + 2))),
        forall|r: int, c: int|
            #[trigger] mask_bit(mask, r, c) ==> 0 <= y + 2 + r < g.rows.len() && 0 <= x + 2 + c < 32
                && !bit(g.rows[y + 2 + r], (x + 2 + c) as u32),
{
    let m = g.merged(mask, x, y);
    let s = x + 2;
    assert forall|i: int, col: int| 0 <= i < g.rows.len() && 0 <= col < 32 implies #[trigger] bit(
        m.rows[i],
        col as u32,
    ) == (bit(g.rows[i], col as u32) || mask_bit(mask, i - (y + 2), col - (x + 2))) by {
        let r = i - (y + 2);
        if 0 <= r < 4 {
            let nib = nibble(mask, r);
            lemma_nibble_bound(mask, r as u16);
            if nib == 0 {
                if 0 <= col - s < 4 {
                    lemma_nibble(mask, r as u16, (col - s) as u16);
                    lemma_nibble_zero(nib);
                    assert(!mask_bit(mask, r, col - s));
                }
            } else {
                let c0 = lemma_nibble_witness(mask, r as u16);
                assert(!g.blocked(y + 2 + r, x + 2 + c0));
                if s >= 0 {
                    if s <= col < s + 4 {
                        let d = (col - s) as u16;
                        lemma_or_left_in(g.rows[i], nib, s as u32, d);
                        lemma_nibble(mask, r as u16, d);
                    } else {
                        lemma_or_left_out(g.rows[i], nib, s as u32, col as u32);
                    }
                } else {
                    let t = (-s) as u32;
                    if col + t < 4 {
                        let d = (col + t) as u16;
                        lemma_or_right_in(g.rows[i], nib, t, col as u32, d);
                        lemma_nibble(mask, r as u16, d);
                    } else {
                        lemma_or_right_out(g.rows[i], nib, t, col as u32);
                    }
                }
            }
        }
    }
    assert forall|i: int| 0 <= i < m.rows.len() implies border_ok(#[trigger] m.rows[i], m.width) by {
        let r = i - (y + 2);
        if 0 <= r < 4 {
            let nib = nibble(mask, r);
            if nib != 0 {
                let b: u32 = if s >= 0 {
                    (nib as u32) << (s as u32)
                } else {
                    (nib as u32) >> ((-s) as u32)
                };
                lemma_or_keeps_border(g.rows[i], b, g.width);
            }
        }
    }
    let n = g.rows.len();
    assert forall|j: int| n - 2 <= j < n implies #[trigger] m.rows[j] == 0xffff_ffffu32 by {
        let r = j - (y + 2);
        if 0 <= r < 4 {
            let nib = nibble(mask, r);
            if nib != 0 {
                let b: u32 = if s >= 0 {
                    (nib as u32) << (s as u32)
                } else {
                    (nib as u32) >> ((-s) as u32)
                };
                lemma_or_keeps_border(g.rows[j], b, g.width);
            }
        }
    }
    assert(m.rows[n - 1] == 0xffff_ffffu32);
    assert(m.rows[n - 2] == 0xffff_ffffu32);
}

/// The kept rows and the full rows among the first `k` add up to `k`,
/// and the kept rows keep their border.
proof fn lemma_kept(g: GridView, k: int)
    requires
        g.wf(),
        0 <= k <= g.rows.len(),
    ensures
        g.kept(k).len() + g.full_count(k) == k,
        forall|j: int| 0 <= j < g.kept(k).len() ==> border_ok(#[trigger] g.kept(k)[j], g.width),
    decreases k,
{
    if k > 0 {
        lemma_kept(g, k - 1);
        assert(border_ok(g.rows[k - 1], g.width));
    }
}

/// Clearing keeps the number of rows and the grid's well-formedness.
pub proof fn lemma_cleared_wf(g: GridView)
    requires
        g.wf(),
    ensures
        g.cleared().wf(),
        g.cleared().rows.len() == g.rows.len(),
        g.full_rows() <= g.height,
{
    let n = g.rows.len() as int;
    lemma_kept(g, n);
    lemma_empty_row(g.width);
    let c = g.cleared();
    assert(!g.clears(n - 1) && !g.clears(n - 2));
    assert(g.kept(n - 1) == g.kept(n - 2).push(g.rows[n - 2]));
    assert(g.kept(n) == g.kept(n - 2).push(g.rows[n - 2]).push(g.rows[n - 1]));
    assert forall|i: int| 0 <= i < c.rows.len() implies border_ok(#[trigger] c.rows[i], c.width) by {
        if i >= g.full_rows() {
            assert(c.rows[i] == g.kept(n)[i - g.full_rows()]);
        }
    }
    lemma_full_count_bound(g, n);
}

/// At most the playable rows among the first `k` are full.
proof fn lemma_full_count_bound(g: GridView, k: int)
    requires
        g.wf(),
        0 <= k <= g.rows.len(),
    ensures
        g.full_count(k) <= if k <= 2 { 0 } else if k <= g.rows.len() - 2 { k - 2 } else { g.height as int },
    decreases k,
{
    if k > 0 {
        lemma_full_count_bound(g, k - 1);
    }
}

/// Clearing a grid in which exactly the playable rows `r1` and `r2` (board
/// rows, `r1 < r2`) are full removes those two rows, moves the rows above
/// `r1` down by two and those between `r1` and `r2` down by one, puts two
/// empty rows on top, keeps the rows below `r2` and the number of rows, and
/// counts two cleared rows.
pub proof fn lemma_clear_two_rows(g: GridView, r1: int, r2: int)
    requires
        g.wf(),
        0 <= r1 < r2 < g.height,
        row_full(g.rows[r1 + 2], g.width),
        row_full(g.rows[r2 + 2], g.width),
        forall|r: int| 0 <= r < g.height && r != r1 && r != r2 ==> !row_full(#[trigger] g.rows[r + 2], g.width),
    ensures
        g.full_rows() == 2,
        g.cleared().rows.len() == g.rows.len(),
        g.cleared().rows == seq![spec_empty_row(g.width), spec_empty_row(g.width)] + g.rows.subrange(0, r1 + 2)
            + g.rows.subrange(r1 + 3, r2 + 2) + g.rows.subrange(r2 + 3, g.rows.len() as int),
        forall|i: int| 0 <= i < r1 + 2 ==> #[trigger] g.cleared().rows[i + 2] == g.rows[i],
        forall|i: int| r1 + 2 < i < r2 + 2 ==> #[trigger] g.cleared().rows[i + 1] == g.rows[i],
        forall|i: int| r2 + 2 < i < g.rows.len() ==> #[trigger] g.cleared().rows[i] == g.rows[i],
{
    let n = g.rows.len() as int;
    lemma_kept_two(g, r1 + 2, r2 + 2, n);
    lemma_cleared_wf(g);
    let c = g.cleared();
    let e = spec_empty_row(g.width);
    assert(c.rows =~= seq![e, e] + g.rows.subrange(0, r1 + 2) + g.rows.subrange(r1 + 3, r2 + 2)
        + g.rows.subrange(r2 + 3, n));
}

proof fn lemma_kept_two(g: GridView, b1: int, b2: int, k: int)
    requires
        g.wf(),
        2 <= b1 < b2 < g.rows.len() - 2,
        g.clears(b1),
        g.clears(b2),
        forall|r: int| 0 <= r < g.height && r + 2 != b1 && r + 2 != b2 ==> !row_full(#[trigger] g.rows[r + 2], g.width),
        0 <= k <= g.rows.len(),
    ensures
        k <= b1 ==> g.kept(k) == g.rows.subrange(0, k) && g.full_count(k) == 0,
        b1 < k <= b2 ==> g.kept(k) == g.rows.subrange(0, b1) + g.rows.subrange(b1 + 1, k)
            && g.full_count(k) == 1,
        b2 < k ==> g.kept(k) == g.rows.subrange(0, b1) + g.rows.subrange(b1 + 1, b2)
            + g.rows.subrange(b2 + 1, k) && g.full_count(k) == 2,
    decreases k,
{
    if k > 0 {
        lemma_kept_two(g, b1, b2, k - 1);
        let j = k - 1;
        if j != b1 && j != b2 && 2 <= j < g.rows.len() - 2 {
            assert(!row_full(g.rows[(j - 2) + 2], g.width));
        }
        if k <= b1 {
            assert(g.kept(k) =~= g.rows.subrange(0, k));
        } else if k <= b2 {
            assert(g.kept(k) =~= g.rows.subrange(0, b1) + g.rows.subrange(b1 + 1, k));
        } else {
            assert(g.kept(k) =~= g.rows.subrange(0, b1) + g.rows.subrange(b1 + 1, b2)
                + g.rows.subrange(b2 + 1, k));
        }
    } else {
        assert(g.kept(k) =~= g.rows.subrange(0, k));
    }
}

/// The 32 binary digits of `w`, most significant first.
pub open spec fn binary_digits(w: u32) -> Seq<char> {
    Seq::new(32, |i: int| if bit(w, (31 - i) as u32) { '1' } else { '0' })
}

/// The upper-case hexadecimal digits, by value.
pub open spec fn hex_chars() -> Seq<char> {
    seq!['0', '1', '2', '3', '4', '5', '6', '7', '8', '9', 'A', 'B', 'C', 'D', 'E', 'F']
}

/// The hexadecimal digit of value `d`, in upper case.
pub open spec fn hex_char(d: u32) -> char {
    hex_chars()[d as int]
}

/// `0x` followed by the eight hexadecimal digits of `w`, most significant
/// first.
pub open spec fn hex_text(w: u32) -> Seq<char> {
    seq!['0', 'x'] + Seq::new(8, |i: int| hex_char((w >> ((28 - 4 * i) as u32)) & 0xfu32))
}

/// `w` as 32 binary digits.
pub fn to_binary(w: u32) -> (r: String)
    ensures
        r@ == binary_digits(w),
{
    let mut s = String::new();
    let mut i: u32 = 0;
    proof {
        reveal_strlit("0");
        reveal_strlit("1");
    }
    while i < 32
        invariant
            i <= 32,
            s@ == binary_digits(w).subrange(0, i as int),
        decreases 32 - i,
    {
        proof {
            reveal_strlit("0");
            reveal_strlit("1");
        }
        assert(binary_digits(w)[i as int] == if (w >> (31 - i)) & 1 == 1 { '1' } else { '0' });
        if (w >> (31 - i)) & 1 == 1 {
            s.append("1");
        } else {
            s.append("0");
        }
        i = i + 1;
        assert(s@ =~= binary_digits(w).subrange(0, i as int));
    }
    assert(s@ =~= binary_digits(w));
    s
}

/// The upper-case hexadecimal digit of `d`.
fn hex_digit(d: u32) -> (r: &'static str)
    requires
        d < 16,
    ensures
        r@ == seq![hex_char(d)],
{
    if d == 0 {
        proof {
            reveal_strlit("0");
        }
        "0"
    } else if d == 1 {
        proof {
            reveal_strlit("1");
        }
        "1"
    } else if d == 2 {
        proof {
            reveal_strlit("2");
        }
        "2"
    } else if d == 3 {
        proof {
            reveal_strlit("3");
        }
        "3"
    } else if d == 4 {
        proof {
            reveal_strlit("4");
        }
        "4"
    } else if d == 5 {
        proof {
            reveal_strlit("5");
        }
        "5"
    } else if d == 6 {
        proof {
            reveal_strlit("6");
        }
        "6"
    } else if d == 7 {
        proof {
            reveal_strlit("7");
        }
        "7"
    } else if d == 8 {
        proof {
            reveal_strlit("8");
        }
        "8"
    } else if d == 9 {
        proof {
            reveal_strlit("9");
        }
        "9"
    } else if d == 10 {
        proof {
            reveal_strlit("A");
        }
        "A"
    } else if d == 11 {
        proof {
            reveal_strlit("B");
        }
        "B"
    } else if d == 12 {
        proof {
            reveal_strlit("C");
        }
        "C"
    } else if d == 13 {
        proof {
            reveal_strlit("D");
        }
        "D"
    } else if d == 14 {
        proof {
            reveal_strlit("E");
        }
        "E"
    } else {
        proof {
            reveal_strlit("F");
        }
        "F"
    }
}

/// `w` as `0x` and eight upper-case hexadecimal digits.
pub fn to_hex(w: u32) -> (r: String)
    ensures
        r@ == hex_text(w),
{
    let mut s = String::new();
    proof {
        reveal_strlit("0x");
    }
    s.append("0x");
    let mut i: u32 = 0;
    while i < 8
        invariant
            i <= 8,
            s@ == hex_text(w).subrange(0, 2 + i as int),
        decreases 8 - i,
    {
        let sh: u32 = 28 - 4 * i;
        let d = (w >> sh) & 0xf;
        assert(d < 16) by (bit_vector)
            requires
                d == (w >> sh) & 0xf,
        ;
        assert(hex_text(w)[2 + i as int] == hex_char(d));
        s.append(hex_digit(d));
        i = i + 1;
        assert(s@ =~= hex_text(w).subrange(0, 2 + i as int));
    }
    assert(s@ =~= hex_text(w));
    s
}

/// The settled cells of one board, as a padded bitmap of row words.
#[derive(Debug)]
pub struct Grid {
    rows: Vec<u32>,
    width: u32,
    height: u32,
}

impl View for Grid {
    type V = GridView;

    closed spec fn view(&self) -> GridView {
        GridView { rows: self.rows@, width: self.width, height: self.height }
    }
}

/// The row word with every playable cell of a board `width` cells wide
/// empty and every other bit set.
pub fn empty_row(width: u32) -> (r: u32)
    requires
        8 <= width <= 28,
    ensures
        r == spec_empty_row(width),
{
    assert(1u32 << width >= 1) by (bit_vector)
        requires
            width <= 28,
    ;
    !(((1u32 << width) - 1) << 2)
}

impl Grid {
    /// The content of an empty grid `width` cells wide and `height` tall.
    pub open spec fn new_view(width: u32, height: u32) -> GridView {
        GridView {
            rows: Seq::new((height + 2) as nat, |_i: int| spec_empty_row(width)).push(0xffff_ffffu32).push(
                0xffff_ffffu32,
            ),
            width,
            height,
        }
    }

    /// An empty grid for a board `width` cells wide and `height` tall.
    pub fn new(width: u32, height: u32) -> (g: Grid)
        requires
            8 <= width <= 28,
            10 <= height <= 40,
        ensures
            g@.wf(),
            g@.width == width,
            g@.height == height,
            g@ == Grid::new_view(width, height),
    {
        let empty = empty_row(width);
        let mut rows: Vec<u32> = Vec::new();
        let mut i: u32 = 0;
        while i < height + 2
            invariant
                i <= height + 2,
                height <= 40,
                empty == spec_empty_row(width),
                rows@ == Seq::new(i as nat, |_i: int| spec_empty_row(width)),
            decreases height + 2 - i,
        {
            rows.push(empty);
            i = i + 1;
            assert(rows@ =~= Seq::new(i as nat, |_i: int| spec_empty_row(width)));
        }
        rows.push(0xffff_ffffu32);
        rows.push(0xffff_ffffu32);
        proof {
            lemma_empty_row(width);
        }
        Grid { rows, width, height }
    }

    /// Board width in cells.
    pub fn width(&self) -> (r: u32)
        ensures
            r == self@.width,
    {
        self.width
    }

    /// Board height in cells.
    pub fn height(&self) -> (r: u32)
        ensures
            r == self@.height,
    {
        self.height
    }

    /// The row words, top hidden rows and bottom border rows included.
    pub fn rows(&self) -> (r: &Vec<u32>)
        ensures
            r@ == self@.rows,
    {
        &self.rows
    }

    /// Sets the cells of `mask`, with its box's top-left corner on board
    /// cell (`x`, `y`). The placement must have been checked.
    pub fn merge(&mut self, mask: u16, x: i32, y: i32)
        requires
            old(self)@.wf(),
            old(self)@.fits(mask, x as int, y as int),
        ensures
            final(self)@ == old(self)@.merged(mask, x as int, y as int),
            final(self)@.wf(),
    {
        proof {
            lemma_merge_cells(self@, mask, x as int, y as int);
        }
        let ghost g = self@;
        let s: i64 = x as i64 + 2;
        let mut r: u16 = 0;
        while r < 4
            invariant
                r <= 4,
                g.wf(),
                g.fits(mask, x as int, y as int),
                s == x + 2,
                self.width == g.width,
                self.height == g.height,
                self@.rows.len() == g.rows.len(),
                forall|i: int|
                    0 <= i < g.rows.len() ==> #[trigger] self@.rows[i] == if 0 <= i - (y + 2) < r {
                        merge_word(g.rows[i], nibble(mask, i - (y + 2)), x + 2)
                    } else {
                        g.rows[i]
                    },
            decreases 4 - r,
        {
            let nib: u16 = (mask >> (4 * r)) & 0xf;
            proof {
                lemma_nibble_bound(mask, r);
            }
            if nib != 0 {
                let ghost c0 = lemma_nibble_witness(mask, r);
                assert(!g.blocked(y + 2 + r, x + 2 + c0));
                let row: usize = (y as i64 + 2 + r as i64) as usize;
                let bits: u32 = if s >= 0 {
                    (nib as u32) << (s as u32)
                } else {
                    (nib as u32) >> ((-s) as u32)
                };
                let w = self.rows[row];
                self.rows.set(row, w | bits);
            }
            r = r + 1;
        }
        assert(self@.rows =~= g.merged(mask, x as int, y as int).rows);
    }

    /// Removes every full playable row, puts as many empty rows on top and
    /// returns how many were removed.
    pub fn scan_and_clear_full_rows(&mut self) -> (n: u32)
        requires
            old(self)@.wf(),
        ensures
            final(self)@ == old(self)@.cleared(),
            n == old(self)@.full_rows(),
            final(self)@.wf(),
    {
        let ghost g = self@;
        proof {
            lemma_cleared_wf(g);
        }
        let width = self.width;
        let full: u32 = !empty_row(width);
        assert(full == interior_mask(width)) by (bit_vector)
            requires
                full == !spec_empty_row(width),
        ;
        let len = self.rows.len();
        let mut kept: Vec<u32> = Vec::new();
        let mut count: u32 = 0;
        let mut i: usize = 0;
        while i < len
            invariant
                g.wf(),
                self@ == g,
                len == g.rows.len(),
                width == g.width,
                full == interior_mask(width),
                i <= len,
                kept@ == g.kept(i as int),
                count == g.full_count(i as int),
                count <= i,
            decreases len - i,
        {
            let w = self.rows[i];
            if 2 <= i && i < len - 2 && w & full == full {
                count = count + 1;
            } else {
                kept.push(w);
            }
            i = i + 1;
        }
        let empty = empty_row(width);
        let mut out: Vec<u32> = Vec::new();
        let mut j: u32 = 0;
        while j < count
            invariant
                j <= count,
                out@ == Seq::new(j as nat, |_i: int| spec_empty_row(width)),
                empty == spec_empty_row(width),
            decreases count - j,
        {
            out.push(empty);
            j = j + 1;
            assert(out@ =~= Seq::new(j as nat, |_i: int| spec_empty_row(width)));
        }
        out.append(&mut kept);
        self.rows = out;
        assert(self@.rows =~= g.cleared().rows);
        count
    }

    /// Replaces the rows by `rows` when they form a well-formed grid of the
    /// same size; otherwise leaves the grid as it is. Returns whether the
    /// rows were taken.
    pub fn load(&mut self, rows: &Vec<u32>) -> (r: bool)
        requires
            old(self)@.wf(),
        ensures
            r == (GridView { rows: rows@, width: old(self)@.width, height: old(self)@.height }).wf(),
            r ==> final(self)@ == (GridView { rows: rows@, width: old(self)@.width, height: old(self)@.height }),
            !r ==> final(self)@ == old(self)@,
            final(self)@.wf(),
    {
        let ghost v = GridView { rows: rows@, width: self.width, height: self.height };
        if rows.len() != self.rows.len() {
            return false;
        }
        let n = rows.len();
        let border = empty_row(self.width);
        if rows[n - 1] != 0xffff_ffffu32 || rows[n - 2] != 0xffff_ffffu32 {
            return false;
        }
        let mut i: usize = 0;
        while i < n
            invariant
                i <= n,
                n == rows@.len(),
                self@.wf(),
                n == self@.rows.len(),
                border == spec_empty_row(self.width),
                forall|j: int| 0 <= j < i ==> border_ok(#[trigger] rows@[j], self.width),
            decreases n - i,
        {
            if rows[i] & border != border {
                return false;
            }
            i = i + 1;
        }
        self.rows = rows.clone();
        assert(self@.rows =~= rows@);
        true
    }

    /// Whether board cell (`x`, `y`) holds a settled block.
    pub fn occupied(&self, x: u32, y: u32) -> (r: bool)
        requires
            self@.wf(),
        ensures
            r == self@.occupied(x as int, y as int),
    {
        if x >= self.width || y >= self.height {
            return false;
        }
        (self.rows[(y + 2) as usize] >> (x + 2)) & 1 == 1
    }

    /// Each row word as 32 binary digits, most significant first.
    pub fn dump_binary(&self) -> (r: Vec<String>)
        ensures
            r@.len() == self@.rows.len(),
            forall|i: int| 0 <= i < r@.len() ==> (#[trigger] r@[i])@ == binary_digits(self@.rows[i]),
    {
        let mut out: Vec<String> = Vec::new();
        let mut i: usize = 0;
        while i < self.rows.len()
            invariant
                i <= self@.rows.len(),
                out@.len() == i,
                forall|j: int| 0 <= j < i ==> (#[trigger] out@[j])@ == binary_digits(self@.rows[j]),
            decreases self@.rows.len() - i,
        {
            out.push(to_binary(self.rows[i]));
            i = i + 1;
        }
        out
    }

    /// Each row word as `0x` and eight upper-case hexadecimal digits.
    pub fn dump_hex(&self) -> (r: Vec<String>)
        ensures
            r@.len() == self@.rows.len(),
            forall|i: int| 0 <= i < r@.len() ==> (#[trigger] r@[i])@ == hex_text(self@.rows[i]),
    {
        let mut out: Vec<String> = Vec::new();
        let mut i: usize = 0;
        while i < self.rows.len()
            invariant
                i <= self@.rows.len(),
                out@.len() == i,
                forall|j: int| 0 <= j < i ==> (#[trigger] out@[j])@ == hex_text(self@.rows[j]),
            decreases self@.rows.len() - i,
        {
            out.push(to_hex(self.rows[i]));
            i = i + 1;
        }
        out
    }

    /// Whether `mask`, with its box's top-left corner on board cell
    /// (`x`, `y`), lands only on free cells. A cell outside the bitmap
    /// counts as taken.
    pub fn can_place(&self, mask: u16, x: i32, y: i32) -> (r: bool)
        requires
            self@.wf(),
        ensures
            r == self@.fits(mask, x as int, y as int),
    {
        let n = self.rows.len();
        let s: i64 = x as i64 + 2;
        let mut r: u16 = 0;
        while r < 4
            invariant
                r <= 4,
                self@.wf(),
                n == self@.rows.len(),
                s == x + 2,
                forall|rr: int, c: int|
                    0 <= rr < r && #[trigger] mask_bit(mask, rr, c) ==> !self@.blocked(
                        y + 2 + rr,
                        x + 2 + c,
                    ),
            decreases 4 - r,
        {
            let nib: u16 = (mask >> (4 * r)) & 0xf;
            assert(nib < 16) by (bit_vector)
                requires
                    nib == (mask >> (4 * r)) & 0xf,
            ;
            proof {
                lemma_nibble(mask, r, 0);
                lemma_nibble(mask, r, 1);
                lemma_nibble(mask, r, 2);
                lemma_nibble(mask, r, 3);
                lemma_nibble_zero(nib);
                assert(mask_bit(mask, r as int, 0) == ((nib >> 0u16) & 1u16 == 1u16));
                assert(mask_bit(mask, r as int, 1) == ((nib >> 1u16) & 1u16 == 1u16));
                assert(mask_bit(mask, r as int, 2) == ((nib >> 2u16) & 1u16 == 1u16));
                assert(mask_bit(mask, r as int, 3) == ((nib >> 3u16) & 1u16 == 1u16));
            }
            if nib != 0 {
                let row: i64 = y as i64 + 2 + r as i64;
                if row < 0 || row >= n as i64 {
                    proof {
                        if mask_bit(mask, r as int, 0) {
                            assert(self@.blocked(y + 2 + r, x + 2 + 0));
                        } else if mask_bit(mask, r as int, 1) {
                            assert(self@.blocked(y + 2 + r, x + 2 + 1));
                        } else if mask_bit(mask, r as int, 2) {
                            assert(self@.blocked(y + 2 + r, x + 2 + 2));
                        } else {
                            assert(mask_bit(mask, r as int, 3));
                            assert(self@.blocked(y + 2 + r, x + 2 + 3));
                        }
                    }
                    return false;
                }
                let w = self.rows[row as usize];
                if 0 <= s && s <= 28 {
                    let window = ((w >> (s as u32)) & 0xf) as u16;
                    proof {
                        lemma_window(w, s as u32, nib);
                    }
                    if window & nib != 0 {
                        proof {
                            if mask_bit(mask, r as int, 0) && bit(w, s as u32) {
                                assert(self@.blocked(y + 2 + r, x + 2 + 0));
                            } else if mask_bit(mask, r as int, 1) && bit(w, (s + 1) as u32) {
                                assert(self@.blocked(y + 2 + r, x + 2 + 1));
                            } else if mask_bit(mask, r as int, 2) && bit(w, (s + 2) as u32) {
                                assert(self@.blocked(y + 2 + r, x + 2 + 2));
                            } else {
                                assert(self@.blocked(y + 2 + r, x + 2 + 3));
                            }
                        }
                        return false;
                    }
                    assert forall|rr: int, c: int|
                        0 <= rr < r + 1 && #[trigger] mask_bit(mask, rr, c) implies !self@.blocked(
                        y + 2 + rr,
                        x + 2 + c,
                    ) by {
                        if rr == r {
                            assert(0 <= c < 4);
                            if c == 0 {
                            } else if c == 1 {
                            } else if c == 2 {
                            } else {
                            }
                        }
                    }
                } else {
                    let mut c: u16 = 0;
                    while c < 4
                        invariant
                            c <= 4,
                            self@.wf(),
                            n == self@.rows.len(),
                            0 <= row < n,
                            w == self@.rows[row as int],
                            row == y + 2 + r,
                            s == x + 2,
                            r < 4,
                            nib == (mask >> (4 * r)) & 0xf,
                            forall|rr: int, cc: int|
                                0 <= rr < r && #[trigger] mask_bit(mask, rr, cc)
                                    ==> !self@.blocked(y + 2 + rr, x + 2 + cc),
                            forall|cc: int|
                                0 <= cc < c && #[trigger] mask_bit(mask, r as int, cc)
                                    ==> !self@.blocked(y + 2 + r, x + 2 + cc),
                        decreases 4 - c,
                    {
                        proof {
                            lemma_nibble(mask, r, c);
                        }
                        if (nib >> c) & 1 == 1 {
                            let col: i64 = s + c as i64;
                            if col < 0 || col >= 32 || (w >> (col as u32)) & 1 == 1 {
                                assert(mask_bit(mask, r as int, c as int));
                                assert(self@.blocked(y + 2 + r, x + 2 + c));
                                return false;
                            }
                        }
                        c = c + 1;
                    }
                    assert forall|rr: int, cc: int|
                        0 <= rr < r + 1 && #[trigger] mask_bit(mask, rr, cc) implies !self@.blocked(
                        y + 2 + rr,
                        x + 2 + cc,
                    ) by {
                        if rr == r {
                            assert(0 <= cc < 4);
                        }
                    }
                }
            } else {
                assert forall|rr: int, c: int|
                    0 <= rr < r + 1 && #[trigger] mask_bit(mask, rr, c) implies !self@.blocked(
                    y + 2 + rr,
                    x + 2 + c,
                ) by {
                    if rr == r {
                        assert(0 <= c < 4);
                        if c == 0 {
                        } else if c == 1 {
                        } else if c == 2 {
                        } else {
                        }
                    }
                }
            }
            r = r + 1;
        }
        true
    }
}

} // verus!
