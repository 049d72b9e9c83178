//! The screen-buffer model and the differential renderer.
//!
//! The buffer mirrors what is currently visible on the device. Each tick the
//! driver builds a fresh full-screen frame and diffs it against the buffer;
//! only the contiguous single-row runs of cells that changed are re-sent,
//! because the serial link is too slow to repaint the whole screen.

use vstd::prelude::*;

verus! {

/// Rows on the device.
pub const SCREEN_ROWS: usize = 4;

/// Columns on the device.
pub const SCREEN_COLS: usize = 20;

/// The ASCII space byte, the content of a blank cell.
pub const SPACE: u8 = 0x20;

/// A well-formed frame: exactly `SCREEN_ROWS` rows of `SCREEN_COLS` bytes.
pub open spec fn frame_wf(f: Seq<Seq<u8>>) -> bool {
    f.len() == SCREEN_ROWS && (forall|r: int|
        0 <= r < f.len() ==> (#[trigger] f[r]).len() == SCREEN_COLS)
}

/// The all-spaces frame.
pub open spec fn blank_frame() -> Seq<Seq<u8>> {
    Seq::new(SCREEN_ROWS as nat, |r: int| Seq::new(SCREEN_COLS as nat, |c: int| SPACE))
}

/// The mathematical frame an executable frame stands for.
pub open spec fn frame_view(f: Vec<Vec<u8>>) -> Seq<Seq<u8>> {
    Seq::new(f@.len(), |r: int| f@[r]@)
}

/// One contiguous run of changed cells within a single row: columns
/// `x .. x + len` of row `row`, all 0-indexed.
#[derive(Copy, Clone, Debug, PartialEq, Eq, Structural)]
pub struct DiffGroup {
    pub x: usize,
    pub row: usize,
    pub len: usize,
}

impl DiffGroup {
    /// Whether this group covers the cell at row `r`, column `c`.
    pub open spec fn covers(self, r: int, c: int) -> bool {
        self.row == r && self.x <= c < self.x + self.len
    }

    /// A non-empty run that stays inside its row.
    pub open spec fn in_bounds(self) -> bool {
        self.row < SCREEN_ROWS && self.x + self.len <= SCREEN_COLS && self.len >= 1
    }
}

/// Whether some group in `gs` covers the cell at row `r`, column `c`.
pub open spec fn covered(gs: Seq<DiffGroup>, r: int, c: int) -> bool {
    exists|i: int| 0 <= i < gs.len() && (#[trigger] gs[i]).covers(r, c)
}

/// Group `a` ends strictly before group `b` begins in row-major scan order,
/// with at least one unchanged cell between them when they share a row.
pub open spec fn strictly_before(a: DiffGroup, b: DiffGroup) -> bool {
    a.row < b.row || (a.row == b.row && a.x + a.len < b.x)
}

/// What a diff of `from` against `to` guarantees of its groups: every group
/// is a non-empty single-row run inside the screen, the groups come in scan
/// order and never touch, and together they cover exactly the changed cells.
pub open spec fn diff_groups_ok(from: Seq<Seq<u8>>, to: Seq<Seq<u8>>, gs: Seq<DiffGroup>) -> bool {
    &&& forall|i: int| 0 <= i < gs.len() ==> (#[trigger] gs[i]).in_bounds()
    &&& forall|i: int, j: int|
        0 <= i < j < gs.len() ==> strictly_before(#[trigger] gs[i], #[trigger] gs[j])
    &&& forall|r: int, c: int|
        0 <= r < SCREEN_ROWS && 0 <= c < SCREEN_COLS ==> ((#[trigger] covered(gs, r, c))
            <==> from[r][c] != to[r][c])
}

/// The frame that results from applying diff groups `gs` to a screen that
/// shows `from`: each covered cell takes its value from `to`, every other
/// cell keeps what it had.
pub open spec fn apply_groups(from: Seq<Seq<u8>>, to: Seq<Seq<u8>>, gs: Seq<DiffGroup>) -> Seq<
    Seq<u8>,
> {
    Seq::new(
        SCREEN_ROWS as nat,
        |r: int|
            Seq::new(
                SCREEN_COLS as nat,
                |c: int|
                    if covered(gs, r, c) {
                        to[r][c]
                    } else {
                        from[r][c]
                    },
            ),
    )
}

/// Sufficiency of the diff: writing the produced groups (with their bytes
/// taken from `to`) onto a screen showing `from` yields exactly `to`. Its
/// minimality is part of `diff_groups_ok` itself: a cell that is equal in
/// `from` and `to` is covered by no group, so it is never re-sent.
pub proof fn lemma_diff_apply_exact(from: Seq<Seq<u8>>, to: Seq<Seq<u8>>, gs: Seq<DiffGroup>)
    requires
        frame_wf(from),
        frame_wf(to),
        diff_groups_ok(from, to, gs),
    ensures
        apply_groups(from, to, gs) == to,
{
    let applied = apply_groups(from, to, gs);
    assert forall|r: int| 0 <= r < SCREEN_ROWS implies applied[r] =~= to[r] by {
        assert forall|c: int| 0 <= c < SCREEN_COLS implies applied[r][c] == to[r][c] by {
            if !covered(gs, r, c) {
                assert(from[r][c] == to[r][c]);
            }
        }
    }
    assert(applied =~~= to);
}

/// A singleton diff covers exactly its one group's cells.
proof fn lemma_covered_singleton(g: DiffGroup, r: int, c: int)
    ensures
        covered(seq![g], r, c) <==> g.covers(r, c),
{
    if g.covers(r, c) {
        assert(seq![g][0].covers(r, c));
    }
    if covered(seq![g], r, c) {
        let i = lemma_covered_witness(seq![g], r, c);
        assert(seq![g][i] == g);
    }
}

/// Runs are maximal to the right: just past a group's end the frames agree,
/// or the row ends.
proof fn lemma_run_right_maximal(from: Seq<Seq<u8>>, to: Seq<Seq<u8>>, gs: Seq<DiffGroup>, i: int)
    requires
        frame_wf(from),
        frame_wf(to),
        diff_groups_ok(from, to, gs),
        0 <= i < gs.len(),
    ensures
        gs[i].x + gs[i].len == SCREEN_COLS || from[gs[i].row as int][gs[i].x + gs[i].len]
            == to[gs[i].row as int][gs[i].x + gs[i].len],
{
    let g = gs[i];
    let r = g.row as int;
    let e = g.x + g.len;
    if e < SCREEN_COLS && from[r][e] != to[r][e] {
        assert(covered(gs, r, e));
        let j = lemma_covered_witness(gs, r, e);
        if j < i {
            assert(strictly_before(gs[j], gs[i]));
            assert(false);
        } else if j > i {
            assert(strictly_before(gs[i], gs[j]));
            assert(false);
        } else {
            assert(false);
        }
    }
}

/// The first group starts at the scan-least changed cell: every changed
/// cell lies on a later row, or on the same row no further left.
proof fn lemma_first_group_scan_min(
    from: Seq<Seq<u8>>,
    to: Seq<Seq<u8>>,
    gs: Seq<DiffGroup>,
    r: int,
    c: int,
)
    requires
        frame_wf(from),
        frame_wf(to),
        diff_groups_ok(from, to, gs),
        gs.len() > 0,
        0 <= r < SCREEN_ROWS,
        0 <= c < SCREEN_COLS,
        from[r][c] != to[r][c],
    ensures
        gs[0].row < r || (gs[0].row == r && gs[0].x <= c),
{
    assert(covered(gs, r, c));
    let i = lemma_covered_witness(gs, r, c);
    if i > 0 {
        assert(strictly_before(gs[0], gs[i]));
    }
}

/// Two correct diffs of the same pair of frames open with the same group.
proof fn lemma_first_group_equal(
    from: Seq<Seq<u8>>,
    to: Seq<Seq<u8>>,
    gs1: Seq<DiffGroup>,
    gs2: Seq<DiffGroup>,
)
    requires
        frame_wf(from),
        frame_wf(to),
        diff_groups_ok(from, to, gs1),
        diff_groups_ok(from, to, gs2),
        gs1.len() > 0,
        gs2.len() > 0,
    ensures
        gs1[0] == gs2[0],
{
    let g1 = gs1[0];
    let g2 = gs2[0];
    assert(g1.in_bounds());
    assert(g2.in_bounds());
    // Both start cells are changed (each group covers its own start).
    assert(g1.covers(g1.row as int, g1.x as int));
    assert(covered(gs1, g1.row as int, g1.x as int));
    assert(g2.covers(g2.row as int, g2.x as int));
    assert(covered(gs2, g2.row as int, g2.x as int));
    // Each start is scan-least among changed cells, so the starts coincide.
    lemma_first_group_scan_min(from, to, gs1, g2.row as int, g2.x as int);
    lemma_first_group_scan_min(from, to, gs2, g1.row as int, g1.x as int);
    assert(g1.row == g2.row && g1.x == g2.x);
    // Equal lengths: a longer run would cover the cell just past the
    // shorter one's end, which the shorter diff shows to be unchanged.
    if g1.x + g1.len < g2.x + g2.len {
        lemma_run_right_maximal(from, to, gs1, 0);
        let e = g1.x + g1.len;
        assert(g2.covers(g2.row as int, e as int));
        assert(covered(gs2, g2.row as int, e as int));
        assert(false);
    }
    if g2.x + g2.len < g1.x + g1.len {
        lemma_run_right_maximal(from, to, gs2, 0);
        let e = g2.x + g2.len;
        assert(g1.covers(g1.row as int, e as int));
        assert(covered(gs1, g1.row as int, e as int));
        assert(false);
    }
}

/// Applying a diff's first group to `from` leaves the remaining groups as a
/// correct diff of the result against `to`.
proof fn lemma_drop_first_ok(from: Seq<Seq<u8>>, to: Seq<Seq<u8>>, gs: Seq<DiffGroup>)
    requires
        frame_wf(from),
        frame_wf(to),
        diff_groups_ok(from, to, gs),
        gs.len() > 0,
    ensures
        frame_wf(apply_groups(from, to, seq![gs[0]])),
        diff_groups_ok(apply_groups(from, to, seq![gs[0]]), to, gs.drop_first()),
{
    let g = gs[0];
    let mid = apply_groups(from, to, seq![g]);
    let rest = gs.drop_first();
    assert forall|r: int, c: int|
        0 <= r < SCREEN_ROWS && 0 <= c < SCREEN_COLS implies #[trigger] mid[r][c] == (if g.covers(
        r,
        c,
    ) {
        to[r][c]
    } else {
        from[r][c]
    }) by {
        lemma_covered_singleton(g, r, c);
    }
    assert(frame_wf(mid));
    assert forall|i: int| 0 <= i < rest.len() implies (#[trigger] rest[i]).in_bounds() by {
        assert(rest[i] == gs[i + 1]);
    }
    assert forall|i: int, j: int| 0 <= i < j < rest.len() implies strictly_before(
        #[trigger] rest[i],
        #[trigger] rest[j],
    ) by {
        assert(rest[i] == gs[i + 1] && rest[j] == gs[j + 1]);
        assert(strictly_before(gs[i + 1], gs[j + 1]));
    }
    assert forall|r: int, c: int|
        0 <= r < SCREEN_ROWS && 0 <= c < SCREEN_COLS implies ((#[trigger] covered(rest, r, c))
        <==> mid[r][c] != to[r][c]) by {
        if covered(rest, r, c) {
            let i = lemma_covered_witness(rest, r, c);
            assert(rest[i] == gs[i + 1]);
            assert(gs[i + 1].covers(r, c));
            assert(covered(gs, r, c));
            assert(from[r][c] != to[r][c]);
            // The first group is strictly before this one, so it cannot
            // cover the same cell: the cell is still unchanged in `mid`.
            assert(strictly_before(g, gs[i + 1]));
            assert(!g.covers(r, c));
        }
        if mid[r][c] != to[r][c] {
            assert(!g.covers(r, c));
            assert(from[r][c] != to[r][c]);
            assert(covered(gs, r, c));
            let i = lemma_covered_witness(gs, r, c);
            assert(i != 0);
            assert(rest[i - 1] == gs[i]);
            assert(rest[i - 1].covers(r, c));
            assert(covered(rest, r, c));
        }
    }
}

/// Uniqueness of the diff: the guarantees of `diff_groups_ok` leave no
/// choice of groups at all, so the list `diff_and_apply` produces is the
/// one minimal diff of the two frames.
pub proof fn lemma_diff_groups_unique(
    from: Seq<Seq<u8>>,
    to: Seq<Seq<u8>>,
    gs1: Seq<DiffGroup>,
    gs2: Seq<DiffGroup>,
)
    requires
        frame_wf(from),
        frame_wf(to),
        diff_groups_ok(from, to, gs1),
        diff_groups_ok(from, to, gs2),
    ensures
        gs1 == gs2,
    decreases gs1.len(),
{
    if gs1.len() == 0 {
        if gs2.len() > 0 {
            let g = gs2[0];
            assert(g.in_bounds());
            assert(g.covers(g.row as int, g.x as int));
            assert(covered(gs2, g.row as int, g.x as int));
            assert(covered(gs1, g.row as int, g.x as int));
            assert(false);
        }
        assert(gs1 =~= gs2);
    } else {
        if gs2.len() == 0 {
            let g = gs1[0];
            assert(g.in_bounds());
            assert(g.covers(g.row as int, g.x as int));
            assert(covered(gs1, g.row as int, g.x as int));
            assert(covered(gs2, g.row as int, g.x as int));
            assert(false);
        }
        lemma_first_group_equal(from, to, gs1, gs2);
        lemma_drop_first_ok(from, to, gs1);
        lemma_drop_first_ok(from, to, gs2);
        let mid = apply_groups(from, to, seq![gs1[0]]);
        assert(apply_groups(from, to, seq![gs2[0]]) == mid);
        lemma_diff_groups_unique(mid, to, gs1.drop_first(), gs2.drop_first());
        assert forall|i: int| 0 <= i < gs1.len() implies gs1[i] == gs2[i] by {
            if i > 0 {
                assert(gs1[i] == gs1.drop_first()[i - 1]);
                assert(gs2[i] == gs2.drop_first()[i - 1]);
            }
        }
        assert(gs1 =~= gs2);
    }
}

/// Idempotence of the diff: a correct diff of a frame against itself has no
/// groups at all, so diffing an unchanged frame a second time in a row
/// yields an empty list and sends nothing.
pub proof fn lemma_diff_idempotent(f: Seq<Seq<u8>>, gs: Seq<DiffGroup>)
    requires
        frame_wf(f),
        diff_groups_ok(f, f, gs),
    ensures
        gs.len() == 0,
{
    if gs.len() > 0 {
        let g = gs[0];
        assert(g.in_bounds());
        assert(g.covers(g.row as int, g.x as int));
        assert(covered(gs, g.row as int, g.x as int));
        assert(false);
    }
}

/// A covered cell has a covering group.
proof fn lemma_covered_witness(gs: Seq<DiffGroup>, r: int, c: int) -> (i: int)
    requires
        covered(gs, r, c),
    ensures
        0 <= i < gs.len() && gs[i].covers(r, c) && gs[i].row == r,
{
    choose|i: int| 0 <= i < gs.len() && (#[trigger] gs[i]).covers(r, c)
}

/// Pushing a group onto a diff covers exactly the old cells plus the new
/// group's cells.
proof fn lemma_covered_push(gs: Seq<DiffGroup>, g: DiffGroup, r: int, c: int)
    ensures
        covered(gs.push(g), r, c) <==> (covered(gs, r, c) || g.covers(r, c)),
{
    if covered(gs, r, c) {
        let i = lemma_covered_witness(gs, r, c);
        assert(gs.push(g)[i].covers(r, c));
    }
    if g.covers(r, c) {
        assert(gs.push(g)[gs.len() as int].covers(r, c));
    }
    if covered(gs.push(g), r, c) {
        let i = lemma_covered_witness(gs.push(g), r, c);
        if i < gs.len() {
            assert(gs[i].covers(r, c));
        } else {
            assert(gs.push(g)[i] == g);
        }
    }
}

/// Concatenating two diffs covers exactly what either covers.
proof fn lemma_covered_add(g1: Seq<DiffGroup>, g2: Seq<DiffGroup>, r: int, c: int)
    ensures
        covered(g1 + g2, r, c) <==> (covered(g1, r, c) || covered(g2, r, c)),
{
    if covered(g1, r, c) {
        let i = lemma_covered_witness(g1, r, c);
        assert((g1 + g2)[i].covers(r, c));
    }
    if covered(g2, r, c) {
        let i = lemma_covered_witness(g2, r, c);
        assert((g1 + g2)[g1.len() + i].covers(r, c));
    }
    if covered(g1 + g2, r, c) {
        let i = lemma_covered_witness(g1 + g2, r, c);
        if i < g1.len() {
            assert(g1[i].covers(r, c));
        } else {
            assert(g2[i - g1.len()].covers(r, c));
        }
    }
}

/// Closing the open run `[s, c)` of row `r` keeps the scan invariants: the
/// groups stay ordered and in bounds, and the row is covered exactly on its
/// changed cells before column `c` and nowhere from `c` on.
proof fn lemma_row_group_closed(
    orow: Seq<u8>,
    nrow: Seq<u8>,
    pre: Seq<DiffGroup>,
    g: DiffGroup,
    r: int,
    s: int,
    c: int,
)
    requires
        0 <= r < SCREEN_ROWS,
        0 <= s < c <= SCREEN_COLS,
        orow.len() == SCREEN_COLS,
        nrow.len() == SCREEN_COLS,
        g.x == s && g.row == r && g.len == c - s,
        forall|i: int| 0 <= i < pre.len() ==> (#[trigger] pre[i]).in_bounds() && pre[i].row == r,
        forall|i: int, j: int|
            0 <= i < j < pre.len() ==> strictly_before(#[trigger] pre[i], #[trigger] pre[j]),
        forall|i: int| 0 <= i < pre.len() ==> (#[trigger] pre[i]).x + pre[i].len < s,
        forall|cc: int|
            0 <= cc < s ==> ((#[trigger] covered(pre, r, cc)) <==> orow[cc] != nrow[cc]),
        forall|cc: int| s <= cc < c ==> (#[trigger] orow[cc]) != nrow[cc],
        forall|cc: int| s <= cc < c ==> !(#[trigger] covered(pre, r, cc)),
        forall|cc: int| c <= cc < SCREEN_COLS ==> !(#[trigger] covered(pre, r, cc)),
    ensures
        forall|i: int|
            0 <= i < pre.push(g).len() ==> (#[trigger] pre.push(g)[i]).in_bounds() && pre.push(
                g,
            )[i].row == r,
        forall|i: int, j: int|
            0 <= i < j < pre.push(g).len() ==> strictly_before(
                #[trigger] pre.push(g)[i],
                #[trigger] pre.push(g)[j],
            ),
        forall|i: int| 0 <= i < pre.push(g).len() ==> (#[trigger] pre.push(g)[i]).x + pre.push(
            g,
        )[i].len <= c,
        forall|cc: int|
            0 <= cc < c ==> ((#[trigger] covered(pre.push(g), r, cc)) <==> orow[cc] != nrow[cc]),
        forall|cc: int| c <= cc < SCREEN_COLS ==> !(#[trigger] covered(pre.push(g), r, cc)),
{
    let gs = pre.push(g);
    assert forall|cc: int| true implies #[trigger] covered(gs, r, cc) == (covered(pre, r, cc)
        || g.covers(r, cc)) by {
        lemma_covered_push(pre, g, r, cc);
    }
    assert forall|i: int, j: int| 0 <= i < j < gs.len() implies strictly_before(
        #[trigger] gs[i],
        #[trigger] gs[j],
    ) by {
        if j == pre.len() {
            assert(gs[j] == g);
            assert(pre[i].x + pre[i].len < s);
        }
    }
    assert forall|cc: int| 0 <= cc < c implies ((#[trigger] covered(gs, r, cc)) <==> orow[cc]
        != nrow[cc]) by {
        lemma_covered_push(pre, g, r, cc);
        if s <= cc {
            assert(orow[cc] != nrow[cc]);
            assert(g.covers(r, cc));
        } else {
            assert(!g.covers(r, cc));
            assert(covered(gs, r, cc) == covered(pre, r, cc));
        }
    }
    assert forall|cc: int| c <= cc < SCREEN_COLS implies !(#[trigger] covered(gs, r, cc)) by {
        assert(!g.covers(r, cc));
        assert(!covered(pre, r, cc));
    }
}

/// Scan one row of the screen, left to right: build the row's replacement
/// and the contiguous runs of changed cells, in order.
fn scan_row(old_row: &Vec<u8>, src: &Vec<u8>, r: usize) -> (res: (Vec<u8>, Vec<DiffGroup>))
    requires
        old_row@.len() == SCREEN_COLS,
        src@.len() == SCREEN_COLS,
        r < SCREEN_ROWS,
    ensures
        res.0@ == src@,
        forall|i: int|
            0 <= i < res.1@.len() ==> (#[trigger] res.1@[i]).in_bounds() && res.1@[i].row == r,
        forall|i: int, j: int|
            0 <= i < j < res.1@.len() ==> strictly_before(#[trigger] res.1@[i], #[trigger] res.1@[j]),
        forall|cc: int|
            0 <= cc < SCREEN_COLS ==> ((#[trigger] covered(res.1@, r as int, cc)) <==> old_row@[cc]
                != src@[cc]),
{
    let mut out_groups: Vec<DiffGroup> = Vec::new();
    let mut new_row: Vec<u8> = Vec::new();
    let mut open_start: Option<usize> = None;
    let mut c: usize = 0;
    while c < SCREEN_COLS
        invariant
            c <= SCREEN_COLS,
            r < SCREEN_ROWS,
            old_row@.len() == SCREEN_COLS,
            src@.len() == SCREEN_COLS,
            new_row@ == src@.subrange(0, c as int),
            forall|i: int|
                0 <= i < out_groups@.len() ==> (#[trigger] out_groups@[i]).in_bounds()
                    && out_groups@[i].row == r,
            forall|i: int, j: int|
                0 <= i < j < out_groups@.len() ==> strictly_before(
                    #[trigger] out_groups@[i],
                    #[trigger] out_groups@[j],
                ),
            open_start matches Some(s) ==> s < c,
            open_start matches Some(s) ==> (forall|i: int|
                0 <= i < out_groups@.len() ==> (#[trigger] out_groups@[i]).x + out_groups@[i].len
                    < s),
            open_start matches Some(s) ==> (forall|cc: int|
                0 <= cc < s ==> ((#[trigger] covered(out_groups@, r as int, cc)) <==> old_row@[cc]
                    != src@[cc])),
            open_start matches Some(s) ==> (forall|cc: int|
                s <= cc < c ==> (#[trigger] old_row@[cc]) != src@[cc]),
            open_start matches Some(s) ==> (forall|cc: int|
                s <= cc < c ==> !(#[trigger] covered(out_groups@, r as int, cc))),
            open_start is None ==> (forall|i: int|
                0 <= i < out_groups@.len() ==> (#[trigger] out_groups@[i]).x + out_groups@[i].len
                    < c),
            open_start is None ==> (forall|cc: int|
                0 <= cc < c ==> ((#[trigger] covered(out_groups@, r as int, cc)) <==> old_row@[cc]
                    != src@[cc])),
            forall|cc: int|
                c <= cc < SCREEN_COLS ==> !(#[trigger] covered(out_groups@, r as int, cc)),
        decreases SCREEN_COLS - c,
    {
        let o = old_row[c];
        let n = src[c];
        new_row.push(n);
        proof {
            assert(new_row@ =~= src@.subrange(0, c + 1));
        }
        if o != n {
            if open_start.is_none() {
                open_start = Some(c);
            }
        } else {
            if let Some(s) = open_start {
                let g = DiffGroup { x: s, row: r, len: c - s };
                let ghost pre = out_groups@;
                out_groups.push(g);
                open_start = None;
                proof {
                    lemma_row_group_closed(old_row@, src@, pre, g, r as int, s as int, c as int);
                }
            }
        }
        c += 1;
    }
    if let Some(s) = open_start {
        let g = DiffGroup { x: s, row: r, len: SCREEN_COLS - s };
        let ghost pre = out_groups@;
        out_groups.push(g);
        proof {
            lemma_row_group_closed(old_row@, src@, pre, g, r as int, s as int, SCREEN_COLS as int);
        }
    }
    proof {
        assert(new_row@ =~= src@);
    }
    (new_row, out_groups)
}

/// The in-memory model of what the physical screen currently shows.
pub struct ScreenBuffer {
    rows: Vec<Vec<u8>>,
}

impl View for ScreenBuffer {
    type V = Seq<Seq<u8>>;

    closed spec fn view(&self) -> Seq<Seq<u8>> {
        frame_view(self.rows)
    }
}

impl ScreenBuffer {
    /// A well-formed buffer has the screen's exact dimensions.
    pub open spec fn wf(&self) -> bool {
        frame_wf(self@)
    }

    /// A fresh buffer, all spaces, mirroring a freshly cleared screen.
    pub fn new() -> (r: ScreenBuffer)
        ensures
            r@ == blank_frame(),
            r.wf(),
    {
        let mut rows: Vec<Vec<u8>> = Vec::new();
        let mut r: usize = 0;
        while r < SCREEN_ROWS
            invariant
                r <= SCREEN_ROWS,
                rows@.len() == r,
                forall|i: int| 0 <= i < r ==> (#[trigger] rows@[i])@ == blank_frame()[i],
            decreases SCREEN_ROWS - r,
        {
            let row: Vec<u8> = vec![SPACE; SCREEN_COLS];
            proof {
                assert(row@ =~= blank_frame()[r as int]);
            }
            rows.push(row);
            r += 1;
        }
        let buf = ScreenBuffer { rows };
        proof {
            assert(buf@ =~~= blank_frame());
        }
        buf
    }

    /// Forget everything: the buffer goes back to all spaces, so the next
    /// frame is diffed as if the screen had just been cleared.
    pub fn reset(&mut self)
        ensures
            final(self)@ == blank_frame(),
            final(self).wf(),
    {
        *self = ScreenBuffer::new();
    }

    /// A copy of the buffer's rows, for callers that want to look at what
    /// the driver believes is on the screen.
    pub fn snapshot(&self) -> (f: Vec<Vec<u8>>)
        requires
            self.wf(),
        ensures
            frame_view(f) == self@,
    {
        let mut f: Vec<Vec<u8>> = Vec::new();
        let mut r: usize = 0;
        while r < SCREEN_ROWS
            invariant
                r <= SCREEN_ROWS,
                self.wf(),
                self@.len() == SCREEN_ROWS,
                f@.len() == r,
                forall|i: int| 0 <= i < r ==> (#[trigger] f@[i])@ == self@[i],
            decreases SCREEN_ROWS - r,
        {
            proof {
                assert(self@[r as int] == self.rows@[r as int]@);
                assert(self@[r as int].len() == SCREEN_COLS);
            }
            let src: &Vec<u8> = &self.rows[r];
            let mut row: Vec<u8> = Vec::new();
            let mut c: usize = 0;
            while c < SCREEN_COLS
                invariant
                    c <= SCREEN_COLS,
                    src@.len() == SCREEN_COLS,
                    row@ == src@.subrange(0, c as int),
                decreases SCREEN_COLS - c,
            {
                row.push(src[c]);
                proof {
                    assert(row@ =~= src@.subrange(0, c + 1));
                }
                c += 1;
            }
            proof {
                assert(row@ =~= src@);
            }
            f.push(row);
            r += 1;
        }
        proof {
            assert(frame_view(f) =~~= self@);
        }
        f
    }

    /// Diff a new full-screen frame against the buffer and update the buffer
    /// to match it.
    ///
    /// The returned groups are the contiguous single-row runs of cells that
    /// changed, in scan order. Re-sending exactly those runs out of `frame`
    /// is what brings the physical screen from the buffer's old content to
    /// `frame`; unchanged cells are never re-sent, and an unchanged frame
    /// yields no groups at all.
    pub fn diff_and_apply(&mut self, frame: &Vec<Vec<u8>>) -> (groups: Vec<DiffGroup>)
        requires
            old(self).wf(),
            frame_wf(frame_view(*frame)),
        ensures
            final(self)@ == frame_view(*frame),
            final(self).wf(),
            diff_groups_ok(old(self)@, frame_view(*frame), groups@),
            old(self)@ == frame_view(*frame) ==> groups@.len() == 0,
    {
        let ghost a = old(self)@;
        let ghost b = frame_view(*frame);
        let mut groups: Vec<DiffGroup> = Vec::new();
        let mut r: usize = 0;
        while r < SCREEN_ROWS
            invariant
                r <= SCREEN_ROWS,
                a == old(self)@,
                b == frame_view(*frame),
                frame_wf(a),
                frame_wf(b),
                self@.len() == SCREEN_ROWS,
                self.wf(),
                forall|i: int| 0 <= i < r ==> #[trigger] self@[i] == b[i],
                forall|i: int| r <= i < SCREEN_ROWS ==> #[trigger] self@[i] == a[i],
                forall|i: int|
                    0 <= i < groups@.len() ==> (#[trigger] groups@[i]).in_bounds()
                        && groups@[i].row < r,
                forall|i: int, j: int|
                    0 <= i < j < groups@.len() ==> strictly_before(
                        #[trigger] groups@[i],
                        #[trigger] groups@[j],
                    ),
                forall|rr: int, cc: int|
                    0 <= rr < r && 0 <= cc < SCREEN_COLS ==> ((#[trigger] covered(groups@, rr, cc))
                        <==> a[rr][cc] != b[rr][cc]),
            decreases SCREEN_ROWS - r,
        {
            proof {
                assert(self@[r as int] == self.rows@[r as int]@);
                assert(self@[r as int] == a[r as int]);
                assert(b[r as int] == frame@[r as int]@);
                assert(a[r as int].len() == SCREEN_COLS);
                assert(b[r as int].len() == SCREEN_COLS);
            }
            let old_row: &Vec<u8> = &self.rows[r];
            let new_src: &Vec<u8> = &frame[r];
            let (new_row, added_vec) = scan_row(old_row, new_src, r);
            let mut added_vec = added_vec;
            let ghost pre = groups@;
            let ghost added = added_vec@;
            groups.append(&mut added_vec);
            proof {
                assert(groups@ == pre + added);
                assert forall|rr: int, cc: int| true implies #[trigger] covered(groups@, rr, cc)
                    == (covered(pre, rr, cc) || covered(added, rr, cc)) by {
                    lemma_covered_add(pre, added, rr, cc);
                    assert(covered(pre + added, rr, cc) == covered(groups@, rr, cc));
                }
                assert forall|i: int, j: int| 0 <= i < j < groups@.len() implies strictly_before(
                    #[trigger] groups@[i],
                    #[trigger] groups@[j],
                ) by {
                    if i < pre.len() && pre.len() <= j {
                        assert(groups@[i] == pre[i]);
                        assert(groups@[j] == added[j - pre.len()]);
                        assert(pre[i].row < r);
                        assert(added[j - pre.len()].row == r);
                    }
                }
                assert forall|rr: int, cc: int|
                    0 <= rr < r && 0 <= cc < SCREEN_COLS implies ((#[trigger] covered(
                    groups@,
                    rr,
                    cc,
                )) <==> a[rr][cc] != b[rr][cc]) by {
                    if covered(added, rr, cc) {
                        let i = lemma_covered_witness(added, rr, cc);
                        assert(false);
                    }
                }
                assert forall|cc: int| 0 <= cc < SCREEN_COLS implies ((#[trigger] covered(
                    groups@,
                    r as int,
                    cc,
                )) <==> a[r as int][cc] != b[r as int][cc]) by {
                    if covered(pre, r as int, cc) {
                        let i = lemma_covered_witness(pre, r as int, cc);
                        assert(false);
                    }
                    assert(covered(added, r as int, cc) <==> old_row@[cc] != new_src@[cc]);
                }
            }
            let ghost before = self@;
            self.rows.set(r, new_row);
            proof {
                assert forall|i: int| 0 <= i < SCREEN_ROWS implies #[trigger] self@[i] == (if i
                    == r as int {
                    b[r as int]
                } else {
                    before[i]
                }) by {
                    assert(self@[i] == self.rows@[i]@);
                }
            }
            r += 1;
        }
        proof {
            assert(self@ =~~= b);
            if a == b && groups@.len() > 0 {
                let g = groups@[0];
                assert(g.in_bounds());
                assert(g.covers(g.row as int, g.x as int));
                assert(covered(groups@, g.row as int, g.x as int));
                assert(false);
            }
        }
        groups
    }
}

} // verus!
