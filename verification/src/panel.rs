//! The 34x9 image that goes to the display.

use vstd::prelude::*;
use crate::applet::rows;
use crate::slots::{slot_block, SlotTable, TableView};

verus! {

/// The image with every pixel at `value`.
pub open spec fn uniform_of(value: u8) -> Seq<Seq<u8>> {
    Seq::new(34, |r: int| Seq::new(9, |c: int| value))
}

/// The image with every pixel at `value`: 0 for a dark panel, 255 for full
/// brightness or full scale.
pub fn uniform(value: u8) -> (panel: [[u8; 9]; 34])
    ensures
        rows(panel) == uniform_of(value),
{
    let panel = [[value; 9]; 34];
    assert(rows(panel) =~~= uniform_of(value));
    panel
}

/// The image made of four blocks: the first row of block 0, then blocks 1,
/// 2 and 3 whole.
pub open spec fn assemble(blocks: Seq<Seq<Seq<u8>>>) -> Seq<Seq<u8>> {
    seq![blocks[0][0]] + blocks[1] + blocks[2] + blocks[3]
}

/// The image a table shows: row 0 is the bar of slot 0, rows 1 to 11 the
/// block of slot 1, rows 12 to 22 that of slot 2, rows 23 to 33 that of
/// slot 3. Empty slots are dark.
pub open spec fn panel_of(table: TableView) -> Seq<Seq<u8>> {
    assemble(Seq::new(4, |i: int| slot_block(table[i])))
}

/// The blocks of a snapshot as sequences.
pub open spec fn blocks_of(snapshot: [[[u8; 9]; 11]; 4]) -> Seq<Seq<Seq<u8>>> {
    Seq::new(4, |i: int| rows(snapshot[i]))
}

/// Lays four blocks out as one panel image.
pub fn compose_panel(snapshot: &[[[u8; 9]; 11]; 4]) -> (panel: [[u8; 9]; 34])
    ensures
        rows(panel) == assemble(blocks_of(*snapshot)),
{
    let mut panel: [[u8; 9]; 34] = [[0; 9]; 34];
    panel[0] = snapshot[0][0];
    for i in 1..4usize
        invariant
            panel[0] == snapshot[0][0],
            forall|b: int, r: int|
                1 <= b < i && 0 <= r < 11 ==> panel[11 * (b - 1) + r + 1] == snapshot[b][r],
    {
        for j in 0..11usize
            invariant
                1 <= i < 4,
                panel[0] == snapshot[0][0],
                forall|b: int, r: int|
                    1 <= b < i && 0 <= r < 11 ==> panel[11 * (b - 1) + r + 1] == snapshot[b][r],
                forall|r: int| 0 <= r < j ==> panel[11 * (i - 1) + r + 1] == snapshot[i as int][r],
        {
            panel[11 * (i - 1) + j + 1] = snapshot[i][j];
        }
    }
    proof {
        let want = assemble(blocks_of(*snapshot));
        assert(want.len() == 34);
        assert forall|k: int| 0 <= k < 34 implies rows(panel)[k] == want[k] by {
            if k >= 1 {
                let b = (k - 1) / 11 + 1;
                let r = (k - 1) % 11;
                assert(panel[11 * (b - 1) + r + 1] == snapshot[b][r]);
            }
        }
        assert(rows(panel) =~= want);
    }
    panel
}

/// The panel image of the table as it stands.
pub fn render(table: &SlotTable) -> (panel: [[u8; 9]; 34])
    ensures
        rows(panel) == panel_of(table@),
{
    let snapshot = table.snapshot();
    assert(blocks_of(snapshot) =~= Seq::new(4, |i: int| slot_block(table@[i])));
    compose_panel(&snapshot)
}

/// Brightness of one pixel in the sweep pattern of the display test.
pub open spec fn sweep_value(row: int, column: int) -> u8 {
    ((row % 16) as u8) ^ (column as u8)
}

/// The display test's image once its first `lit` pixels, counted row by
/// row, have been set; the others are dark.
pub open spec fn sweep_of(lit: int) -> Seq<Seq<u8>> {
    Seq::new(
        34,
        |r: int|
            Seq::new(
                9,
                |c: int|
                    if r * 9 + c < lit {
                        sweep_value(r, c)
                    } else {
                        0u8
                    },
            ),
    )
}

/// The image the display test shows at step `lit`.
pub fn sweep_frame(lit: usize) -> (pattern: [[u8; 9]; 34])
    ensures
        rows(pattern) == sweep_of(lit as int),
{
    let mut pattern: [[u8; 9]; 34] = [[0; 9]; 34];
    for i in 0..34usize
        invariant
            forall|r: int, c: int|
                0 <= r < i && 0 <= c < 9 ==> pattern[r][c] == sweep_of(lit as int)[r][c],
            forall|r: int, c: int| i <= r < 34 && 0 <= c < 9 ==> pattern[r][c] == 0,
    {
        for j in 0..9usize
            invariant
                i < 34,
                forall|r: int, c: int|
                    0 <= r < i && 0 <= c < 9 ==> pattern[r][c] == sweep_of(lit as int)[r][c],
                forall|r: int, c: int| i < r < 34 && 0 <= c < 9 ==> pattern[r][c] == 0,
                forall|c: int| 0 <= c < j ==> pattern[i as int][c] == sweep_of(lit as int)[i as int][c],
                forall|c: int| j <= c < 9 ==> pattern[i as int][c] == 0,
        {
            if i * 9 + j < lit {
                pattern[i][j] = (i % 16) as u8 ^ j as u8;
            }
        }
    }
    assert(rows(pattern) =~~= sweep_of(lit as int));
    pattern
}

} // verus!
