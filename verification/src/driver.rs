use vstd::prelude::*;
use crate::cell::CellState;
use crate::grid::{snapshot_matches, spec_next_cells, Field};

verus! {

/// The cell buffer after `generations` single-step advances of a grid
/// whose buffer starts as `cells`.
pub open spec fn spec_run(cells: Seq<CellState>, width: nat, height: nat, generations: nat) -> Seq<
    CellState,
>
    decreases generations,
{
    if generations == 0 {
        cells
    } else {
        spec_next_cells(spec_run(cells, width, height, (generations - 1) as nat), width, height)
    }
}

/// A run of one more generation is one more single-step advance: the
/// buffer after `generations + 1` steps of a run is exactly the advance
/// of the buffer after `generations` steps. A timeline therefore ends
/// at the same state that repeated calls of the single-step advance
/// reach directly.
pub proof fn lemma_run_is_iterated_advance(
    cells: Seq<CellState>,
    width: nat,
    height: nat,
    generations: nat,
)
    ensures
        spec_run(cells, width, height, generations + 1) == spec_next_cells(
            spec_run(cells, width, height, generations),
            width,
            height,
        ),
{
}

/// Advances the grid `frame_n` generations and collects one snapshot
/// after each advance, in order. The returned timeline holds exactly
/// `frame_n` snapshots — none when `frame_n` is 0, in which case the
/// grid is left untouched — and the snapshot at position `k` shows the
/// grid after `k + 1` advances, so the last one shows the state the
/// grid is left in.
pub fn get_status(field: &mut Field, frame_n: u8) -> (status: Vec<Vec<Vec<u8>>>)
    requires
        old(field).wf(),
        0 < old(field).width,
    ensures
        final(field).wf(),
        final(field).width == old(field).width,
        final(field).height == old(field).height,
        final(field).cells@ == spec_run(
            old(field).cells@,
            old(field).width as nat,
            old(field).height as nat,
            frame_n as nat,
        ),
        frame_n == 0 ==> final(field).cells@ == old(field).cells@,
        status@.len() == frame_n as int,
        forall|k: int|
            0 <= k < frame_n as int ==> snapshot_matches(
                (#[trigger] status@[k])@,
                spec_run(
                    old(field).cells@,
                    old(field).width as nat,
                    old(field).height as nat,
                    (k + 1) as nat,
                ),
                old(field).width as nat,
                old(field).height as nat,
            ),
{
    let w = field.width;
    let h = field.height;
    let mut status: Vec<Vec<Vec<u8>>> = Vec::new();
    let mut i: u8 = 0;
    while i < frame_n
        invariant
            field.wf(),
            w == field.width,
            h == field.height,
            0 < w,
            w == old(field).width,
            h == old(field).height,
            i <= frame_n,
            field.cells@ == spec_run(old(field).cells@, w as nat, h as nat, i as nat),
            status@.len() == i as int,
            forall|k: int|
                0 <= k < i as int ==> snapshot_matches(
                    (#[trigger] status@[k])@,
                    spec_run(old(field).cells@, w as nat, h as nat, (k + 1) as nat),
                    w as nat,
                    h as nat,
                ),
        decreases frame_n - i,
    {
        field.next();
        let shot = field.drow_as_2d_bit_array();
        status.push(shot);
        i = i + 1;
    }
    status
}

} // verus!
