//! The compositor: projects placed sprites into a viewing frame and writes
//! their cells into a destination grid under a depth test.

use crate::grid::{Cell, Grid};
use crate::sprite::Sprite;
use crate::transform::{relative, relative_fits, Transform};
use itertools::Itertools;
use vstd::prelude::*;

verus! {

/// The visibility gate: a sprite whose frame-relative x or y translation is
/// negative is skipped whole, even cells of it that would land in bounds.
pub open spec fn gate_skips(t: Transform) -> bool {
    t.x < 0 || t.y < 0
}

/// Whether destination cell (r, c) lies under the sprite translated by `t`.
pub open spec fn covers(s: Sprite, t: Transform, r: int, c: int) -> bool {
    &&& t.y <= r < t.y + s.buffer.spec_rows()
    &&& t.x <= c < t.x + s.buffer.spec_cols()
}

/// The depth test. The incoming cell `sc`, shifted to depth `tz + sc.depth`,
/// replaces the occupant exactly when its depth is not strictly greater:
/// lower depth is nearer the viewer and ties favor the incoming write.
pub open spec fn blend(dest: Cell, sc: Cell, tz: int) -> Cell {
    if tz + sc.depth > dest.depth {
        dest
    } else {
        Cell { character: sc.character, fg: sc.fg, bg: sc.bg, depth: (tz + sc.depth) as i64 }
    }
}

/// The value of destination cell (r, c) after one sprite placed at `t` is
/// composited over an occupant `dest`.
pub open spec fn composited_cell(dest: Cell, s: Sprite, t: Transform, r: int, c: int) -> Cell {
    if !gate_skips(t) && covers(s, t, r, c) {
        blend(dest, s.buffer.cell_at(r - t.y, c - t.x), t.z as int)
    } else {
        dest
    }
}

/// Machine bound forced by the word-sized depths: every sprite cell that
/// lands on the destination grid keeps its shifted depth within range.
pub open spec fn depths_fit(s: Sprite, t: Transform, rows: int, cols: int) -> bool {
    forall|r: int, c: int|
        (#[trigger] s.buffer.in_bounds(r, c)) && 0 <= r + t.y < rows && 0 <= c + t.x < cols
            ==> i64::MIN <= t.z + s.buffer.cell_at(r, c).depth <= i64::MAX
}

/// The value of destination cell (r, c) after a whole pass: the sprites are
/// composited in order, each under its frame-relative placement, so a depth
/// tie between two sprites goes to the later-processed one.
pub open spec fn pass_cell(orig: Cell, sprites: Seq<(Sprite, Transform)>, frame: Transform, r: int, c: int) -> Cell
    decreases sprites.len(),
{
    if sprites.len() == 0 {
        orig
    } else {
        composited_cell(
            pass_cell(orig, sprites.drop_last(), frame, r, c),
            sprites.last().0,
            relative(sprites.last().1, frame),
            r,
            c,
        )
    }
}

/// What a pass needs of one placed sprite: the frame-relative placement
/// stays in machine range, and, where the sprite is not gated away,
/// every landed depth stays in range too.
pub open spec fn sprite_fits(s: Sprite, p: Transform, f: Transform, rows: int, cols: int) -> bool {
    &&& relative_fits(p, f)
    &&& !gate_skips(relative(p, f)) ==> depths_fit(s, relative(p, f), rows, cols)
}

/// Why a composition pass was aborted.
#[derive(Clone, Copy, Debug, PartialEq, Eq, Structural)]
pub enum CompositeError {
    /// Zero or more than one frame reference was supplied for the pass.
    NoUniqueFrame,
}

/// Relies on itertools' `cartesian_product` over two index ranges: it yields
/// every (row, column) pair with row below `rows` and column below `cols`,
/// in row-major order.
#[verifier::external_body]
fn cell_coordinates(rows: usize, cols: usize) -> (v: Vec<(usize, usize)>)
    requires
        rows * cols <= usize::MAX,
    ensures
        v@.len() == rows * cols,
        forall|k: int| 0 <= k < v@.len()
            ==> #[trigger] v@[k] == (((k / (cols as int)) as usize, (k % (cols as int)) as usize)),
{
    (0..rows).cartesian_product(0..cols).collect()
}

/// The value of destination cell (r, c) while a sprite is being composited:
/// only source cells before position `upto` in row-major order have landed.
spec fn composited_cell_upto(dest: Cell, s: Sprite, t: Transform, r: int, c: int, upto: int) -> Cell {
    if covers(s, t, r, c) && (r - t.y) * s.buffer.spec_cols() + (c - t.x) < upto {
        blend(dest, s.buffer.cell_at(r - t.y, c - t.x), t.z as int)
    } else {
        dest
    }
}

/// Composites the source cell (row, col) of the sprite. Its destination is
/// the source coordinate shifted by the translation; a destination off the
/// grid is clipped, a strictly nearer occupant wins, and otherwise the
/// destination takes the sprite cell's content at the shifted depth.
#[verifier::loop_isolation(false)]
fn composite_one_cell(sprite: &Sprite, transform: &Transform, buffer: &mut Grid, row: usize, col: usize)
    requires
        sprite.buffer.wf(),
        old(buffer).wf(),
        !gate_skips(*transform),
        sprite.buffer.in_bounds(row as int, col as int),
        depths_fit(*sprite, *transform, old(buffer).spec_rows(), old(buffer).spec_cols()),
    ensures
        final(buffer).wf(),
        final(buffer).spec_rows() == old(buffer).spec_rows(),
        final(buffer).spec_cols() == old(buffer).spec_cols(),
        forall|r: int, c: int|
            old(buffer).in_bounds(r, c) && !(r == row + transform.y && c == col + transform.x)
                ==> #[trigger] final(buffer).cell_at(r, c) == old(buffer).cell_at(r, c),
        old(buffer).in_bounds(row + transform.y, col + transform.x)
            ==> final(buffer).cell_at(row + transform.y, col + transform.x) == blend(
                old(buffer).cell_at(row + transform.y, col + transform.x),
                sprite.buffer.cell_at(row as int, col as int),
                transform.z as int,
            ),
        !old(buffer).in_bounds(row + transform.y, col + transform.x) ==> *final(buffer) == *old(buffer),
{
    proof {
        old(buffer).lemma_shape_bounded();
    }
    let dest_r: u128 = row as u128 + transform.y as u128;
    let dest_c: u128 = col as u128 + transform.x as u128;
    if dest_r <= usize::MAX as u128 && dest_c <= usize::MAX as u128 {
        let y: usize = dest_r as usize;
        let x: usize = dest_c as usize;
        let dest_opt: Option<&Cell> = buffer.get(y, x);
        if let Some(d) = dest_opt {
            let dval: Cell = *d;
            let sprite_cell: Cell = sprite.buffer.cell(row, col);
            let candidate: i64 = transform.z + sprite_cell.depth;
            if !(candidate > dval.depth) {
                buffer.set(
                    y,
                    x,
                    Cell {
                        character: sprite_cell.character,
                        fg: sprite_cell.fg,
                        bg: sprite_cell.bg,
                        depth: candidate,
                    },
                );
            }
        }
    }
}

/// Composites one sprite into the destination grid.
///
/// When the visibility gate skips the sprite the grid is left untouched.
/// Otherwise every destination cell receives the value `composited_cell`
/// gives it: cells outside the translated sprite keep their occupant, cells
/// whose occupant is strictly nearer keep it too, and the rest take the
/// sprite cell's content at its shifted depth. The grid's shape never
/// changes, and no input is rejected beyond the machine bound on depths.
#[verifier::loop_isolation(false)]
pub fn render_to_buffer(sprite: &Sprite, transform: &Transform, buffer: &mut Grid)
    requires
        sprite.buffer.wf(),
        old(buffer).wf(),
        !gate_skips(*transform) ==> depths_fit(*sprite, *transform, old(buffer).spec_rows(), old(buffer).spec_cols()),
    ensures
        final(buffer).wf(),
        final(buffer).spec_rows() == old(buffer).spec_rows(),
        final(buffer).spec_cols() == old(buffer).spec_cols(),
        forall|r: int, c: int|
            old(buffer).in_bounds(r, c)
                ==> #[trigger] final(buffer).cell_at(r, c)
                    == composited_cell(old(buffer).cell_at(r, c), *sprite, *transform, r, c),
        gate_skips(*transform) ==> *final(buffer) == *old(buffer),
{
    if transform.x < 0 || transform.y < 0 {
        return;
    }
    let srows: usize = sprite.buffer.rows();
    let scols: usize = sprite.buffer.cols();
    proof {
        sprite.buffer.lemma_shape_bounded();
    }
    let coords: Vec<(usize, usize)> = cell_coordinates(srows, scols);
    let ncoords: usize = coords.len();
    let mut k: usize = 0;
    while k < ncoords
        invariant
            k <= ncoords,
            buffer.wf(),
            buffer.spec_rows() == old(buffer).spec_rows(),
            buffer.spec_cols() == old(buffer).spec_cols(),
            forall|r: int, c: int|
                old(buffer).in_bounds(r, c)
                    ==> #[trigger] buffer.cell_at(r, c)
                        == composited_cell_upto(old(buffer).cell_at(r, c), *sprite, *transform, r, c, k as int),
        decreases ncoords - k,
    {
        let rc: (usize, usize) = coords[k];
        let row: usize = rc.0;
        let col: usize = rc.1;
        proof {
            sprite.buffer.lemma_unflatten(k as int);
        }
        let ghost prev = *buffer;
        composite_one_cell(sprite, transform, buffer, row, col);
        proof {
            let ki = k as int;
            let sci = sprite.buffer.spec_cols();
            let sr = ki / sci;
            let sc = ki % sci;
            let dr = sr + transform.y;
            let dc = sc + transform.x;
            assert forall|r: int, c: int| old(buffer).in_bounds(r, c)
                implies #[trigger] buffer.cell_at(r, c)
                    == composited_cell_upto(old(buffer).cell_at(r, c), *sprite, *transform, r, c, ki + 1) by {
                if r == dr && c == dc {
                    assert(covers(*sprite, *transform, r, c));
                    assert(prev.cell_at(r, c) == composited_cell_upto(old(buffer).cell_at(r, c), *sprite, *transform, r, c, ki));
                    assert(sprite.buffer.flat_index(sr, sc) == ki);
                    assert(prev.cell_at(r, c) == old(buffer).cell_at(r, c));
                } else {
                    assert(buffer.cell_at(r, c) == prev.cell_at(r, c));
                    if covers(*sprite, *transform, r, c) {
                        let ssr = r - transform.y;
                        let ssc = c - transform.x;
                        if sprite.buffer.flat_index(ssr, ssc) == ki {
                            sprite.buffer.lemma_flat_index_injective(ssr, ssc, sr, sc);
                        }
                    }
                }
            }
        }
        k += 1;
    }
    proof {
        assert forall|r: int, c: int| old(buffer).in_bounds(r, c)
            implies #[trigger] buffer.cell_at(r, c)
                == composited_cell(old(buffer).cell_at(r, c), *sprite, *transform, r, c) by {
            if covers(*sprite, *transform, r, c) {
                sprite.buffer.lemma_flat_index_in_range(r - transform.y, c - transform.x);
            }
        }
    }
}

/// Runs one composition pass.
///
/// `frames` holds the world placements of every candidate frame reference;
/// composition requires exactly one, and otherwise the pass aborts with
/// `NoUniqueFrame` and the destination is left unchanged. With a unique
/// frame each sprite is composited under its frame-relative placement, in
/// order, and the call returns `Ok`; only the destination grid is mutated.
#[verifier::loop_isolation(false)]
pub fn render(frames: &Vec<Transform>, sprites: &Vec<(Sprite, Transform)>, buffer: &mut Grid) -> (result: Result<(), CompositeError>)
    requires
        old(buffer).wf(),
        forall|j: int| 0 <= j < sprites@.len() ==> (#[trigger] sprites@[j]).0.buffer.wf(),
        frames@.len() == 1 ==> forall|j: int| 0 <= j < sprites@.len()
            ==> sprite_fits(
                (#[trigger] sprites@[j]).0,
                sprites@[j].1,
                frames@[0],
                old(buffer).spec_rows(),
                old(buffer).spec_cols(),
            ),
    ensures
        (match result {
            Ok(()) => {
                &&& frames@.len() == 1
                &&& final(buffer).wf()
                &&& final(buffer).spec_rows() == old(buffer).spec_rows()
                &&& final(buffer).spec_cols() == old(buffer).spec_cols()
                &&& forall|r: int, c: int|
                    old(buffer).in_bounds(r, c)
                        ==> #[trigger] final(buffer).cell_at(r, c)
                            == pass_cell(old(buffer).cell_at(r, c), sprites@, frames@[0], r, c)
            },
            Err(e) => {
                &&& frames@.len() != 1
                &&& e == CompositeError::NoUniqueFrame
                &&& *final(buffer) == *old(buffer)
            },
        }),
{
    if frames.len() != 1 {
        return Err(CompositeError::NoUniqueFrame);
    }
    let frame: &Transform = &frames[0];
    let n: usize = sprites.len();
    let mut k: usize = 0;
    while k < n
        invariant
            k <= n,
            buffer.wf(),
            buffer.spec_rows() == old(buffer).spec_rows(),
            buffer.spec_cols() == old(buffer).spec_cols(),
            forall|r: int, c: int|
                old(buffer).in_bounds(r, c)
                    ==> #[trigger] buffer.cell_at(r, c)
                        == pass_cell(old(buffer).cell_at(r, c), sprites@.take(k as int), frames@[0], r, c),
        decreases n - k,
    {
        let pair: &(Sprite, Transform) = &sprites[k];
        let rel_t: Transform = pair.1.relative_to(frame);
        let ghost prev = *buffer;
        render_to_buffer(&pair.0, &rel_t, buffer);
        proof {
            let ki = k as int;
            assert(sprites@.take(ki + 1).drop_last() =~= sprites@.take(ki));
            assert(sprites@.take(ki + 1).last() == sprites@[ki]);
            assert forall|r: int, c: int| old(buffer).in_bounds(r, c)
                implies #[trigger] buffer.cell_at(r, c)
                    == pass_cell(old(buffer).cell_at(r, c), sprites@.take(ki + 1), frames@[0], r, c) by {
                assert(prev.cell_at(r, c) == pass_cell(old(buffer).cell_at(r, c), sprites@.take(ki), frames@[0], r, c));
                assert(buffer.cell_at(r, c) == composited_cell(prev.cell_at(r, c), sprites@[ki].0, relative(sprites@[ki].1, frames@[0]), r, c));
            }
        }
        k += 1;
    }
    proof {
        assert(sprites@.take(n as int) =~= sprites@);
    }
    Ok(())
}

/// Clipping: a destination cell that the translated sprite does not cover —
/// in particular, any cell of the grid when the sprite's computed
/// destination coordinates all fall outside it — keeps its occupant.
pub proof fn lemma_uncovered_cell_unchanged(dest: Cell, s: Sprite, t: Transform, r: int, c: int)
    requires
        !covers(s, t, r, c),
    ensures
        composited_cell(dest, s, t, r, c) == dest,
{
}

/// The visibility gate: under a negative frame-relative x or y translation
/// no destination cell changes, whatever the sprite holds.
pub proof fn lemma_gate_keeps_cell(dest: Cell, s: Sprite, t: Transform, r: int, c: int)
    requires
        gate_skips(t),
    ensures
        composited_cell(dest, s, t, r, c) == dest,
{
}

/// A depth tie goes to the incoming write: an incoming cell whose shifted
/// depth equals the occupant's replaces it.
pub proof fn lemma_tie_favors_incoming(dest: Cell, sc: Cell, tz: int)
    requires
        tz + sc.depth == dest.depth,
    ensures
        blend(dest, sc, tz) == (Cell { character: sc.character, fg: sc.fg, bg: sc.bg, depth: (tz + sc.depth) as i64 }),
{
}

} // verus!
