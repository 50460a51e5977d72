//! Where a player can walk on a platform of a realm: between neighbouring
//! cells that nothing solid stands on.

use vstd::prelude::*;

verus! {

/// A cell of a platform of a realm.
#[derive(Copy, Clone, Debug, PartialEq, Eq)]
pub struct Point {
    pub platform: u32,
    pub x: u32,
    pub y: u32,
}

/// A step between two cells.
pub type Step = (Point, Point);

/// The cell at `x`, `y` has something solid on it.
pub open spec fn solid(occupied: Seq<(u32, u32)>, x: int, y: int) -> bool {
    occupied.contains((x as u32, y as u32))
}

/// The step from `x1`, `y1` to `x2`, `y2`, where `keep` holds, or none.
pub open spec fn step_if(keep: bool, platform: u32, x1: int, y1: int, x2: int, y2: int) -> Seq<Step> {
    if keep {
        seq![(Point { platform, x: x1 as u32, y: y1 as u32 }, Point { platform, x: x2 as u32, y: y2 as u32 })]
    } else {
        Seq::empty()
    }
}

/// The steps found at the free cell `x`, `y` of a platform `width` by
/// `length`: from its free neighbours below-left, left, above-left and
/// below to it, in that order, then from it to its free neighbour
/// below-right. An occupied cell gives none.
pub open spec fn cell_steps(platform: u32, width: u32, length: u32, occupied: Seq<(u32, u32)>, x: int, y: int) -> Seq<Step> {
    if solid(occupied, x, y) {
        Seq::empty()
    } else {
        step_if(x > 0 && y > 0 && !solid(occupied, x - 1, y - 1), platform, x - 1, y - 1, x, y)
            + step_if(x > 0 && !solid(occupied, x - 1, y), platform, x - 1, y, x, y)
            + step_if(x > 0 && y < length && !solid(occupied, x - 1, y + 1), platform, x - 1, y + 1, x, y)
            + step_if(y > 0 && !solid(occupied, x, y - 1), platform, x, y - 1, x, y)
            + step_if(y > 0 && x < width && !solid(occupied, x + 1, y - 1), platform, x, y, x + 1, y - 1)
    }
}

/// The steps found at the cells `x`, 0 to `x`, `n - 1`, in that order.
pub open spec fn column_steps(platform: u32, width: u32, length: u32, occupied: Seq<(u32, u32)>, x: int, n: int) -> Seq<Step>
    decreases n,
{
    if n <= 0 {
        Seq::empty()
    } else {
        column_steps(platform, width, length, occupied, x, n - 1) + cell_steps(platform, width, length, occupied, x, n - 1)
    }
}

/// The steps found at every cell of the columns 0 to `n - 1`, column by
/// column.
pub open spec fn grid_steps(platform: u32, width: u32, length: u32, occupied: Seq<(u32, u32)>, n: int) -> Seq<Step>
    decreases n,
{
    if n <= 0 {
        Seq::empty()
    } else {
        grid_steps(platform, width, length, occupied, n - 1) + column_steps(
            platform,
            width,
            length,
            occupied,
            n - 1,
            length + 1,
        )
    }
}

/// Whether the cell at `x`, `y` has something solid on it.
fn is_solid(occupied: &Vec<(u32, u32)>, x: u32, y: u32) -> (r: bool)
    ensures
        r == solid(occupied@, x as int, y as int),
{
    let mut i: usize = 0;
    while i < occupied.len()
        invariant
            i <= occupied@.len(),
            forall|j: int| 0 <= j < i ==> occupied@[j] != (x, y),
        decreases occupied@.len() - i,
    {
        if occupied[i].0 == x && occupied[i].1 == y {
            assert(occupied@[i as int] == (x, y));
            return true;
        }
        i = i + 1;
    }
    false
}

/// Adds the steps found at the cell `x`, `y` to `steps`.
fn add_cell_steps(
    steps: &mut Vec<Step>,
    platform: u32,
    width: u32,
    length: u32,
    occupied: &Vec<(u32, u32)>,
    x: u32,
    y: u32,
)
    requires
        x <= width,
        y <= length,
    ensures
        final(steps)@ == old(steps)@ + cell_steps(platform, width, length, occupied@, x as int, y as int),
{
    let ghost start = steps@;
    let ghost (xi, yi) = (x as int, y as int);
    if is_solid(occupied, x, y) {
        assert(steps@ =~= start + cell_steps(platform, width, length, occupied@, xi, yi));
        return;
    }
    let here = Point { platform, x, y };
    let ghost a = step_if(xi > 0 && yi > 0 && !solid(occupied@, xi - 1, yi - 1), platform, xi - 1, yi - 1, xi, yi);
    let ghost b = step_if(xi > 0 && !solid(occupied@, xi - 1, yi), platform, xi - 1, yi, xi, yi);
    let ghost c = step_if(xi > 0 && yi < length && !solid(occupied@, xi - 1, yi + 1), platform, xi - 1, yi + 1, xi, yi);
    let ghost d = step_if(yi > 0 && !solid(occupied@, xi, yi - 1), platform, xi, yi - 1, xi, yi);
    let ghost e = step_if(yi > 0 && xi < width && !solid(occupied@, xi + 1, yi - 1), platform, xi, yi, xi + 1, yi - 1);
    if x > 0 {
        if y > 0 && !is_solid(occupied, x - 1, y - 1) {
            steps.push((Point { platform, x: x - 1, y: y - 1 }, here));
        }
        assert(steps@ =~= start + a);
        if !is_solid(occupied, x - 1, y) {
            steps.push((Point { platform, x: x - 1, y }, here));
        }
        assert(steps@ =~= start + a + b);
        if y < length && !is_solid(occupied, x - 1, y + 1) {
            steps.push((Point { platform, x: x - 1, y: y + 1 }, here));
        }
        assert(steps@ =~= start + a + b + c);
    } else {
        assert(steps@ =~= start + a + b + c);
    }
    if y > 0 {
        if !is_solid(occupied, x, y - 1) {
            steps.push((Point { platform, x, y: y - 1 }, here));
        }
        assert(steps@ =~= start + a + b + c + d);
        if x < width && !is_solid(occupied, x + 1, y - 1) {
            steps.push((here, Point { platform, x: x + 1, y: y - 1 }));
        }
        assert(steps@ =~= start + a + b + c + d + e);
    } else {
        assert(steps@ =~= start + a + b + c + d + e);
    }
}

/// The steps a player can take on platform `platform`, `width` by `length`
/// cells counted from zero to both limits, where `occupied` lists the
/// cells with something solid on them: for each free cell, column by
/// column and in each column from the bottom up, the steps of
/// `cell_steps`.
pub fn platform_paths(platform: u32, width: u32, length: u32, occupied: &Vec<(u32, u32)>) -> (r: Vec<Step>)
    ensures
        r@ == grid_steps(platform, width, length, occupied@, width + 1),
{
    let mut steps: Vec<Step> = Vec::new();
    let mut x: u64 = 0;
    while x <= width as u64
        invariant
            x <= width + 1,
            steps@ == grid_steps(platform, width, length, occupied@, x as int),
        decreases width + 1 - x,
    {
        let mut y: u64 = 0;
        while y <= length as u64
            invariant
                x <= width,
                y <= length + 1,
                steps@ == grid_steps(platform, width, length, occupied@, x as int) + column_steps(
                    platform,
                    width,
                    length,
                    occupied@,
                    x as int,
                    y as int,
                ),
            decreases length + 1 - y,
        {
            let ghost before = steps@;
            add_cell_steps(&mut steps, platform, width, length, occupied, x as u32, y as u32);
            proof {
                let g = grid_steps(platform, width, length, occupied@, x as int);
                let col = column_steps(platform, width, length, occupied@, x as int, y as int);
                let cell = cell_steps(platform, width, length, occupied@, x as int, y as int);
                assert(column_steps(platform, width, length, occupied@, x as int, y + 1) == col + cell);
                assert(g + col + cell =~= g + (col + cell));
            }
            y = y + 1;
        }
        x = x + 1;
    }
    steps
}

/// The cell lies on a platform `width` by `length` and nothing solid is on it.
pub open spec fn free(width: u32, length: u32, occupied: Seq<(u32, u32)>, c: Point) -> bool {
    c.x <= width && c.y <= length && !occupied.contains((c.x, c.y))
}

/// A step on platform `platform` between two different free cells that
/// touch, at a side or a corner.
pub open spec fn walkable(platform: u32, width: u32, length: u32, occupied: Seq<(u32, u32)>, s: Step) -> bool {
    &&& s.0.platform == platform && s.1.platform == platform
    &&& free(width, length, occupied, s.0) && free(width, length, occupied, s.1)
    &&& -1 <= s.0.x - s.1.x <= 1 && -1 <= s.0.y - s.1.y <= 1
    &&& s.0 != s.1
}

proof fn lemma_cell_walkable(platform: u32, width: u32, length: u32, occupied: Seq<(u32, u32)>, x: int, y: int)
    requires
        0 <= x <= width,
        0 <= y <= length,
    ensures
        forall|i: int| 0 <= i < cell_steps(platform, width, length, occupied, x, y).len()
            ==> walkable(platform, width, length, occupied, #[trigger] cell_steps(platform, width, length, occupied, x, y)[i]),
{
    let cs = cell_steps(platform, width, length, occupied, x, y);
    if !solid(occupied, x, y) {
        let a = step_if(x > 0 && y > 0 && !solid(occupied, x - 1, y - 1), platform, x - 1, y - 1, x, y);
        let b = step_if(x > 0 && !solid(occupied, x - 1, y), platform, x - 1, y, x, y);
        let c = step_if(x > 0 && y < length && !solid(occupied, x - 1, y + 1), platform, x - 1, y + 1, x, y);
        let d = step_if(y > 0 && !solid(occupied, x, y - 1), platform, x, y - 1, x, y);
        let e = step_if(y > 0 && x < width && !solid(occupied, x + 1, y - 1), platform, x, y, x + 1, y - 1);
        assert forall|i: int| 0 <= i < cs.len() implies walkable(platform, width, length, occupied, #[trigger] cs[i]) by {
            if i < a.len() {
                assert(cs[i] == a[i]);
            } else if i < a.len() + b.len() {
                assert(cs[i] == b[i - a.len()]);
            } else if i < a.len() + b.len() + c.len() {
                assert(cs[i] == c[i - a.len() - b.len()]);
            } else if i < a.len() + b.len() + c.len() + d.len() {
                assert(cs[i] == d[i - a.len() - b.len() - c.len()]);
            } else {
                assert(cs[i] == e[i - a.len() - b.len() - c.len() - d.len()]);
            }
        }
    }
}

proof fn lemma_column_walkable(platform: u32, width: u32, length: u32, occupied: Seq<(u32, u32)>, x: int, n: int)
    requires
        0 <= x <= width,
        n <= length + 1,
    ensures
        forall|i: int| 0 <= i < column_steps(platform, width, length, occupied, x, n).len()
            ==> walkable(platform, width, length, occupied, #[trigger] column_steps(platform, width, length, occupied, x, n)[i]),
    decreases n,
{
    if n > 0 {
        lemma_column_walkable(platform, width, length, occupied, x, n - 1);
        lemma_cell_walkable(platform, width, length, occupied, x, n - 1);
        let l = column_steps(platform, width, length, occupied, x, n - 1);
        let r = cell_steps(platform, width, length, occupied, x, n - 1);
        assert forall|i: int| 0 <= i < (l + r).len() implies walkable(platform, width, length, occupied, #[trigger] (l + r)[i]) by {
            if i < l.len() {
                assert((l + r)[i] == l[i]);
            } else {
                assert((l + r)[i] == r[i - l.len()]);
            }
        }
    }
}

proof fn lemma_grid_walkable(platform: u32, width: u32, length: u32, occupied: Seq<(u32, u32)>, n: int)
    requires
        n <= width + 1,
    ensures
        forall|i: int| 0 <= i < grid_steps(platform, width, length, occupied, n).len()
            ==> walkable(platform, width, length, occupied, #[trigger] grid_steps(platform, width, length, occupied, n)[i]),
    decreases n,
{
    if n > 0 {
        lemma_grid_walkable(platform, width, length, occupied, n - 1);
        lemma_column_walkable(platform, width, length, occupied, n - 1, length + 1);
        let l = grid_steps(platform, width, length, occupied, n - 1);
        let r = column_steps(platform, width, length, occupied, n - 1, length + 1);
        assert forall|i: int| 0 <= i < (l + r).len() implies walkable(platform, width, length, occupied, #[trigger] (l + r)[i]) by {
            if i < l.len() {
                assert((l + r)[i] == l[i]);
            } else {
                assert((l + r)[i] == r[i - l.len()]);
            }
        }
    }
}

/// Every step of a platform's paths joins two different free cells of that
/// platform that touch at a side or a corner.
pub proof fn lemma_paths_are_walkable(platform: u32, width: u32, length: u32, occupied: Seq<(u32, u32)>)
    ensures
        forall|i: int| 0 <= i < grid_steps(platform, width, length, occupied, width + 1).len()
            ==> walkable(platform, width, length, occupied, #[trigger] grid_steps(platform, width, length, occupied, width + 1)[i]),
{
    lemma_grid_walkable(platform, width, length, occupied, width + 1);
}

/// The step between the cells at `x1`, `y1` and `x2`, `y2` of `platform`.
pub open spec fn step_between(platform: u32, x1: int, y1: int, x2: int, y2: int) -> Step {
    (Point { platform, x: x1 as u32, y: y1 as u32 }, Point { platform, x: x2 as u32, y: y2 as u32 })
}

proof fn lemma_concat_keeps<T>(a: Seq<T>, b: Seq<T>, s: T)
    ensures
        a.contains(s) ==> (a + b).contains(s),
        b.contains(s) ==> (a + b).contains(s),
{
    if a.contains(s) {
        let i = choose|i: int| 0 <= i < a.len() && a[i] == s;
        assert((a + b)[i] == s);
    }
    if b.contains(s) {
        let i = choose|i: int| 0 <= i < b.len() && b[i] == s;
        assert((a + b)[a.len() + i] == s);
    }
}

proof fn lemma_cell_in_column(platform: u32, width: u32, length: u32, occupied: Seq<(u32, u32)>, x: int, y: int, n: int, s: Step)
    requires
        0 <= y < n,
        cell_steps(platform, width, length, occupied, x, y).contains(s),
    ensures
        column_steps(platform, width, length, occupied, x, n).contains(s),
    decreases n,
{
    let before = column_steps(platform, width, length, occupied, x, n - 1);
    let last = cell_steps(platform, width, length, occupied, x, n - 1);
    if y == n - 1 {
        lemma_concat_keeps(before, last, s);
    } else {
        lemma_cell_in_column(platform, width, length, occupied, x, y, n - 1, s);
        lemma_concat_keeps(before, last, s);
    }
}

proof fn lemma_column_in_grid(platform: u32, width: u32, length: u32, occupied: Seq<(u32, u32)>, x: int, n: int, s: Step)
    requires
        0 <= x < n,
        column_steps(platform, width, length, occupied, x, length + 1).contains(s),
    ensures
        grid_steps(platform, width, length, occupied, n).contains(s),
    decreases n,
{
    let before = grid_steps(platform, width, length, occupied, n - 1);
    let last = column_steps(platform, width, length, occupied, n - 1, length + 1);
    if x == n - 1 {
        lemma_concat_keeps(before, last, s);
    } else {
        lemma_column_in_grid(platform, width, length, occupied, x, n - 1, s);
        lemma_concat_keeps(before, last, s);
    }
}

/// Every step found at a cell of the platform is among the platform's paths.
proof fn lemma_cell_in_paths(platform: u32, width: u32, length: u32, occupied: Seq<(u32, u32)>, x: int, y: int, s: Step)
    requires
        0 <= x <= width,
        0 <= y <= length,
        cell_steps(platform, width, length, occupied, x, y).contains(s),
    ensures
        grid_steps(platform, width, length, occupied, width + 1).contains(s),
{
    lemma_cell_in_column(platform, width, length, occupied, x, y, length + 1, s);
    lemma_column_in_grid(platform, width, length, occupied, x, width + 1, s);
}

/// The paths leave out no step: from each free cell, a step comes in from
/// each free neighbour below-left, left, above-left and below, and a step
/// goes out to its free neighbour below-right.
pub proof fn lemma_paths_are_complete(platform: u32, width: u32, length: u32, occupied: Seq<(u32, u32)>, x: int, y: int)
    requires
        0 <= x <= width,
        0 <= y <= length,
        !solid(occupied, x, y),
    ensures
        ({
            let paths = grid_steps(platform, width, length, occupied, width + 1);
            &&& x > 0 && y > 0 && !solid(occupied, x - 1, y - 1) ==> paths.contains(step_between(platform, x - 1, y - 1, x, y))
            &&& x > 0 && !solid(occupied, x - 1, y) ==> paths.contains(step_between(platform, x - 1, y, x, y))
            &&& x > 0 && y < length && !solid(occupied, x - 1, y + 1) ==> paths.contains(step_between(platform, x - 1, y + 1, x, y))
            &&& y > 0 && !solid(occupied, x, y - 1) ==> paths.contains(step_between(platform, x, y - 1, x, y))
            &&& y > 0 && x < width && !solid(occupied, x + 1, y - 1) ==> paths.contains(step_between(platform, x, y, x + 1, y - 1))
        }),
{
    let a = step_if(x > 0 && y > 0 && !solid(occupied, x - 1, y - 1), platform, x - 1, y - 1, x, y);
    let b = step_if(x > 0 && !solid(occupied, x - 1, y), platform, x - 1, y, x, y);
    let c = step_if(x > 0 && y < length && !solid(occupied, x - 1, y + 1), platform, x - 1, y + 1, x, y);
    let d = step_if(y > 0 && !solid(occupied, x, y - 1), platform, x, y - 1, x, y);
    let e = step_if(y > 0 && x < width && !solid(occupied, x + 1, y - 1), platform, x, y, x + 1, y - 1);
    assert(cell_steps(platform, width, length, occupied, x, y) == a + b + c + d + e);
    if a.len() > 0 {
        assert(a[0] == step_between(platform, x - 1, y - 1, x, y));
        assert(a.contains(a[0]));
        lemma_concat_keeps(a, b, a[0]);
        lemma_concat_keeps(a + b, c, a[0]);
        lemma_concat_keeps(a + b + c, d, a[0]);
        lemma_concat_keeps(a + b + c + d, e, a[0]);
        lemma_cell_in_paths(platform, width, length, occupied, x, y, a[0]);
    }
    if b.len() > 0 {
        assert(b.contains(b[0]));
        lemma_concat_keeps(a, b, b[0]);
        lemma_concat_keeps(a + b, c, b[0]);
        lemma_concat_keeps(a + b + c, d, b[0]);
        lemma_concat_keeps(a + b + c + d, e, b[0]);
        lemma_cell_in_paths(platform, width, length, occupied, x, y, b[0]);
    }
    if c.len() > 0 {
        assert(c.contains(c[0]));
        lemma_concat_keeps(a + b, c, c[0]);
        lemma_concat_keeps(a + b + c, d, c[0]);
        lemma_concat_keeps(a + b + c + d, e, c[0]);
        lemma_cell_in_paths(platform, width, length, occupied, x, y, c[0]);
    }
    if d.len() > 0 {
        assert(d.contains(d[0]));
        lemma_concat_keeps(a + b + c, d, d[0]);
        lemma_concat_keeps(a + b + c + d, e, d[0]);
        lemma_cell_in_paths(platform, width, length, occupied, x, y, d[0]);
    }
    if e.len() > 0 {
        assert(e.contains(e[0]));
        lemma_concat_keeps(a + b + c + d, e, e[0]);
        lemma_cell_in_paths(platform, width, length, occupied, x, y, e[0]);
    }
}

/// Any two different free cells of the platform that touch, at a side or a
/// corner, are joined by a step of the paths, one way or the other.
pub proof fn lemma_touching_free_cells_are_joined(
    platform: u32,
    width: u32,
    length: u32,
    occupied: Seq<(u32, u32)>,
    p: Point,
    q: Point,
)
    requires
        p.platform == platform,
        q.platform == platform,
        free(width, length, occupied, p),
        free(width, length, occupied, q),
        -1 <= p.x - q.x <= 1,
        -1 <= p.y - q.y <= 1,
        p != q,
    ensures
        grid_steps(platform, width, length, occupied, width + 1).contains((p, q)) || grid_steps(
            platform,
            width,
            length,
            occupied,
            width + 1,
        ).contains((q, p)),
{
    // Name the cells so that `hi` is the one further right, or further up
    // when they share a column.
    let (lo, hi) = if p.x < q.x || (p.x == q.x && p.y < q.y) {
        (p, q)
    } else {
        (q, p)
    };
    let (hx, hy) = (hi.x as int, hi.y as int);
    lemma_paths_are_complete(platform, width, length, occupied, hx, hy);
    assert(!solid(occupied, lo.x as int, lo.y as int));
    assert(lo == Point { platform, x: lo.x as int as u32, y: lo.y as int as u32 });
    assert(hi == Point { platform, x: hx as u32, y: hy as u32 });
    if lo.x < hi.x && lo.y > hi.y {
        // Above-left of `hi`: the step from `lo` comes in to `hi`.
        assert(step_between(platform, hx - 1, hy + 1, hx, hy) == (lo, hi));
    } else if lo.x < hi.x && lo.y == hi.y {
        assert(step_between(platform, hx - 1, hy, hx, hy) == (lo, hi));
    } else if lo.x < hi.x {
        assert(step_between(platform, hx - 1, hy - 1, hx, hy) == (lo, hi));
    } else {
        assert(step_between(platform, hx, hy - 1, hx, hy) == (lo, hi));
    }
}

} // verus!
