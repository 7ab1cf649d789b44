use vstd::prelude::*;
use crate::hit::Hit;
use crate::order::{is_sorted_perm, sort_hits};

verus! {

/// Velocities are swept over 1 through this value.
pub const MAX_VELOCITY: u32 = 100;

/// Number of half-degree steps from -90 to 90 degrees, both included.
pub const ANGLE_STEPS: usize = 361;

/// Number of whole-degree angles from -90 to 90, both included.
pub const ANGLE_COUNT: usize = 181;

/// The angle of the `k`-th half-degree step from -90 degrees, rounded to the
/// nearest degree with halves away from zero.
pub open spec fn step_angle(k: int) -> int {
    let h = k - 180;
    if h >= 0 {
        (h + 1) / 2
    } else {
        -((1 - h) / 2)
    }
}

fn step_angle_exec(k: usize) -> (r: i32)
    requires
        k < ANGLE_STEPS,
    ensures
        r == step_angle(k as int),
        -90 <= r <= 90,
{
    if k >= 180 {
        ((k - 180 + 1) / 2) as i32
    } else {
        -(((1 + 180 - k) / 2) as i32)
    }
}

// ---------------------------------------------------------------------------
// Angle sweep: each velocity is tried at every half degree.
// ---------------------------------------------------------------------------

/// A hit grid of the angle sweep: row `i` holds, for velocity `i + 1`, whether
/// each half-degree step from -90 degrees hits the target.
pub open spec fn angle_grid_wf(grid: Seq<Vec<bool>>) -> bool {
    grid.len() == MAX_VELOCITY && forall|i: int| 0 <= i < grid.len() ==> #[trigger] grid[i]@.len() == ANGLE_STEPS
}

/// The solutions that the first `n` steps of one row emit, in sweep order.
pub open spec fn row_angle_hits(velocity: int, row: Seq<bool>, n: int) -> Seq<Hit>
    decreases n,
{
    if n <= 0 {
        seq![]
    } else {
        let prev = row_angle_hits(velocity, row, n - 1);
        if row[n - 1] {
            prev.push(Hit { velocity: velocity as u32, angle: step_angle(n - 1) as i32 })
        } else {
            prev
        }
    }
}

/// The solutions that the first `n` rows emit, in sweep order.
pub open spec fn grid_angle_hits(grid: Seq<Vec<bool>>, n: int) -> Seq<Hit>
    decreases n,
{
    if n <= 0 {
        seq![]
    } else {
        grid_angle_hits(grid, n - 1) + row_angle_hits(n, grid[n - 1]@, grid[n - 1]@.len() as int)
    }
}

/// `h` is the solution of a cell of the grid that hits.
pub open spec fn from_angle_cell(grid: Seq<Vec<bool>>, h: Hit) -> bool {
    exists|i: int, k: int|
        0 <= i < grid.len() && 0 <= k < grid[i]@.len() && #[trigger] grid[i]@[k] && h.velocity
            == i + 1 && h.angle == step_angle(k)
}

proof fn lemma_row_angle_hits_sound(grid: Seq<Vec<bool>>, i: int, n: int)
    requires
        angle_grid_wf(grid),
        0 <= i < grid.len(),
        0 <= n <= ANGLE_STEPS,
    ensures
        forall|x: Hit| #[trigger]
            row_angle_hits(i + 1, grid[i]@, n).contains(x) ==> from_angle_cell(grid, x) && -90
                <= x.angle <= 90,
    decreases n,
{
    if n > 0 {
        lemma_row_angle_hits_sound(grid, i, n - 1);
        let prev = row_angle_hits(i + 1, grid[i]@, n - 1);
        assert forall|x: Hit| #[trigger]
            row_angle_hits(i + 1, grid[i]@, n).contains(x) implies from_angle_cell(grid, x) && -90
                <= x.angle <= 90 by {
            if !prev.contains(x) {
                let k = n - 1;
                assert(grid[i]@[k]);
                assert(x == Hit { velocity: (i + 1) as u32, angle: step_angle(k) as i32 }) by {
                    if !grid[i]@[k] {
                    } else {
                        let s = prev.push(Hit { velocity: (i + 1) as u32, angle: step_angle(k) as i32 });
                        let j = choose|j: int| 0 <= j < s.len() && s[j] == x;
                        assert(j == prev.len());
                    }
                };
            }
        }
    }
}

proof fn lemma_grid_angle_hits_sound(grid: Seq<Vec<bool>>, n: int)
    requires
        angle_grid_wf(grid),
        0 <= n <= grid.len(),
    ensures
        forall|x: Hit| #[trigger]
            grid_angle_hits(grid, n).contains(x) ==> from_angle_cell(grid, x) && -90 <= x.angle
                <= 90 && 1 <= x.velocity <= MAX_VELOCITY,
    decreases n,
{
    if n > 0 {
        lemma_grid_angle_hits_sound(grid, n - 1);
        lemma_row_angle_hits_sound(grid, n - 1, ANGLE_STEPS as int);
        let a = grid_angle_hits(grid, n - 1);
        assert(grid[n - 1]@.len() == ANGLE_STEPS);
        let b = row_angle_hits(n, grid[n - 1]@, ANGLE_STEPS as int);
        assert(b == row_angle_hits((n - 1) + 1, grid[n - 1]@, ANGLE_STEPS as int));
        assert forall|x: Hit| #[trigger] (a + b).contains(x) implies from_angle_cell(grid, x) && -90
            <= x.angle <= 90 && 1 <= x.velocity <= MAX_VELOCITY by {
            let j = choose|j: int| 0 <= j < (a + b).len() && (a + b)[j] == x;
            if j < a.len() {
                assert(a.contains(x));
            } else {
                assert(b[j - a.len()] == x);
                assert(b.contains(x));
                let (ii, k) = choose|ii: int, k: int|
                    0 <= ii < grid.len() && 0 <= k < grid[ii]@.len() && #[trigger] grid[ii]@[k]
                        && x.velocity == ii + 1 && x.angle == step_angle(k);
            }
        }
    }
}

/// The solutions of an angle sweep, in display order (by angle, then by
/// velocity). Every hitting cell gives one solution, repeats included.
pub fn collect_angle_hits(grid: &Vec<Vec<bool>>) -> (r: Vec<Hit>)
    requires
        angle_grid_wf(grid@),
    ensures
        is_sorted_perm(r@, grid_angle_hits(grid@, MAX_VELOCITY as int), true),
        forall|j: int|
            0 <= j < r.len() ==> from_angle_cell(grid@, #[trigger] r@[j]) && -90 <= r@[j].angle <= 90
                && 1 <= r@[j].velocity <= MAX_VELOCITY,
{
    let mut hits: Vec<Hit> = Vec::new();
    for i in 0..grid.len()
        invariant
            angle_grid_wf(grid@),
            hits@ == grid_angle_hits(grid@, i as int),
    {
        let row = &grid[i];
        let velocity: u32 = (i + 1) as u32;
        for k in 0..row.len()
            invariant
                angle_grid_wf(grid@),
                0 <= i < grid.len(),
                row == grid@[i as int],
                velocity == i + 1,
                hits@ == grid_angle_hits(grid@, i as int) + row_angle_hits(
                    i + 1,
                    row@,
                    k as int,
                ),
        {
            if row[k] {
                hits.push(Hit::new(velocity, step_angle_exec(k)));
            }
        }
    }
    let r = sort_hits(&hits, true);
    proof {
        broadcast use vstd::seq_lib::group_to_multiset_ensures;

        lemma_grid_angle_hits_sound(grid@, MAX_VELOCITY as int);
        assert forall|j: int| 0 <= j < r.len() implies from_angle_cell(grid@, #[trigger] r@[j]) && -90
            <= r@[j].angle <= 90 && 1 <= r@[j].velocity <= MAX_VELOCITY by {
            assert(r@.to_multiset().count(r@[j]) > 0);
            assert(hits@.contains(r@[j]));
        }
    }
    r
}

// ---------------------------------------------------------------------------
// Velocity sweep: each whole-degree angle is tried at many velocities.
// ---------------------------------------------------------------------------

/// A hit table of the velocity sweep: row `i` holds, for angle `i - 90`, the
/// rounded velocity of each step that hits the target, in sweep order.
pub open spec fn velocity_grid_wf(grid: Seq<Vec<u32>>) -> bool {
    grid.len() == ANGLE_COUNT
}

/// The solution list after a hit at `velocity` and `angle`: the solution is
/// appended when the velocity lies in range and the last solution differs.
pub open spec fn emit_velocity_hit(prev: Seq<Hit>, velocity: int, angle: int) -> Seq<Hit> {
    let h = Hit { velocity: velocity as u32, angle: angle as i32 };
    if 1 <= velocity <= MAX_VELOCITY && (prev.len() == 0 || prev.last() != h) {
        prev.push(h)
    } else {
        prev
    }
}

/// The solution list after the first `n` hits of one row.
pub open spec fn row_velocity_hits(prev: Seq<Hit>, angle: int, row: Seq<u32>, n: int) -> Seq<Hit>
    decreases n,
{
    if n <= 0 {
        prev
    } else {
        emit_velocity_hit(row_velocity_hits(prev, angle, row, n - 1), row[n - 1] as int, angle)
    }
}

/// The solutions that the first `n` rows emit, in sweep order.
pub open spec fn grid_velocity_hits(grid: Seq<Vec<u32>>, n: int) -> Seq<Hit>
    decreases n,
{
    if n <= 0 {
        seq![]
    } else {
        row_velocity_hits(
            grid_velocity_hits(grid, n - 1),
            n - 1 - 90,
            grid[n - 1]@,
            grid[n - 1]@.len() as int,
        )
    }
}

/// `h` is the solution of a hit that the table records.
pub open spec fn from_velocity_cell(grid: Seq<Vec<u32>>, h: Hit) -> bool {
    exists|i: int, k: int|
        0 <= i < grid.len() && 0 <= k < grid[i]@.len() && #[trigger] grid[i]@[k] == h.velocity
            && h.angle == i - 90
}

/// No two neighbours of `s` are the same solution.
pub open spec fn no_adjacent_repeats(s: Seq<Hit>) -> bool {
    forall|j: int| 0 <= j < s.len() - 1 ==> #[trigger] s[j] != s[j + 1]
}

/// Records a hit of the velocity sweep at a rounded `velocity` and `angle`.
pub fn push_velocity_hit(hits: &mut Vec<Hit>, velocity: u32, angle: i32)
    ensures
        final(hits)@ == emit_velocity_hit(old(hits)@, velocity as int, angle as int),
{
    if 1 <= velocity && velocity <= MAX_VELOCITY {
        let fresh = hits.len() == 0 || {
            let last = hits[hits.len() - 1];
            last.angle != angle || last.velocity != velocity
        };
        if fresh {
            hits.push(Hit::new(velocity, angle));
        }
    }
}

proof fn lemma_row_velocity_hits_sound(grid: Seq<Vec<u32>>, prev: Seq<Hit>, i: int, n: int)
    requires
        velocity_grid_wf(grid),
        0 <= i < grid.len(),
        0 <= n <= grid[i]@.len(),
    ensures
        forall|x: Hit| #[trigger]
            row_velocity_hits(prev, i - 90, grid[i]@, n).contains(x) ==> prev.contains(x) || (
            from_velocity_cell(grid, x) && 1 <= x.velocity <= MAX_VELOCITY),
    decreases n,
{
    if n > 0 {
        lemma_row_velocity_hits_sound(grid, prev, i, n - 1);
        let before = row_velocity_hits(prev, i - 90, grid[i]@, n - 1);
        let k = n - 1;
        let h = Hit { velocity: grid[i]@[k], angle: (i - 90) as i32 };
        assert forall|x: Hit| #[trigger]
            row_velocity_hits(prev, i - 90, grid[i]@, n).contains(x) implies prev.contains(x) || (
            from_velocity_cell(grid, x) && 1 <= x.velocity <= MAX_VELOCITY) by {
            if !before.contains(x) {
                let s = before.push(h);
                let j = choose|j: int| 0 <= j < s.len() && s[j] == x;
                assert(j == before.len());
                assert(grid[i]@[k] == x.velocity);
            }
        }
    }
}

proof fn lemma_grid_velocity_hits_sound(grid: Seq<Vec<u32>>, n: int)
    requires
        velocity_grid_wf(grid),
        0 <= n <= grid.len(),
    ensures
        forall|x: Hit| #[trigger]
            grid_velocity_hits(grid, n).contains(x) ==> from_velocity_cell(grid, x) && 1 <= x.velocity
                <= MAX_VELOCITY && -90 <= x.angle <= 90,
    decreases n,
{
    if n > 0 {
        lemma_grid_velocity_hits_sound(grid, n - 1);
        let i = n - 1;
        lemma_row_velocity_hits_sound(grid, grid_velocity_hits(grid, i), i, grid[i]@.len() as int);
        assert forall|x: Hit| #[trigger] grid_velocity_hits(grid, n).contains(x) implies from_velocity_cell(
            grid,
            x,
        ) && 1 <= x.velocity <= MAX_VELOCITY && -90 <= x.angle <= 90 by {
            if !grid_velocity_hits(grid, i).contains(x) {
                let (ii, k) = choose|ii: int, k: int|
                    0 <= ii < grid.len() && 0 <= k < grid[ii]@.len() && #[trigger] grid[ii]@[k]
                        == x.velocity && x.angle == ii - 90;
            }
        }
    }
}

/// The solutions of a velocity sweep, in display order (by velocity, then by
/// angle). A hit is kept when its rounded velocity lies in 1 through 100 and
/// the solution recorded just before it differs. When each row lists its
/// velocities in non-decreasing order, as a rising sweep does, no two
/// neighbouring solutions are the same.
pub fn collect_velocity_hits(grid: &Vec<Vec<u32>>) -> (r: Vec<Hit>)
    requires
        velocity_grid_wf(grid@),
    ensures
        is_sorted_perm(r@, grid_velocity_hits(grid@, ANGLE_COUNT as int), false),
        forall|j: int|
            0 <= j < r.len() ==> from_velocity_cell(grid@, #[trigger] r@[j]) && 1 <= r@[j].velocity
                <= MAX_VELOCITY && -90 <= r@[j].angle <= 90,
        (forall|i: int| 0 <= i < grid.len() ==> nondecreasing(#[trigger] grid@[i]@))
            ==> no_adjacent_repeats(r@),
{
    let mut hits: Vec<Hit> = Vec::new();
    for i in 0..grid.len()
        invariant
            velocity_grid_wf(grid@),
            hits@ == grid_velocity_hits(grid@, i as int),
    {
        let row = &grid[i];
        let angle: i32 = i as i32 - 90;
        for k in 0..row.len()
            invariant
                velocity_grid_wf(grid@),
                0 <= i < grid.len(),
                row == grid@[i as int],
                angle == i - 90,
                hits@ == row_velocity_hits(
                    grid_velocity_hits(grid@, i as int),
                    i - 90,
                    row@,
                    k as int,
                ),
        {
            push_velocity_hit(&mut hits, row[k], angle);
        }
    }
    let r = sort_hits(&hits, false);
    proof {
        broadcast use vstd::seq_lib::group_to_multiset_ensures;

        lemma_grid_velocity_hits_sound(grid@, ANGLE_COUNT as int);
        if forall|i: int| 0 <= i < grid.len() ==> nondecreasing(#[trigger] grid@[i]@) {
            lemma_velocity_hits_no_adjacent_repeats(grid@, r@);
        }
        assert forall|j: int| 0 <= j < r.len() implies from_velocity_cell(grid@, #[trigger] r@[j]) && 1
            <= r@[j].velocity <= MAX_VELOCITY && -90 <= r@[j].angle <= 90 by {
            assert(r@.to_multiset().count(r@[j]) > 0);
            assert(hits@.contains(r@[j]));
        }
    }
    r
}

/// The velocities of `row` never fall from one entry to the next.
pub open spec fn nondecreasing(row: Seq<u32>) -> bool {
    forall|a: int, b: int| 0 <= a <= b < row.len() ==> row[a] <= row[b]
}

proof fn lemma_row_velocity_hits_distinct(prev: Seq<Hit>, angle: int, row: Seq<u32>, n: int)
    requires
        -90 <= angle <= 90,
        nondecreasing(row),
        0 <= n <= row.len(),
        prev.no_duplicates(),
        forall|k: int| 0 <= k < prev.len() ==> (#[trigger] prev[k]).angle < angle,
    ensures
        ({
            let r = row_velocity_hits(prev, angle, row, n);
            &&& r.len() >= prev.len()
            &&& r.subrange(0, prev.len() as int) == prev
            &&& forall|k: int|
                prev.len() <= k < r.len() ==> (#[trigger] r[k]).angle == angle && (n > 0
                    ==> r[k].velocity <= row[n - 1])
            &&& forall|a: int, b: int|
                prev.len() <= a < b < r.len() ==> (#[trigger] r[a]).velocity < (#[trigger] r[b]).velocity
            &&& r.no_duplicates()
            &&& forall|k: int| 0 <= k < r.len() ==> (#[trigger] r[k]).angle <= angle
        }),
    decreases n,
{
    if n > 0 {
        lemma_row_velocity_hits_distinct(prev, angle, row, n - 1);
        let r = row_velocity_hits(prev, angle, row, n - 1);
        let v = row[n - 1];
        let h = Hit { velocity: v, angle: angle as i32 };
        if n > 1 {
            assert(row[n - 2] <= row[n - 1]);
        }
        if 1 <= v <= MAX_VELOCITY && (r.len() == 0 || r.last() != h) {
            let t = r.push(h);
            assert(t.subrange(0, prev.len() as int) == r.subrange(0, prev.len() as int));
            assert forall|k: int| prev.len() <= k < r.len() implies (#[trigger] r[k]).velocity < v by {
                let last = r.len() - 1;
                assert(r[last].angle == angle);
                if k < last {
                    assert(r[k].velocity < r[last].velocity);
                }
            }
            assert forall|a: int, b: int| 0 <= a < t.len() && 0 <= b < t.len() && a != b implies t[a]
                != t[b] by {
                if a < r.len() && b < r.len() {
                    assert(t[a] == r[a] && t[b] == r[b]);
                } else if a < r.len() {
                    assert(t[a] == r[a]);
                    if a < prev.len() {
                        assert(r[a] == prev[a]);
                    }
                } else {
                    assert(t[b] == r[b]);
                    if b < prev.len() {
                        assert(r[b] == prev[b]);
                    }
                }
            }
            assert forall|k: int| 0 <= k < t.len() implies (#[trigger] t[k]).angle <= angle by {
                if k < r.len() {
                    assert(t[k] == r[k]);
                }
            }
        }
    }
}

proof fn lemma_grid_velocity_hits_distinct(grid: Seq<Vec<u32>>, n: int)
    requires
        velocity_grid_wf(grid),
        forall|i: int| 0 <= i < grid.len() ==> nondecreasing(#[trigger] grid[i]@),
        0 <= n <= grid.len(),
    ensures
        grid_velocity_hits(grid, n).no_duplicates(),
        forall|k: int|
            0 <= k < grid_velocity_hits(grid, n).len() ==> (#[trigger] grid_velocity_hits(
                grid,
                n,
            )[k]).angle < n - 90,
    decreases n,
{
    if n > 0 {
        lemma_grid_velocity_hits_distinct(grid, n - 1);
        let i = n - 1;
        assert(nondecreasing(grid[i]@));
        lemma_row_velocity_hits_distinct(
            grid_velocity_hits(grid, i),
            i - 90,
            grid[i]@,
            grid[i]@.len() as int,
        );
    }
}

/// Collected solutions never repeat one another in neighbouring places,
/// provided each row of the table lists its rounded velocities in
/// non-decreasing order, as a sweep over rising velocities does.
pub proof fn lemma_velocity_hits_no_adjacent_repeats(grid: Seq<Vec<u32>>, r: Seq<Hit>)
    requires
        velocity_grid_wf(grid),
        forall|i: int| 0 <= i < grid.len() ==> nondecreasing(#[trigger] grid[i]@),
        is_sorted_perm(r, grid_velocity_hits(grid, ANGLE_COUNT as int), false),
    ensures
        no_adjacent_repeats(r),
{
    let e = grid_velocity_hits(grid, ANGLE_COUNT as int);
    lemma_grid_velocity_hits_distinct(grid, ANGLE_COUNT as int);
    e.lemma_multiset_has_no_duplicates();
    r.lemma_multiset_has_no_duplicates_conv();
    assert forall|j: int| 0 <= j < r.len() - 1 implies #[trigger] r[j] != r[j + 1] by {
        assert(r[j] != r[j + 1]);
    }
}

} // verus!
