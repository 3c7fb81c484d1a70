use vstd::arithmetic::div_mod::{lemma_fundamental_div_mod, lemma_mod_add_multiples_vanish};
use vstd::set_lib::{lemma_int_range, set_int_range};
use vstd::prelude::*;

verus! {

/// Side of the fractal's square value matrix.
pub const VALMATRIX_SIZE: usize = 256;

/// Number of cells of the value matrix.
pub const VALMATRIX_CELLS: usize = 65536;

/// The coarsest step of the fill, half the matrix side. Values computed at
/// this step are pushed toward the nearer extreme.
pub const COARSEST_STEP: usize = 128;

/// A signed matrix coordinate, possibly outside the matrix before wrapping.
#[derive(Debug, Default, Clone, Copy, PartialEq, Eq)]
pub struct Point {
    pub x: i32,
    pub y: i32,
}

impl Point {
    pub fn new(x: i32, y: i32) -> (r: Self)
        ensures
            r.x == x,
            r.y == y,
    {
        Point { x, y }
    }
}

/// The square of four matrix coordinates around a sampled point.
#[derive(Debug, Default, Clone, Copy, PartialEq, Eq)]
pub struct BoundingBox {
    pub top_left: Point,
    pub bottom_right: Point,
}

impl BoundingBox {
    pub fn new(left: i32, top: i32, right: i32, bottom: i32) -> (r: Self)
        ensures
            r.top_left == (Point { x: left, y: top }),
            r.bottom_right == (Point { x: right, y: bottom }),
    {
        BoundingBox { top_left: Point::new(left, top), bottom_right: Point::new(right, bottom) }
    }

    /// The corners in the order top left, top right, bottom left, bottom right.
    pub open spec fn corner_seq(self) -> Seq<Point> {
        seq![
            self.top_left,
            Point { x: self.bottom_right.x, y: self.top_left.y },
            Point { x: self.top_left.x, y: self.bottom_right.y },
            self.bottom_right,
        ]
    }

    /// The corners in the order top left, top right, bottom left, bottom right.
    pub fn corners(&self) -> (r: Vec<Point>)
        ensures
            r@ == self.corner_seq(),
    {
        let r = vec![
            self.top_left,
            Point::new(self.bottom_right.x, self.top_left.y),
            Point::new(self.top_left.x, self.bottom_right.y),
            self.bottom_right,
        ];
        assert(r@ =~= self.corner_seq());
        r
    }
}

/// A coordinate taken around the torus of the matrix.
pub open spec fn wrapped(coord: int) -> int {
    coord % (VALMATRIX_SIZE as int)
}

/// Index of a signed coordinate in the matrix, with toroidal wraparound.
pub fn wrap(coord: i32) -> (r: usize)
    ensures
        r == wrapped(coord as int),
        r < VALMATRIX_SIZE,
{
    if coord >= 0 {
        (coord as usize) % VALMATRIX_SIZE
    } else {
        let back: u32 = (0 - (coord as i64)) as u32;
        let rem: usize = (back as usize) % VALMATRIX_SIZE;
        if rem == 0 {
            0
        } else {
            VALMATRIX_SIZE - rem
        }
    }
}

/// Column index of a signed coordinate, wrapped around the matrix.
pub fn wrap_x(coord: i32) -> (r: usize)
    ensures
        r == wrapped(coord as int),
        r < VALMATRIX_SIZE,
{
    wrap(coord)
}

/// Row index of a signed coordinate, wrapped around the matrix.
pub fn wrap_y(coord: i32) -> (r: usize)
    ensures
        r == wrapped(coord as int),
        r < VALMATRIX_SIZE,
{
    wrap(coord)
}


/// A cell of the value matrix.
#[derive(Debug, Default, Clone, Copy, PartialEq, Eq)]
pub struct Cell {
    pub x: usize,
    pub y: usize,
}

/// One entry of the fill schedule: the cell whose value is drawn, the step at
/// which it is drawn, the neighbours already assigned at a coarser step whose
/// values bound the draw, and whether the drawn value is pushed toward the
/// nearer extreme.
#[derive(Debug)]
pub struct CellTask {
    pub cell: Cell,
    pub step: usize,
    pub neighbours: Vec<Cell>,
    pub push_extremes: bool,
}

/// The steps of the fill, from the coarsest to the finest.
pub open spec fn is_fill_step(step: int) -> bool {
    step == 128 || step == 64 || step == 32 || step == 16 || step == 8 || step == 4 || step == 2
        || step == 1
}

/// Flat position of a cell in row-major order.
pub open spec fn cell_index(c: Cell) -> int {
    c.x * 256 + c.y
}

pub open spec fn in_matrix(c: Cell) -> bool {
    c.x < VALMATRIX_SIZE && c.y < VALMATRIX_SIZE
}

/// The `k`th of the eight cells around `c` at distance `step`, wrapped around
/// the torus: top left, top, top right, left, right, bottom left, bottom,
/// bottom right.
pub open spec fn neighbour_at(c: Cell, step: int, k: int) -> Cell {
    let dx: int = if k == 0 || k == 3 || k == 5 {
        -step
    } else if k == 1 || k == 6 {
        0
    } else {
        step
    };
    let dy: int = if k <= 2 {
        -step
    } else if k <= 4 {
        0
    } else {
        step
    };
    Cell { x: wrapped(c.x + dx) as usize, y: wrapped(c.y + dy) as usize }
}

/// Whether an entry before position `i` of the schedule drew cell `c` at a
/// step coarser than `step`.
pub open spec fn assigned_before(plan: Seq<CellTask>, i: int, c: Cell, step: int) -> bool {
    exists|j: int| 0 <= j < i && #[trigger] plan[j].cell == c && plan[j].step > step
}


/// Whether both coordinates of `c` are multiples of `step`.
pub open spec fn on_grid(c: Cell, step: int) -> bool {
    (c.x as int) % step == 0 && (c.y as int) % step == 0
}

/// The step at which the fill draws a cell: the coarsest fill step that
/// divides both of its coordinates.
pub open spec fn first_step_of(c: Cell) -> int {
    if on_grid(c, 128) {
        128
    } else if on_grid(c, 64) {
        64
    } else if on_grid(c, 32) {
        32
    } else if on_grid(c, 16) {
        16
    } else if on_grid(c, 8) {
        8
    } else if on_grid(c, 4) {
        4
    } else if on_grid(c, 2) {
        2
    } else {
        1
    }
}

proof fn lemma_coarser_grid(v: int, s: int)
    requires
        0 <= v < 256,
        is_fill_step(s),
        s < 128,
        v % (2 * s) == 0,
    ensures
        v % s == 0,
{
    let w = v as u64;
    if s == 64 {
        assert(w % 128 == 0 ==> w % 64 == 0) by (bit_vector);
    } else if s == 32 {
        assert(w % 64 == 0 ==> w % 32 == 0) by (bit_vector);
    } else if s == 16 {
        assert(w % 32 == 0 ==> w % 16 == 0) by (bit_vector);
    } else if s == 8 {
        assert(w % 16 == 0 ==> w % 8 == 0) by (bit_vector);
    } else if s == 4 {
        assert(w % 8 == 0 ==> w % 4 == 0) by (bit_vector);
    } else if s == 2 {
        assert(w % 4 == 0 ==> w % 2 == 0) by (bit_vector);
    } else if s == 1 {
        assert(w % 2 == 0 ==> w % 1 == 0) by (bit_vector);
    }
}

proof fn lemma_grid_gap(a: int, b: int, s: int)
    requires
        0 <= a < 256,
        0 <= b < 256,
        is_fill_step(s),
        a % s == 0,
        b % s == 0,
        a < b + s,
    ensures
        a <= b,
{
    let u = a as u64;
    let v = b as u64;
    if s == 128 {
        assert(u < 256 && v < 256 && u % 128 == 0 && v % 128 == 0 && u < v + 128 ==> u <= v) by (bit_vector);
    } else if s == 64 {
        assert(u < 256 && v < 256 && u % 64 == 0 && v % 64 == 0 && u < v + 64 ==> u <= v) by (bit_vector);
    } else if s == 32 {
        assert(u < 256 && v < 256 && u % 32 == 0 && v % 32 == 0 && u < v + 32 ==> u <= v) by (bit_vector);
    } else if s == 16 {
        assert(u < 256 && v < 256 && u % 16 == 0 && v % 16 == 0 && u < v + 16 ==> u <= v) by (bit_vector);
    } else if s == 8 {
        assert(u < 256 && v < 256 && u % 8 == 0 && v % 8 == 0 && u < v + 8 ==> u <= v) by (bit_vector);
    } else if s == 4 {
        assert(u < 256 && v < 256 && u % 4 == 0 && v % 4 == 0 && u < v + 4 ==> u <= v) by (bit_vector);
    } else if s == 2 {
        assert(u < 256 && v < 256 && u % 2 == 0 && v % 2 == 0 && u < v + 2 ==> u <= v) by (bit_vector);
    } else if s == 1 {
        assert(u < 256 && v < 256 && u % 1 == 0 && v % 1 == 0 && u < v + 1 ==> u <= v) by (bit_vector);
    }
}

/// A cell lies on the grid of `step` exactly when the fill draws it at that
/// step or a coarser one.
proof fn lemma_first_step(c: Cell, s: int)
    requires
        in_matrix(c),
        is_fill_step(s),
    ensures
        is_fill_step(first_step_of(c)),
        on_grid(c, first_step_of(c)),
        on_grid(c, s) <==> first_step_of(c) >= s,
{
    let x = c.x as int;
    let y = c.y as int;
    if on_grid(c, 128) {
        lemma_coarser_grid(x, 64);
        lemma_coarser_grid(y, 64);
    }
    if on_grid(c, 64) {
        lemma_coarser_grid(x, 32);
        lemma_coarser_grid(y, 32);
    }
    if on_grid(c, 32) {
        lemma_coarser_grid(x, 16);
        lemma_coarser_grid(y, 16);
    }
    if on_grid(c, 16) {
        lemma_coarser_grid(x, 8);
        lemma_coarser_grid(y, 8);
    }
    if on_grid(c, 8) {
        lemma_coarser_grid(x, 4);
        lemma_coarser_grid(y, 4);
    }
    if on_grid(c, 4) {
        lemma_coarser_grid(x, 2);
        lemma_coarser_grid(y, 2);
    }
    if on_grid(c, 2) {
        lemma_coarser_grid(x, 1);
        lemma_coarser_grid(y, 1);
    }
}

/// A multiple of `s` that is not a multiple of `2 * s` lies `s` above one.
proof fn lemma_odd_multiple(v: int, s: int)
    requires
        0 <= v < 256,
        is_fill_step(s),
        s < 128,
        v % s == 0,
        v % (2 * s) != 0,
    ensures
        v >= s,
        (v - s) % (2 * s) == 0,
{
    let w = v as u64;
    if s == 64 {
        assert(w % 64 == 0 && w % 128 != 0 ==> w >= 64 && (w - 64) % 128 == 0) by (bit_vector);
    } else if s == 32 {
        assert(w % 32 == 0 && w % 64 != 0 ==> w >= 32 && (w - 32) % 64 == 0) by (bit_vector);
    } else if s == 16 {
        assert(w % 16 == 0 && w % 32 != 0 ==> w >= 16 && (w - 16) % 32 == 0) by (bit_vector);
    } else if s == 8 {
        assert(w % 8 == 0 && w % 16 != 0 ==> w >= 8 && (w - 8) % 16 == 0) by (bit_vector);
    } else if s == 4 {
        assert(w % 4 == 0 && w % 8 != 0 ==> w >= 4 && (w - 4) % 8 == 0) by (bit_vector);
    } else if s == 2 {
        assert(w % 2 == 0 && w % 4 != 0 ==> w >= 2 && (w - 2) % 4 == 0) by (bit_vector);
    } else if s == 1 {
        assert(w % 1 == 0 && w % 2 != 0 ==> w >= 1 && (w - 1) % 2 == 0) by (bit_vector);
    }
}

/// A cell drawn below the coarsest step has a neighbour on the next coarser
/// grid: above it, to its left, or above and to its left.
proof fn lemma_coarser_neighbour(c: Cell, s: int) -> (k: int)
    requires
        in_matrix(c),
        is_fill_step(s),
        s < 128,
        on_grid(c, s),
        !on_grid(c, 2 * s),
    ensures
        k == 0 || k == 1 || k == 3,
        in_matrix(neighbour_at(c, s, k)),
        on_grid(neighbour_at(c, s, k), 2 * s),
{
    let x = c.x as int;
    let y = c.y as int;
    if x % (2 * s) != 0 {
        lemma_odd_multiple(x, s);
        if y % (2 * s) != 0 {
            lemma_odd_multiple(y, s);
            assert(neighbour_at(c, s, 0) == Cell { x: (x - s) as usize, y: (y - s) as usize });
            0
        } else {
            assert(neighbour_at(c, s, 3) == Cell { x: (x - s) as usize, y: c.y });
            3
        }
    } else {
        lemma_odd_multiple(y, s);
        assert(neighbour_at(c, s, 1) == Cell { x: c.x, y: (y - s) as usize });
        1
    }
}

/// Entry `i` of the schedule is drawn at the coarsest step whose grid holds
/// it, and its neighbours are exactly those of the eight surrounding cells
/// drawn earlier at a coarser step; below the coarsest step there is at least
/// one.
pub open spec fn task_wf(plan: Seq<CellTask>, i: int) -> bool {
    let t = plan[i];
    &&& is_fill_step(t.step as int)
    &&& in_matrix(t.cell)
    &&& t.cell.x % t.step == 0
    &&& t.cell.y % t.step == 0
    &&& t.step == first_step_of(t.cell)
    &&& t.push_extremes == (t.step >= COARSEST_STEP)
    &&& t.step < COARSEST_STEP ==> t.neighbours@.len() > 0
    &&& forall|m: int|
        0 <= m < t.neighbours@.len() ==> {
            &&& exists|k: int|
                0 <= k < 8 && #[trigger] neighbour_at(t.cell, t.step as int, k)
                    == t.neighbours@[m]
            &&& assigned_before(plan, i, #[trigger] t.neighbours@[m], t.step as int)
        }
    &&& forall|k: int|
        0 <= k < 8 && assigned_before(
            plan,
            i,
            #[trigger] neighbour_at(t.cell, t.step as int, k),
            t.step as int,
        ) ==> t.neighbours@.contains(neighbour_at(t.cell, t.step as int, k))
}

pub open spec fn scheduled(plan: Seq<CellTask>, c: Cell) -> bool {
    exists|i: int| 0 <= i < plan.len() && #[trigger] plan[i].cell == c
}

/// A complete midpoint-displacement fill of the matrix: every cell is drawn
/// exactly once, steps go from coarse to fine, and no cell is drawn again at a
/// finer step than the one that first assigned it.
pub open spec fn is_fill_schedule(plan: Seq<CellTask>) -> bool {
    &&& plan.len() == VALMATRIX_CELLS
    &&& forall|c: Cell| in_matrix(c) ==> #[trigger] scheduled(plan, c)
    &&& forall|i: int, j: int|
        0 <= i < j < plan.len() ==> #[trigger] plan[i].cell != #[trigger] plan[j].cell
    &&& forall|i: int, j: int|
        0 <= i < j < plan.len() ==> #[trigger] plan[i].step >= #[trigger] plan[j].step
    &&& forall|i: int| 0 <= i < plan.len() ==> #[trigger] task_wf(plan, i)
}

/// The `k`th neighbour of a cell at the given step.
fn neighbour(c: Cell, step: usize, k: usize) -> (r: Cell)
    requires
        in_matrix(c),
        is_fill_step(step as int),
        k < 8,
    ensures
        r == neighbour_at(c, step as int, k as int),
        in_matrix(r),
{
    let x = c.x as i32;
    let y = c.y as i32;
    let s = step as i32;
    let p = if k == 0 {
        Point::new(x - s, y - s)
    } else if k == 1 {
        Point::new(x, y - s)
    } else if k == 2 {
        Point::new(x + s, y - s)
    } else if k == 3 {
        Point::new(x - s, y)
    } else if k == 4 {
        Point::new(x + s, y)
    } else if k == 5 {
        Point::new(x - s, y + s)
    } else if k == 6 {
        Point::new(x, y + s)
    } else {
        Point::new(x + s, y + s)
    };
    Cell { x: wrap_x(p.x), y: wrap_y(p.y) }
}

/// The level matrix agrees with the schedule built so far: a cell's level is
/// the step at which the schedule drew it, and zero while it is undrawn.
pub open spec fn bookkeeping(level: Seq<usize>, plan: Seq<CellTask>) -> bool {
    &&& level.len() == VALMATRIX_CELLS
    &&& forall|i: int|
        0 <= i < plan.len() ==> {
            &&& in_matrix(#[trigger] plan[i].cell)
            &&& level[cell_index(plan[i].cell)] == plan[i].step
            &&& plan[i].step >= 1
        }
    &&& forall|c: Cell|
        in_matrix(c) && #[trigger] level[cell_index(c)] != 0 ==> scheduled(plan, c)
    &&& forall|i: int, j: int|
        0 <= i < j < plan.len() ==> #[trigger] plan[i].cell != #[trigger] plan[j].cell
    &&& forall|i: int, j: int|
        0 <= i < j < plan.len() ==> #[trigger] plan[i].step >= #[trigger] plan[j].step
    &&& forall|i: int| 0 <= i < plan.len() ==> #[trigger] task_wf(plan, i)
}

/// Every assigned level is at least `step`.
pub open spec fn levels_from(level: Seq<usize>, step: int) -> bool {
    forall|c: int| 0 <= c < level.len() ==> #[trigger] level[c] == 0 || level[c] >= step
}

proof fn lemma_assigned_before_push(plan: Seq<CellTask>, t: CellTask, i: int)
    requires
        0 <= i <= plan.len(),
    ensures
        forall|c: Cell, s: int|
            #[trigger] assigned_before(plan.push(t), i, c, s) == assigned_before(plan, i, c, s),
{
    let longer = plan.push(t);
    assert forall|c: Cell, s: int|
        assigned_before(longer, i, c, s) == assigned_before(plan, i, c, s) by {
        if assigned_before(longer, i, c, s) {
            let j = choose|j: int| 0 <= j < i && #[trigger] longer[j].cell == c && longer[j].step > s;
            assert(plan[j] == longer[j]);
        }
        if assigned_before(plan, i, c, s) {
            let j = choose|j: int| 0 <= j < i && #[trigger] plan[j].cell == c && plan[j].step > s;
            assert(plan[j] == longer[j]);
        }
    }
}

proof fn lemma_task_wf_push(plan: Seq<CellTask>, t: CellTask, i: int)
    requires
        0 <= i < plan.len(),
        task_wf(plan, i),
    ensures
        task_wf(plan.push(t), i),
{
    assert(plan.push(t)[i] == plan[i]);
    lemma_assigned_before_push(plan, t, i);
}

proof fn lemma_new_task_wf(plan: Seq<CellTask>, t: CellTask)
    requires
        is_fill_step(t.step as int),
        in_matrix(t.cell),
        t.cell.x % t.step == 0,
        t.cell.y % t.step == 0,
        t.step == first_step_of(t.cell),
        t.push_extremes == (t.step >= COARSEST_STEP),
        t.step < COARSEST_STEP ==> t.neighbours@.len() > 0,
        forall|m: int|
            0 <= m < t.neighbours@.len() ==> {
                &&& exists|k: int|
                    0 <= k < 8 && #[trigger] neighbour_at(t.cell, t.step as int, k)
                        == t.neighbours@[m]
                &&& assigned_before(plan, plan.len() as int, #[trigger] t.neighbours@[m], t.step as int)
            },
        forall|k: int|
            0 <= k < 8 && assigned_before(
                plan,
                plan.len() as int,
                #[trigger] neighbour_at(t.cell, t.step as int, k),
                t.step as int,
            ) ==> t.neighbours@.contains(neighbour_at(t.cell, t.step as int, k)),
    ensures
        task_wf(plan.push(t), plan.len() as int),
{
    lemma_assigned_before_push(plan, t, plan.len() as int);
    assert(plan.push(t)[plan.len() as int] == t);
}

/// The cell drawn at `step` lies on its grid and not on the next coarser one,
/// so `step` is the first step of the cell; below the coarsest step one of its
/// neighbours is already drawn at a coarser step.
proof fn lemma_drawn_step(level: Seq<usize>, plan: Seq<CellTask>, c: Cell, step: int, nb: Seq<Cell>)
    requires
        bookkeeping(level, plan),
        in_matrix(c),
        is_fill_step(step),
        on_grid(c, step),
        level[cell_index(c)] == 0,
        step < COARSEST_STEP ==> forall|d: Cell|
            in_matrix(d) && on_grid(d, 2 * step) ==> #[trigger] level[cell_index(d)] != 0,
        forall|k: int|
            0 <= k < 8 && assigned_before(
                plan,
                plan.len() as int,
                #[trigger] neighbour_at(c, step, k),
                step,
            ) ==> nb.contains(neighbour_at(c, step, k)),
    ensures
        first_step_of(c) == step,
        step < COARSEST_STEP ==> nb.len() > 0,
{
    lemma_first_step(c, step);
    if step < COARSEST_STEP {
        lemma_first_step(c, 2 * step);
        assert(!on_grid(c, 2 * step));
        let k = lemma_coarser_neighbour(c, step);
        let n = neighbour_at(c, step, k);
        assert(level[cell_index(n)] != 0);
        assert(scheduled(plan, n));
        let j = choose|j: int| 0 <= j < plan.len() && #[trigger] plan[j].cell == n;
        assert(task_wf(plan, j));
        lemma_first_step(n, 2 * step);
        assert(assigned_before(plan, plan.len() as int, n, step));
        assert(nb.contains(n));
    }
}

/// Collects the neighbours of `c` that were drawn at a step coarser than `step`.
fn assigned_neighbours(level: &Vec<usize>, plan: &Vec<CellTask>, c: Cell, step: usize) -> (r: Vec<Cell>)
    requires
        bookkeeping(level@, plan@),
        in_matrix(c),
        is_fill_step(step as int),
    ensures
        forall|m: int|
            0 <= m < r@.len() ==> {
                &&& exists|k: int|
                    0 <= k < 8 && #[trigger] neighbour_at(c, step as int, k) == r@[m]
                &&& assigned_before(plan@, plan@.len() as int, #[trigger] r@[m], step as int)
            },
        forall|k: int|
            0 <= k < 8 && assigned_before(
                plan@,
                plan@.len() as int,
                #[trigger] neighbour_at(c, step as int, k),
                step as int,
            ) ==> r@.contains(neighbour_at(c, step as int, k)),
{
    let mut r: Vec<Cell> = Vec::new();
    let mut k: usize = 0;
    while k < 8
        invariant
            k <= 8,
            bookkeeping(level@, plan@),
            in_matrix(c),
            is_fill_step(step as int),
            forall|m: int|
                0 <= m < r@.len() ==> {
                    &&& exists|kk: int|
                        0 <= kk < k && #[trigger] neighbour_at(c, step as int, kk) == r@[m]
                    &&& assigned_before(plan@, plan@.len() as int, #[trigger] r@[m], step as int)
                },
            forall|kk: int|
                0 <= kk < k && assigned_before(
                    plan@,
                    plan@.len() as int,
                    #[trigger] neighbour_at(c, step as int, kk),
                    step as int,
                ) ==> r@.contains(neighbour_at(c, step as int, kk)),
        decreases 8 - k,
    {
        let n = neighbour(c, step, k);
        let taken = level[n.x * 256 + n.y] > step;
        if taken {
            assert(level@[cell_index(n)] != 0);
            assert(scheduled(plan@, n));
            let ghost i = choose|i: int| 0 <= i < plan@.len() && #[trigger] plan@[i].cell == n;
            assert(assigned_before(plan@, plan@.len() as int, n, step as int));
            let ghost before = r@;
            r.push(n);
            assert(r@[r@.len() - 1] == n);
            assert forall|kk: int| 0 <= kk < k && before.contains(#[trigger] neighbour_at(c, step as int, kk)) implies r@.contains(neighbour_at(c, step as int, kk)) by {
                let m = choose|m: int| 0 <= m < before.len() && before[m] == neighbour_at(c, step as int, kk);
                assert(r@[m] == before[m]);
            }
        } else {
            assert forall|j: int| 0 <= j < plan@.len() && #[trigger] plan@[j].cell == n implies plan@[j].step <= step by {
                assert(level@[cell_index(plan@[j].cell)] == plan@[j].step);
            }
        }
        k = k + 1;
    }
    r
}

/// Draws every undrawn cell on the grid of `step`, in row-major order.
#[verifier::spinoff_prover]
fn fill_step(level: &mut Vec<usize>, plan: &mut Vec<CellTask>, step: usize)
    requires
        bookkeeping(old(level)@, old(plan)@),
        is_fill_step(step as int),
        levels_from(old(level)@, step as int + 1),
        forall|i: int| 0 <= i < old(plan)@.len() ==> #[trigger] old(plan)@[i].step > step,
        step < COARSEST_STEP ==> forall|c: Cell|
            in_matrix(c) && on_grid(c, 2 * step) ==> #[trigger] old(level)@[cell_index(c)] != 0,
    ensures
        bookkeeping(final(level)@, final(plan)@),
        levels_from(final(level)@, step as int),
        forall|i: int| 0 <= i < final(plan)@.len() ==> #[trigger] final(plan)@[i].step >= step,
        forall|c: Cell|
            in_matrix(c) && on_grid(c, step as int) ==> #[trigger] final(level)@[cell_index(c)] != 0,
{
    let mut x: usize = 0;
    while x < 256
        invariant
            bookkeeping(level@, plan@),
            is_fill_step(step as int),
            levels_from(level@, step as int),
            forall|i: int| 0 <= i < plan@.len() ==> #[trigger] plan@[i].step >= step,
            x % step == 0,
            x <= 384,
            step < COARSEST_STEP ==> forall|c: Cell|
                in_matrix(c) && on_grid(c, 2 * step) ==> #[trigger] level@[cell_index(c)] != 0,
            forall|c: Cell|
                in_matrix(c) && on_grid(c, step as int) && c.x < x ==> #[trigger] level@[cell_index(c)] != 0,
        decreases 384 - x,
    {
        let mut y: usize = 0;
        while y < 256
            invariant
                bookkeeping(level@, plan@),
                is_fill_step(step as int),
                levels_from(level@, step as int),
                forall|i: int| 0 <= i < plan@.len() ==> #[trigger] plan@[i].step >= step,
                x % step == 0,
                x < 256,
                y % step == 0,
                y <= 384,
                step < COARSEST_STEP ==> forall|c: Cell|
                    in_matrix(c) && on_grid(c, 2 * step) ==> #[trigger] level@[cell_index(c)] != 0,
                forall|c: Cell|
                    in_matrix(c) && on_grid(c, step as int) && (c.x < x || (c.x == x && c.y < y))
                        ==> #[trigger] level@[cell_index(c)] != 0,
            decreases 384 - y,
        {
            let idx = x * 256 + y;
            let c = Cell { x, y };
            assert(idx == cell_index(c));
            if level[idx] < step {
                let neighbours = assigned_neighbours(level, plan, c, step);
                proof {
                    lemma_drawn_step(level@, plan@, c, step as int, neighbours@);
                }
                let t = CellTask { cell: c, step, neighbours, push_extremes: step >= COARSEST_STEP };
                let ghost before_plan = plan@;
                let ghost before_level = level@;
                plan.push(t);
                level.set(idx, step);
                proof {
                    let n = before_plan.len() as int;
                    assert(plan@ == before_plan.push(t));
                    assert(level@ == before_level.update(idx as int, step));
                    assert(before_level[idx as int] == 0);
                    assert forall|i: int| 0 <= i < n implies #[trigger] before_plan[i].cell != c by {
                        assert(before_level[cell_index(before_plan[i].cell)] == before_plan[i].step);
                    }
                    assert forall|i: int| 0 <= i < plan@.len() implies {
                        &&& in_matrix(#[trigger] plan@[i].cell)
                        &&& level@[cell_index(plan@[i].cell)] == plan@[i].step
                        &&& plan@[i].step >= 1
                    } by {
                        if i < n {
                            assert(plan@[i] == before_plan[i]);
                            assert(cell_index(before_plan[i].cell) != idx);
                        }
                    }
                    assert forall|d: Cell|
                        in_matrix(d) && #[trigger] level@[cell_index(d)] != 0 implies scheduled(plan@, d) by {
                        if cell_index(d) == idx {
                            assert(d == c);
                            assert(plan@[n].cell == d);
                        } else {
                            assert(before_level[cell_index(d)] != 0);
                            assert(scheduled(before_plan, d));
                            let i = choose|i: int| 0 <= i < before_plan.len() && #[trigger] before_plan[i].cell == d;
                            assert(plan@[i] == before_plan[i]);
                        }
                    }
                    lemma_assigned_before_push(before_plan, t, n);
                    lemma_new_task_wf(before_plan, t);
                    assert forall|d: Cell| in_matrix(d) && before_level[cell_index(d)] != 0 implies #[trigger] level@[cell_index(d)] != 0 by {
                        if cell_index(d) != idx {
                            assert(level@[cell_index(d)] == before_level[cell_index(d)]);
                        }
                    }
                    assert forall|i: int| 0 <= i < plan@.len() implies #[trigger] task_wf(plan@, i) by {
                        if i < n {
                            lemma_task_wf_push(before_plan, t, i);
                        }
                    }
                    assert forall|i: int, j: int|
                        0 <= i < j < plan@.len() implies #[trigger] plan@[i].step >= #[trigger] plan@[j].step by {
                        assert(plan@[i] == before_plan[i]);
                    }
                    assert forall|i: int, j: int|
                        0 <= i < j < plan@.len() implies #[trigger] plan@[i].cell != #[trigger] plan@[j].cell by {
                        assert(plan@[i] == before_plan[i]);
                        if j < n {
                            assert(plan@[j] == before_plan[j]);
                        }
                    }
                }
            }
            proof {
                lemma_mod_add_multiples_vanish(y as int, step as int);
                assert(level@[cell_index(c)] != 0);
                assert forall|d: Cell|
                    in_matrix(d) && on_grid(d, step as int) && (d.x < x || (d.x == x && d.y < y + step))
                        implies #[trigger] level@[cell_index(d)] != 0 by {
                    if d.x == x && d.y >= y {
                        lemma_grid_gap(d.y as int, y as int, step as int);
                        assert(d == c);
                    }
                }
            }
            y = y + step;
        }
        proof {
            lemma_mod_add_multiples_vanish(x as int, step as int);
            assert forall|d: Cell|
                in_matrix(d) && on_grid(d, step as int) && d.x < x + step
                    implies #[trigger] level@[cell_index(d)] != 0 by {
                if d.x >= x {
                    lemma_grid_gap(d.x as int, x as int, step as int);
                }
            }
        }
        x = x + step;
    }
}

/// The complete fill of the value matrix, from the coarsest step to single
/// cells.
pub fn fill_schedule() -> (plan: Vec<CellTask>)
    ensures
        is_fill_schedule(plan@),
{
    let mut level: Vec<usize> = vec![0; VALMATRIX_CELLS];
    let mut plan: Vec<CellTask> = Vec::new();
    let mut step: usize = COARSEST_STEP;
    while step > 0
        invariant
            is_fill_step(step as int) || step == 0,
            bookkeeping(level@, plan@),
            levels_from(level@, step as int + 1),
            forall|i: int| 0 <= i < plan@.len() ==> #[trigger] plan@[i].step > step,
            0 < step < COARSEST_STEP ==> forall|c: Cell|
                in_matrix(c) && on_grid(c, 2 * step) ==> #[trigger] level@[cell_index(c)] != 0,
            step == 0 ==> forall|c: Cell| in_matrix(c) ==> #[trigger] level@[cell_index(c)] != 0,
        decreases step,
    {
        fill_step(&mut level, &mut plan, step);
        proof {
            if step == 1 {
                assert forall|c: Cell| in_matrix(c) implies #[trigger] level@[cell_index(c)] != 0 by {
                    assert(on_grid(c, 1));
                }
            }
        }
        step = step / 2;
    }
    proof {
        assert forall|c: Cell| in_matrix(c) implies #[trigger] scheduled(plan@, c) by {
            assert(level@[cell_index(c)] != 0);
        }
        lemma_covering_length(plan@);
    }
    plan
}

/// A schedule that draws every cell of the matrix, each at most once, has one
/// entry per cell.
proof fn lemma_covering_length(plan: Seq<CellTask>)
    requires
        forall|c: Cell| in_matrix(c) ==> #[trigger] scheduled(plan, c),
        forall|i: int, j: int|
            0 <= i < j < plan.len() ==> #[trigger] plan[i].cell != #[trigger] plan[j].cell,
        forall|i: int| 0 <= i < plan.len() ==> in_matrix(#[trigger] plan[i].cell),
    ensures
        plan.len() == VALMATRIX_CELLS,
{
    let idxs = plan.map_values(|t: CellTask| cell_index(t.cell));
    assert forall|i: int, j: int| 0 <= i < idxs.len() && 0 <= j < idxs.len() && i != j implies idxs[i] != idxs[j] by {
        assert(in_matrix(plan[i].cell));
        assert(in_matrix(plan[j].cell));
        if i < j {
            assert(plan[i].cell != plan[j].cell);
        } else {
            assert(plan[j].cell != plan[i].cell);
        }
    }
    assert(idxs.no_duplicates());
    idxs.unique_seq_to_set();
    assert forall|n: int| idxs.to_set().contains(n) <==> #[trigger] set_int_range(0, VALMATRIX_CELLS as int).contains(n) by {
        if idxs.to_set().contains(n) {
            let i = choose|i: int| 0 <= i < idxs.len() && idxs[i] == n;
            assert(in_matrix(plan[i].cell));
        }
        if 0 <= n < VALMATRIX_CELLS {
            lemma_fundamental_div_mod(n, 256);
            let c = Cell { x: (n / 256) as usize, y: (n % 256) as usize };
            assert(in_matrix(c));
            assert(scheduled(plan, c));
            let i = choose|i: int| 0 <= i < plan.len() && #[trigger] plan[i].cell == c;
            assert(idxs[i] == n);
            assert(idxs.contains(n));
        }
    }
    assert(idxs.to_set() =~= set_int_range(0, VALMATRIX_CELLS as int));
    lemma_int_range(0, VALMATRIX_CELLS as int);
}

/// In a fill schedule a cell, once drawn, is never drawn again at a finer
/// step; each cell is drawn at the coarsest step whose grid holds it; below
/// the coarsest step a draw is bounded by at least one neighbour; and every
/// neighbour that bounds a draw was drawn earlier at a strictly coarser step.
#[verifier::spinoff_prover]
pub proof fn lemma_levels_are_monotonic(plan: Seq<CellTask>, i: int, j: int)
    requires
        is_fill_schedule(plan),
        0 <= i < j < plan.len(),
    ensures
        plan[i].cell != plan[j].cell,
        plan[i].step >= plan[j].step,
        plan[j].step == first_step_of(plan[j].cell),
        plan[j].step < COARSEST_STEP ==> plan[j].neighbours@.len() > 0,
        forall|m: int|
            #![trigger plan[j].neighbours@[m]]
            0 <= m < plan[j].neighbours@.len() ==> exists|k: int|
                0 <= k < j && #[trigger] plan[k].cell == plan[j].neighbours@[m] && plan[k].step
                    > plan[j].step,
{
    assert(task_wf(plan, j));
    assert forall|m: int|
        #![trigger plan[j].neighbours@[m]]
        0 <= m < plan[j].neighbours@.len() implies exists|k: int|
        0 <= k < j && #[trigger] plan[k].cell == plan[j].neighbours@[m] && plan[k].step
            > plan[j].step by {
        let c = plan[j].neighbours@[m];
        assert(assigned_before(plan, j, c, plan[j].step as int));
        let k = choose|k: int| 0 <= k < j && #[trigger] plan[k].cell == c && plan[k].step > plan[j].step;
        assert(plan[k].cell == plan[j].neighbours@[m]);
    }
}

} // verus!
