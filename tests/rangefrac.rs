use jelatofish::generators::rangefrac::{
    fill_schedule, wrap, wrap_x, wrap_y, BoundingBox, Cell, Point, COARSEST_STEP,
    VALMATRIX_CELLS, VALMATRIX_SIZE,
};

#[test]
fn wrap_is_toroidal() {
    assert_eq!(wrap(0), 0);
    assert_eq!(wrap(255), 255);
    assert_eq!(wrap(256), 0);
    assert_eq!(wrap(300), 44);
    assert_eq!(wrap(-1), 255);
    assert_eq!(wrap(-128), 128);
    assert_eq!(wrap(-256), 0);
    assert_eq!(wrap(-257), 255);
    assert_eq!(wrap(i32::MIN), 0);
    assert_eq!(wrap(i32::MAX), 255);
    assert_eq!(wrap_x(-2), 254);
    assert_eq!(wrap_y(513), 1);
}

#[test]
fn bounding_box_corners() {
    let b = BoundingBox::new(-1, 4, 0, 5);
    assert_eq!(b.top_left, Point::new(-1, 4));
    assert_eq!(b.bottom_right, Point::new(0, 5));
    assert_eq!(
        b.corners(),
        vec![Point::new(-1, 4), Point::new(0, 4), Point::new(-1, 5), Point::new(0, 5)]
    );
}

#[test]
fn schedule_draws_every_cell_once() {
    let plan = fill_schedule();
    assert_eq!(plan.len(), VALMATRIX_CELLS);
    let mut order = vec![usize::MAX; VALMATRIX_CELLS];
    for (i, t) in plan.iter().enumerate() {
        let at = t.cell.x * VALMATRIX_SIZE + t.cell.y;
        assert_eq!(order[at], usize::MAX);
        order[at] = i;
    }
    assert!(order.iter().all(|i| *i != usize::MAX));
}

#[test]
fn schedule_goes_from_coarse_to_fine() {
    let plan = fill_schedule();
    for w in plan.windows(2) {
        assert!(w[0].step >= w[1].step);
    }
    assert_eq!(plan[0].step, COARSEST_STEP);
    assert_eq!(plan[plan.len() - 1].step, 1);
    for t in &plan {
        assert_eq!(t.cell.x % t.step, 0);
        assert_eq!(t.cell.y % t.step, 0);
        assert_eq!(t.push_extremes, t.step == COARSEST_STEP);
    }
}

#[test]
fn coarsest_cells_have_no_neighbours() {
    let plan = fill_schedule();
    let first: Vec<Cell> = plan.iter().take(4).map(|t| t.cell).collect();
    assert_eq!(
        first,
        vec![
            Cell { x: 0, y: 0 },
            Cell { x: 0, y: 128 },
            Cell { x: 128, y: 0 },
            Cell { x: 128, y: 128 },
        ]
    );
    assert!(plan.iter().take(4).all(|t| t.neighbours.is_empty() && t.push_extremes));
    assert_eq!(plan[4].step, 64);
    assert!(!plan[4].push_extremes);
}

#[test]
fn neighbours_were_drawn_earlier_at_coarser_steps() {
    let plan = fill_schedule();
    let mut drawn_at = vec![0usize; VALMATRIX_CELLS];
    for t in &plan {
        let s = t.step as i32;
        let (x, y) = (t.cell.x as i32, t.cell.y as i32);
        let mut expected = Vec::new();
        for (dx, dy) in [(-1, -1), (0, -1), (1, -1), (-1, 0), (1, 0), (-1, 1), (0, 1), (1, 1)] {
            let c = Cell { x: wrap(x + dx * s), y: wrap(y + dy * s) };
            if drawn_at[c.x * VALMATRIX_SIZE + c.y] > t.step {
                expected.push(c);
            }
        }
        assert_eq!(t.neighbours, expected);
        drawn_at[t.cell.x * VALMATRIX_SIZE + t.cell.y] = t.step;
    }
    // the cell (64, 64) is bounded by the four cells of the coarsest grid
    let t = plan.iter().find(|t| t.cell == Cell { x: 64, y: 64 }).unwrap();
    assert_eq!(t.step, 64);
    assert_eq!(t.neighbours.len(), 4);
}

fn first_step(x: usize, y: usize) -> usize {
    let mut s = COARSEST_STEP;
    while x % s != 0 || y % s != 0 {
        s /= 2;
    }
    s
}

#[test]
fn each_cell_is_drawn_at_its_coarsest_grid_step() {
    let plan = fill_schedule();
    for t in &plan {
        assert_eq!(t.step, first_step(t.cell.x, t.cell.y));
    }
    assert_eq!(first_step(0, 0), 128);
    assert_eq!(first_step(96, 32), 32);
    assert_eq!(first_step(255, 0), 1);
}

#[test]
fn finer_draws_always_have_a_bounding_neighbour() {
    let plan = fill_schedule();
    for t in plan.iter().filter(|t| t.step < COARSEST_STEP) {
        assert!(!t.neighbours.is_empty(), "{:?}", t.cell);
    }
    let t = plan.iter().find(|t| t.cell == Cell { x: 1, y: 1 }).unwrap();
    assert_eq!(t.neighbours.len(), 4);
    let t = plan.iter().find(|t| t.cell == Cell { x: 1, y: 0 }).unwrap();
    assert_eq!(t.neighbours, vec![Cell { x: 0, y: 0 }, Cell { x: 2, y: 0 }]);
}
