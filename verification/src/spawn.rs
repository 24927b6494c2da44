//! Spawning of food and hazard cells: uniform choice over the explicitly
//! computed set of free grid cells, so the degenerate full-grid case
//! surfaces as an error instead of a non-terminating retry loop.

use vstd::prelude::*;
use crate::grid::{Coord, GRID_WIDTH, GRID_HEIGHT, in_bounds_spec, contains_coord};
use crate::rng::random_index;

verus! {

/// Spawning failed because every grid cell was excluded.
#[derive(Clone, Copy, PartialEq, Eq, Structural, Debug)]
pub enum SpawnError {
    ExhaustedGrid,
}

/// The excluded set covers the whole grid: no free cell remains.
pub open spec fn covers_grid(excluded: Seq<Coord>) -> bool {
    forall|c: Coord| in_bounds_spec(c) ==> excluded.contains(c)
}

/// All on-grid cells that are not in `excluded`, in row-major order.
fn free_cells(excluded: &Vec<Coord>) -> (r: Vec<Coord>)
    ensures
        forall|c: Coord| #[trigger]
            r@.contains(c) <==> (in_bounds_spec(c) && !excluded@.contains(c)),
{
    let mut out: Vec<Coord> = Vec::new();
    let mut y: i32 = 0;
    while y < GRID_HEIGHT
        invariant
            0 <= y <= GRID_HEIGHT,
            forall|c: Coord| #[trigger]
                out@.contains(c) <==> (in_bounds_spec(c) && c.y < y && !excluded@.contains(c)),
        decreases GRID_HEIGHT - y,
    {
        let mut x: i32 = 0;
        while x < GRID_WIDTH
            invariant
                0 <= y < GRID_HEIGHT,
                0 <= x <= GRID_WIDTH,
                forall|c: Coord| #[trigger]
                    out@.contains(c) <==> (in_bounds_spec(c) && !excluded@.contains(c) && (c.y < y
                        || (c.y == y && c.x < x))),
            decreases GRID_WIDTH - x,
        {
            let p = Coord { x, y };
            if !contains_coord(excluded, p) {
                let ghost prev = out@;
                out.push(p);
                proof {
                    assert forall|c: Coord| #[trigger] out@.contains(c) implies (in_bounds_spec(c)
                        && !excluded@.contains(c) && (c.y < y || (c.y == y && c.x < x + 1))) by {
                        if c != p {
                            assert(prev.contains(c)) by {
                                let i = choose|i: int| 0 <= i < out@.len() && out@[i] == c;
                                assert(prev[i] == c);
                            }
                        }
                    }
                    assert(out@.contains(p)) by {
                        assert(out@[out@.len() - 1] == p);
                    }
                    assert forall|c: Coord|
                        in_bounds_spec(c) && !excluded@.contains(c) && (c.y < y || (c.y == y && c.x
                            < x + 1)) implies #[trigger] out@.contains(c) by {
                        if c != p {
                            assert(prev.contains(c));
                            let i = choose|i: int| 0 <= i < prev.len() && prev[i] == c;
                            assert(out@[i] == c);
                        }
                    }
                }
            }
            x = x + 1;
        }
        y = y + 1;
    }
    proof {
        assert forall|c: Coord| #[trigger]
            out@.contains(c) <==> (in_bounds_spec(c) && !excluded@.contains(c)) by {
            if in_bounds_spec(c) && !excluded@.contains(c) {
                assert(c.y < GRID_HEIGHT);
            }
        }
    }
    out
}

/// Pick a uniformly random free grid cell outside `excluded`; fails with
/// `ExhaustedGrid` exactly when `excluded` covers the whole grid.
pub fn spawn_free_cell(excluded: &Vec<Coord>) -> (r: Result<Coord, SpawnError>)
    ensures
        match r {
            Ok(p) => in_bounds_spec(p) && !excluded@.contains(p),
            Err(e) => e == SpawnError::ExhaustedGrid,
        },
        r is Err <==> covers_grid(excluded@),
{
    let free = free_cells(excluded);
    if free.len() == 0 {
        proof {
            assert forall|c: Coord| in_bounds_spec(c) implies excluded@.contains(c) by {
                if !excluded@.contains(c) {
                    assert(free@.contains(c));
                }
            }
        }
        Err(SpawnError::ExhaustedGrid)
    } else {
        proof {
            assert(free@.contains(free@[0]));
            let ghost w = free@[0];
            assert(in_bounds_spec(w) && !excluded@.contains(w));
            assert(!covers_grid(excluded@));
        }
        let i = random_index(free.len());
        let p = free[i];
        proof {
            assert(free@.contains(free@[i as int]));
        }
        Ok(p)
    }
}

/// Spawn a food cell avoiding every obstacle segment.
pub fn spawn_food(obstacles: &Vec<Coord>) -> (r: Result<Coord, SpawnError>)
    ensures
        match r {
            Ok(p) => in_bounds_spec(p) && !obstacles@.contains(p),
            Err(e) => e == SpawnError::ExhaustedGrid,
        },
        r is Err <==> covers_grid(obstacles@),
{
    spawn_free_cell(obstacles)
}

/// Spawn a cell avoiding every obstacle segment and one further cell;
/// used to reposition food away from the hazard and the hazard away
/// from the food.
pub fn spawn_cell_avoiding(obstacles: &Vec<Coord>, avoid: Coord) -> (r: Result<Coord, SpawnError>)
    ensures
        match r {
            Ok(p) => in_bounds_spec(p) && !obstacles@.contains(p) && p != avoid,
            Err(e) => e == SpawnError::ExhaustedGrid,
        },
        r is Err <==> covers_grid(obstacles@.push(avoid)),
{
    let mut excluded: Vec<Coord> = Vec::new();
    let mut i: usize = 0;
    while i < obstacles.len()
        invariant
            0 <= i <= obstacles@.len(),
            excluded@ == obstacles@.take(i as int),
        decreases obstacles@.len() - i,
    {
        excluded.push(obstacles[i]);
        proof {
            assert(excluded@ =~= obstacles@.take(i + 1));
        }
        i = i + 1;
    }
    proof {
        assert(excluded@ =~= obstacles@);
    }
    excluded.push(avoid);
    let r = spawn_free_cell(&excluded);
    proof {
        if let Ok(p) = r {
            assert(!excluded@.contains(p));
            assert(excluded@[excluded@.len() - 1] == avoid);
            assert forall|c: Coord| obstacles@.contains(c) implies excluded@.contains(c) by {
                let j = choose|j: int| 0 <= j < obstacles@.len() && obstacles@[j] == c;
                assert(excluded@[j] == c);
            }
        }
    }
    r
}

/// Spawn a hazard cell avoiding every obstacle segment and the food.
pub fn spawn_block(obstacles: &Vec<Coord>, food: Coord) -> (r: Result<Coord, SpawnError>)
    ensures
        match r {
            Ok(p) => in_bounds_spec(p) && !obstacles@.contains(p) && p != food,
            Err(e) => e == SpawnError::ExhaustedGrid,
        },
        r is Err <==> covers_grid(obstacles@.push(food)),
{
    spawn_cell_avoiding(obstacles, food)
}

} // verus!
