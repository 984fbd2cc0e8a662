//! The heat grid on the floor of the room.
//!
//! The grid has `S` by `S` cells, stored row by row (`z` selects the row,
//! `x` the column). The values in the cells are of any copyable type: the
//! arithmetic on them is handed in by the caller as a function, and this
//! module fixes which cells take part and how they are combined.

use vstd::prelude::*;

verus! {

/// Number of cells along one side of the grid (also the texture size).
pub const SIZE: u32 = 64;

/// Number of cells along one side of the grid, as an index.
pub const S: usize = 64;

/// Number of cells in the grid.
pub const CELLS: usize = 4096;

/// The index of the cell in column `x` and row `z`.
pub open spec fn cell_index(x: int, z: int) -> int {
    z * (S as int) + x
}

/// Whether `(x, z)` names a cell of the grid.
pub open spec fn in_grid(x: int, z: int) -> bool {
    0 <= x < S as int && 0 <= z < S as int
}

/// The heat grid: the current values and a scratch buffer of the same size
/// that the diffusion step writes into before the two are exchanged.
pub struct HeatMap<T> {
    data: Vec<T>,
    temp: Vec<T>,
}

impl<T> HeatMap<T> {
    /// Both buffers hold one value per cell.
    #[verifier::type_invariant]
    spec fn well_sized(&self) -> bool {
        &&& self.data@.len() == CELLS
        &&& self.temp@.len() == CELLS
    }
}

impl<T> View for HeatMap<T> {
    type V = Seq<T>;

    /// The values of the cells, row by row.
    closed spec fn view(&self) -> Seq<T> {
        self.data@
    }
}

/// Makes a grid whose cells all hold `zero`.
pub fn create<T: Copy>(zero: T) -> (heat: HeatMap<T>)
    ensures
        heat@ == Seq::new(CELLS as nat, |i: int| zero),
{
    let mut data: Vec<T> = Vec::new();
    let mut temp: Vec<T> = Vec::new();
    let mut i: usize = 0;
    while i < CELLS
        invariant
            i <= CELLS,
            data@.len() == i,
            temp@.len() == i,
            forall|j: int| 0 <= j < i ==> data@[j] == zero,
        decreases CELLS - i,
    {
        data.push(zero);
        temp.push(zero);
        i = i + 1;
    }
    assert(data@ =~= Seq::new(CELLS as nat, |i: int| zero));
    HeatMap { data, temp }
}

/// The radius that a stamp of requested radius `radius` covers: at least one cell.
pub open spec fn footprint_radius(radius: i32) -> int {
    if radius < 1 { 1 } else { radius as int }
}

/// The squared distance, in cells, from the centre `(cx, cz)` to the cell `(x, z)`.
pub open spec fn dist_sq(cx: int, cz: int, x: int, z: int) -> int {
    (x - cx) * (x - cx) + (z - cz) * (z - cz)
}

/// Whether the cell `(x, z)` lies in the footprint of a stamp of radius `r`
/// centred on `(cx, cz)`: it is a cell of the grid and no farther than `r`
/// from the centre.
pub open spec fn in_footprint(cx: int, cz: int, r: int, x: int, z: int) -> bool {
    in_grid(x, z) && dist_sq(cx, cz, x, z) <= r * r
}

/// What a stamp does to the cell `(x, z)`: a cell of the footprint takes what
/// `blend` gives for its old value, its squared distance and the squared
/// radius; every other cell keeps its value.
pub open spec fn stamped_cell<T, F: Fn(T, u64, u64) -> T>(
    before: T,
    after: T,
    cx: int,
    cz: int,
    r: int,
    x: int,
    z: int,
    blend: F,
) -> bool {
    if in_footprint(cx, cz, r, x, z) {
        blend.ensures((before, dist_sq(cx, cz, x, z) as u64, (r * r) as u64), after)
    } else {
        after == before
    }
}

/// A stamp of `blend` with radius `r` at `(cx, cz)` turns the cells `before`
/// into the cells `after`.
pub open spec fn stamped<T, F: Fn(T, u64, u64) -> T>(
    before: Seq<T>,
    after: Seq<T>,
    cx: int,
    cz: int,
    r: int,
    blend: F,
) -> bool {
    &&& before.len() == CELLS
    &&& after.len() == CELLS
    &&& forall|x: int, z: int|
        #![trigger after[cell_index(x, z)]]
        in_grid(x, z) ==> stamped_cell(
            before[cell_index(x, z)],
            after[cell_index(x, z)],
            cx,
            cz,
            r,
            x,
            z,
            blend,
        )
}

proof fn lemma_square_bound(d: int, r: int)
    requires
        r >= 0,
    ensures
        d * d <= r * r <==> -r <= d <= r,
{
    if d > r {
        assert(d * d > r * r) by (nonlinear_arith)
            requires
                d > r,
                r >= 0,
        ;
    } else if d < -r {
        assert(d * d > r * r) by (nonlinear_arith)
            requires
                d < -r,
                r >= 0,
        ;
    } else {
        assert(d * d <= r * r) by (nonlinear_arith)
            requires
                -r <= d <= r,
                r >= 0,
        ;
    }
}

proof fn lemma_outside_band(cx: int, cz: int, r: int, x: int, z: int)
    requires
        r >= 0,
        z < cz - r || z > cz + r || x < cx - r || x > cx + r,
    ensures
        !in_footprint(cx, cz, r, x, z),
{
    lemma_square_bound(z - cz, r);
    lemma_square_bound(x - cx, r);
    assert((x - cx) * (x - cx) >= 0) by (nonlinear_arith);
    assert((z - cz) * (z - cz) >= 0) by (nonlinear_arith);
}

/// Writes a round blob onto the grid. The blob is centred on the cell
/// `(cx, cz)` (which may lie off the grid) and has radius `radius` cells, or
/// one cell where `radius` is smaller. Every cell of the grid that lies
/// within that radius of the centre takes the value that `blend` returns for
/// its old value, its squared distance from the centre and the squared
/// radius; all other cells keep their values.
pub fn stamp<T: Copy, F: Fn(T, u64, u64) -> T>(
    heat: &mut HeatMap<T>,
    cx: i32,
    cz: i32,
    radius: i32,
    blend: F,
)
    requires
        forall|v: T, d: u64, r2: u64| blend.requires((v, d, r2)),
    ensures
        stamped(old(heat)@, final(heat)@, cx as int, cz as int, footprint_radius(radius), blend),
{
    proof {
        use_type_invariant(&*heat);
    }
    let ghost before = heat@;
    let ghost gr = footprint_radius(radius);
    let r: i64 = if radius < 1 { 1 } else { radius as i64 };
    assert(r * r <= 0x4000_0000_0000_0000) by (nonlinear_arith)
        requires
            1 <= r <= 0x7fff_ffff,
    ;
    let r2: i64 = r * r;
    // Visit, row by row, the part of the square around the centre that lies
    // on the grid; distances are computed in 64 bits, where they cannot overflow.
    let cx64: i64 = cx as i64;
    let cz64: i64 = cz as i64;
    let z_lo: i64 = if cz64 - r > 0 { cz64 - r } else { 0 };
    let z_hi: i64 = if cz64 + r < 63 { cz64 + r } else { 63 };
    let x_lo: i64 = if cx64 - r > 0 { cx64 - r } else { 0 };
    let x_hi: i64 = if cx64 + r < 63 { cx64 + r } else { 63 };
    let mut z: i64 = z_lo;
    proof {
        assert forall|xx: int, zz: int|
            #![trigger heat@[cell_index(xx, zz)]]
            in_grid(xx, zz) && zz < z implies
                !in_footprint(cx as int, cz as int, gr, xx, zz) by {
            lemma_outside_band(cx as int, cz as int, gr, xx, zz);
        }
    }
    while z <= z_hi
        invariant
            forall|v: T, d: u64, rr: u64| blend.requires((v, d, rr)),
            before.len() == CELLS,
            heat.data@.len() == CELLS,
            heat.temp@.len() == CELLS,
            heat@.len() == CELLS,
            gr == r,
            1 <= r <= 0x7fff_ffff,
            r2 == r * r,
            cx64 == cx,
            cz64 == cz,
            z_lo == (if cz - r > 0 { cz - r } else { 0 }),
            z_hi == (if cz + r < 63 { cz + r } else { 63 }),
            x_lo == (if cx - r > 0 { cx - r } else { 0 }),
            x_hi == (if cx + r < 63 { cx + r } else { 63 }),
            z_lo <= z,
            z <= z_hi + 1 || z == z_lo,
            forall|xx: int, zz: int|
                #![trigger heat@[cell_index(xx, zz)]]
                in_grid(xx, zz) ==> if zz < z {
                    stamped_cell(before[cell_index(xx, zz)], heat@[cell_index(xx, zz)], cx as int, cz as int, gr, xx, zz, blend)
                } else {
                    heat@[cell_index(xx, zz)] == before[cell_index(xx, zz)]
                },
        decreases z_hi + 1 - z,
    {
        let mut x: i64 = x_lo;
        proof {
            assert forall|xx: int, zz: int|
                #![trigger heat@[cell_index(xx, zz)]]
                in_grid(xx, zz) && zz == z && xx < x implies
                    !in_footprint(cx as int, cz as int, gr, xx, zz) by {
                lemma_outside_band(cx as int, cz as int, gr, xx, zz);
            }
        }
        while x <= x_hi
            invariant
                forall|v: T, d: u64, rr: u64| blend.requires((v, d, rr)),
                before.len() == CELLS,
                heat.data@.len() == CELLS,
            heat.temp@.len() == CELLS,
                heat@.len() == CELLS,
                gr == r,
                1 <= r <= 0x7fff_ffff,
                r2 == r * r,
                cx64 == cx,
                cz64 == cz,
                z_lo == (if cz - r > 0 { cz - r } else { 0 }),
                z_hi == (if cz + r < 63 { cz + r } else { 63 }),
                x_lo == (if cx - r > 0 { cx - r } else { 0 }),
                x_hi == (if cx + r < 63 { cx + r } else { 63 }),
                z_lo <= z <= z_hi,
                x_lo <= x,
                x <= x_hi + 1 || x == x_lo,
                forall|xx: int, zz: int|
                    #![trigger heat@[cell_index(xx, zz)]]
                    in_grid(xx, zz) ==> if zz < z || (zz == z && xx < x) {
                        stamped_cell(before[cell_index(xx, zz)], heat@[cell_index(xx, zz)], cx as int, cz as int, gr, xx, zz, blend)
                    } else {
                        heat@[cell_index(xx, zz)] == before[cell_index(xx, zz)]
                    },
            decreases x_hi + 1 - x,
        {
            let dx: i64 = x - cx64;
            let dz: i64 = z - cz64;
            assert(dx * dx <= 0x3fff_ffff_0000_0001 && dz * dz <= 0x3fff_ffff_0000_0001)
                by (nonlinear_arith)
                requires
                    -0x7fff_ffff <= dx <= 0x7fff_ffff,
                    -0x7fff_ffff <= dz <= 0x7fff_ffff,
            ;
            assert(dx * dx >= 0 && dz * dz >= 0) by (nonlinear_arith);
            let d2: i64 = dx * dx + dz * dz;
            let idx: usize = (z * 64 + x) as usize;
            assert(idx == cell_index(x as int, z as int));
            if d2 <= r2 {
                let v = blend(heat.data[idx], d2 as u64, r2 as u64);
                heat.data[idx] = v;
            }
            proof {
                if d2 > r2 {
                    assert(!in_footprint(cx as int, cz as int, gr, x as int, z as int));
                }
                assert forall|xx: int, zz: int|
                    #![trigger heat@[cell_index(xx, zz)]]
                    in_grid(xx, zz) && (zz != z || xx != x) implies
                        cell_index(xx, zz) != idx by {}
            }
            x = x + 1;
        }
        proof {
            assert forall|xx: int, zz: int|
                #![trigger heat@[cell_index(xx, zz)]]
                in_grid(xx, zz) && zz == z && xx > x_hi implies
                    !in_footprint(cx as int, cz as int, gr, xx, zz) by {
                lemma_outside_band(cx as int, cz as int, gr, xx, zz);
            }
        }
        z = z + 1;
    }
    proof {
        assert forall|xx: int, zz: int|
            #![trigger heat@[cell_index(xx, zz)]]
            in_grid(xx, zz) && (zz >= z) implies
                !in_footprint(cx as int, cz as int, gr, xx, zz) by {
            lemma_outside_band(cx as int, cz as int, gr, xx, zz);
        }
    }
}

/// The cell to the left of `(x, z)`, or the cell itself on the left edge.
pub open spec fn left_of(x: int, z: int) -> int {
    if x > 0 { cell_index(x - 1, z) } else { cell_index(x, z) }
}

/// The cell to the right of `(x, z)`, or the cell itself on the right edge.
pub open spec fn right_of(x: int, z: int) -> int {
    if x < S - 1 { cell_index(x + 1, z) } else { cell_index(x, z) }
}

/// The cell in the row before `(x, z)`, or the cell itself in the first row.
pub open spec fn up_of(x: int, z: int) -> int {
    if z > 0 { cell_index(x, z - 1) } else { cell_index(x, z) }
}

/// The cell in the row after `(x, z)`, or the cell itself in the last row.
pub open spec fn down_of(x: int, z: int) -> int {
    if z < S - 1 { cell_index(x, z + 1) } else { cell_index(x, z) }
}

/// The cell `(x, z)` of `after` is what `kernel` gives for the cell and its
/// four neighbours (left, right, up, down) in `before`.
pub open spec fn diffused_cell<T, F: Fn(T, T, T, T, T) -> T>(
    before: Seq<T>,
    after: Seq<T>,
    x: int,
    z: int,
    kernel: F,
) -> bool {
    kernel.ensures(
        (
            before[cell_index(x, z)],
            before[left_of(x, z)],
            before[right_of(x, z)],
            before[up_of(x, z)],
            before[down_of(x, z)],
        ),
        after[cell_index(x, z)],
    )
}

/// One diffusion step with `kernel` turns the cells `before` into `after`.
pub open spec fn diffused<T, F: Fn(T, T, T, T, T) -> T>(
    before: Seq<T>,
    after: Seq<T>,
    kernel: F,
) -> bool {
    &&& before.len() == CELLS
    &&& after.len() == CELLS
    &&& forall|x: int, z: int|
        #![trigger after[cell_index(x, z)]]
        in_grid(x, z) ==> diffused_cell(before, after, x, z, kernel)
}

/// One step of five-point diffusion. Every cell takes the value that
/// `kernel` returns for the old values of the cell and of its left, right,
/// upper and lower neighbours, where a neighbour that would lie off the grid
/// is the cell itself. All new values are computed from the old ones: the
/// step writes them into the scratch buffer and then exchanges the buffers.
pub fn diffuse<T: Copy, F: Fn(T, T, T, T, T) -> T>(heat: &mut HeatMap<T>, kernel: F)
    requires
        forall|c: T, l: T, r: T, u: T, d: T| kernel.requires((c, l, r, u, d)),
    ensures
        diffused(old(heat)@, final(heat)@, kernel),
{
    proof {
        use_type_invariant(&*heat);
    }
    let ghost before = heat@;
    let mut z: usize = 0;
    while z < S
        invariant
            forall|c: T, l: T, r: T, u: T, d: T| kernel.requires((c, l, r, u, d)),
            heat.data@.len() == CELLS,
            heat.temp@.len() == CELLS,
            heat@ == before,
            z <= S,
            forall|xx: int, zz: int|
                #![trigger heat.temp@[cell_index(xx, zz)]]
                in_grid(xx, zz) && zz < z ==> diffused_cell(before, heat.temp@, xx, zz, kernel),
        decreases S - z,
    {
        let mut x: usize = 0;
        while x < S
            invariant
                forall|c: T, l: T, r: T, u: T, d: T| kernel.requires((c, l, r, u, d)),
                heat.data@.len() == CELLS,
            heat.temp@.len() == CELLS,
                heat@ == before,
                z < S,
                x <= S,
                forall|xx: int, zz: int|
                    #![trigger heat.temp@[cell_index(xx, zz)]]
                    in_grid(xx, zz) && (zz < z || (zz == z && xx < x)) ==> diffused_cell(
                        before,
                        heat.temp@,
                        xx,
                        zz,
                        kernel,
                    ),
            decreases S - x,
        {
            let i: usize = z * S + x;
            let c = heat.data[i];
            let l = if x > 0 { heat.data[i - 1] } else { c };
            let r = if x < S - 1 { heat.data[i + 1] } else { c };
            let u = if z > 0 { heat.data[i - S] } else { c };
            let d = if z < S - 1 { heat.data[i + S] } else { c };
            let v = kernel(c, l, r, u, d);
            heat.temp[i] = v;
            proof {
                assert(i == cell_index(x as int, z as int));
                assert forall|xx: int, zz: int|
                    #![trigger heat.temp@[cell_index(xx, zz)]]
                    in_grid(xx, zz) && (zz < z || (zz == z && xx < x + 1)) implies diffused_cell(
                        before,
                        heat.temp@,
                        xx,
                        zz,
                        kernel,
                    ) by {
                    if zz == z && xx == x {
                    } else {
                        assert(cell_index(xx, zz) != i);
                    }
                }
            }
            x = x + 1;
        }
        z = z + 1;
    }
    std::mem::swap(&mut heat.data, &mut heat.temp);
}

impl<T> HeatMap<T> {
    /// The values of the cells, row by row (what is uploaded to the texture).
    pub fn cells(&self) -> (cells: &[T])
        ensures
            cells@ == self@,
            cells@.len() == CELLS,
    {
        proof {
            use_type_invariant(self);
        }
        self.data.as_slice()
    }
}

/// Every cell of the grid has exactly one index, and every index below
/// `CELLS` names a cell.
pub proof fn lemma_cell_index_bijective(i: int)
    requires
        0 <= i < CELLS,
    ensures
        in_grid(i % (S as int), i / (S as int)),
        cell_index(i % (S as int), i / (S as int)) == i,
        forall|x: int, z: int|
            in_grid(x, z) && #[trigger] cell_index(x, z) == i ==> x == i % (S as int) && z == i / (S as int),
{
}

/// The neighbours that diffusion reads are cells of the grid, and the
/// neighbour relation is symmetric: when a cell's left (upper) neighbour is
/// another cell, that cell's right (lower) neighbour is the first cell.
pub proof fn lemma_neighbours_symmetric(x: int, z: int)
    requires
        in_grid(x, z),
    ensures
        0 <= left_of(x, z) < CELLS,
        0 <= right_of(x, z) < CELLS,
        0 <= up_of(x, z) < CELLS,
        0 <= down_of(x, z) < CELLS,
        left_of(x, z) != cell_index(x, z) ==> right_of(x - 1, z) == cell_index(x, z),
        right_of(x, z) != cell_index(x, z) ==> left_of(x + 1, z) == cell_index(x, z),
        up_of(x, z) != cell_index(x, z) ==> down_of(x, z - 1) == cell_index(x, z),
        down_of(x, z) != cell_index(x, z) ==> up_of(x, z + 1) == cell_index(x, z),
{
}

/// A stamp always covers its centre cell when the centre lies on the grid.
pub proof fn lemma_centre_in_footprint(cx: int, cz: int, radius: i32)
    requires
        in_grid(cx, cz),
    ensures
        in_footprint(cx, cz, footprint_radius(radius), cx, cz),
{
    let r: int = footprint_radius(radius);
    assert(r * r >= 0) by (nonlinear_arith);
}

/// Diffusion keeps every property of single cells that the kernel keeps:
/// when all old cells have property `p`, and the kernel returns a value with
/// `p` whenever the five values it is given have `p`, all new cells have `p`
/// (for instance: heat stays within its bounds).
pub proof fn lemma_diffuse_keeps<T, F: Fn(T, T, T, T, T) -> T>(
    before: Seq<T>,
    after: Seq<T>,
    kernel: F,
    p: spec_fn(T) -> bool,
)
    requires
        diffused(before, after, kernel),
        forall|i: int| 0 <= i < CELLS ==> #[trigger] p(before[i]),
        forall|c: T, l: T, r: T, u: T, d: T, v: T|
            p(c) && p(l) && p(r) && p(u) && p(d) && #[trigger] kernel.ensures((c, l, r, u, d), v)
                ==> p(v),
    ensures
        forall|i: int| 0 <= i < CELLS ==> #[trigger] p(after[i]),
{
    assert forall|i: int| 0 <= i < CELLS implies #[trigger] p(after[i]) by {
        lemma_cell_index_bijective(i);
        let x: int = i % (S as int);
        let z: int = i / (S as int);
        lemma_neighbours_symmetric(x, z);
        assert(diffused_cell(before, after, x, z, kernel));
        assert(p(before[left_of(x, z)]));
        assert(p(before[right_of(x, z)]));
        assert(p(before[up_of(x, z)]));
        assert(p(before[down_of(x, z)]));
        assert(p(before[cell_index(x, z)]));
    }
}

/// A stamp keeps every property of single cells that `blend` keeps: when all
/// old cells have property `p`, and `blend` returns a value with `p` whenever
/// it is given one, all cells have `p` afterwards.
pub proof fn lemma_stamp_keeps<T, F: Fn(T, u64, u64) -> T>(
    before: Seq<T>,
    after: Seq<T>,
    cx: int,
    cz: int,
    r: int,
    blend: F,
    p: spec_fn(T) -> bool,
)
    requires
        stamped(before, after, cx, cz, r, blend),
        forall|i: int| 0 <= i < CELLS ==> #[trigger] p(before[i]),
        forall|v: T, d: u64, r2: u64, w: T| p(v) && #[trigger] blend.ensures((v, d, r2), w) ==> p(w),
    ensures
        forall|i: int| 0 <= i < CELLS ==> #[trigger] p(after[i]),
{
    assert forall|i: int| 0 <= i < CELLS implies #[trigger] p(after[i]) by {
        lemma_cell_index_bijective(i);
        let x: int = i % (S as int);
        let z: int = i / (S as int);
        assert(stamped_cell(before[cell_index(x, z)], after[cell_index(x, z)], cx, cz, r, x, z, blend));
        assert(p(before[cell_index(x, z)]));
    }
}

/// The neighbours that diffusion reads lie in the cell's own row (left and
/// right) or column (up and down), one step away, or are the cell itself at
/// the edge of the grid: heat never crosses from one side of the floor to
/// the other.
pub proof fn lemma_neighbours_in_line(x: int, z: int)
    requires
        in_grid(x, z),
    ensures
        left_of(x, z) / (S as int) == z,
        left_of(x, z) % (S as int) == (if x > 0 { x - 1 } else { x }),
        right_of(x, z) / (S as int) == z,
        right_of(x, z) % (S as int) == (if x < S - 1 { x + 1 } else { x }),
        up_of(x, z) % (S as int) == x,
        up_of(x, z) / (S as int) == (if z > 0 { z - 1 } else { z }),
        down_of(x, z) % (S as int) == x,
        down_of(x, z) / (S as int) == (if z < S - 1 { z + 1 } else { z }),
{
    let lx: int = if x > 0 { x - 1 } else { x };
    let rx: int = if x < S - 1 { x + 1 } else { x };
    let uz: int = if z > 0 { z - 1 } else { z };
    let dz: int = if z < S - 1 { z + 1 } else { z };
    lemma_index_coordinates(lx, z);
    lemma_index_coordinates(rx, z);
    lemma_index_coordinates(x, uz);
    lemma_index_coordinates(x, dz);
}

proof fn lemma_index_coordinates(x: int, z: int)
    requires
        in_grid(x, z),
    ensures
        cell_index(x, z) / (S as int) == z,
        cell_index(x, z) % (S as int) == x,
{
    vstd::arithmetic::div_mod::lemma_fundamental_div_mod_converse(cell_index(x, z), S as int, z, x);
}

/// What one diffusion step gives each cell, in coordinates: the kernel is
/// handed the old values of the cell `(x, z)`, of `(x - 1, z)` and
/// `(x + 1, z)` in its row and of `(x, z - 1)` and `(x, z + 1)` in its
/// column, each coordinate kept on the grid (a neighbour past an edge is
/// the cell itself).
pub proof fn lemma_diffuse_reads_cross<T, F: Fn(T, T, T, T, T) -> T>(
    before: Seq<T>,
    after: Seq<T>,
    kernel: F,
    x: int,
    z: int,
)
    requires
        diffused(before, after, kernel),
        in_grid(x, z),
    ensures
        kernel.ensures(
            (
                before[z * 64 + x],
                before[z * 64 + (if x > 0 { x - 1 } else { 0 })],
                before[z * 64 + (if x < 63 { x + 1 } else { 63 })],
                before[(if z > 0 { z - 1 } else { 0 }) * 64 + x],
                before[(if z < 63 { z + 1 } else { 63 }) * 64 + x],
            ),
            after[z * 64 + x],
        ),
{
    assert(diffused_cell(before, after, x, z, kernel));
}

/// The radius that a stamp covers is the requested one, or one cell when a
/// smaller one (zero or negative) is asked for.
pub proof fn lemma_footprint_radius(radius: i32)
    ensures
        footprint_radius(radius) >= 1,
        footprint_radius(radius) >= radius,
        radius >= 1 ==> footprint_radius(radius) == radius,
        radius < 1 ==> footprint_radius(radius) == 1,
{
}

/// The footprint of a stamp is the round disk of its radius, clipped to the
/// grid: a cell of the grid at `k <= r` cells from the centre along a row or
/// a column is covered, and no cell more than `r` cells away along either
/// axis is; the distance handed to `blend` is the squared Euclidean one.
pub proof fn lemma_footprint_is_disk(cx: int, cz: int, r: int, x: int, z: int)
    requires
        r >= 1,
    ensures
        dist_sq(cx, cz, x, z) == (x - cx) * (x - cx) + (z - cz) * (z - cz),
        dist_sq(cx, cz, x, z) >= 0,
        in_grid(x, z) && z == cz && -r <= x - cx <= r ==> in_footprint(cx, cz, r, x, z),
        in_grid(x, z) && x == cx && -r <= z - cz <= r ==> in_footprint(cx, cz, r, x, z),
        (x - cx > r || cx - x > r || z - cz > r || cz - z > r) ==> !in_footprint(cx, cz, r, x, z),
        !in_grid(x, z) ==> !in_footprint(cx, cz, r, x, z),
{
    lemma_square_bound(x - cx, r);
    lemma_square_bound(z - cz, r);
    assert((x - cx) * (x - cx) >= 0) by (nonlinear_arith);
    assert((z - cz) * (z - cz) >= 0) by (nonlinear_arith);
    if z == cz {
        assert((z - cz) * (z - cz) == 0) by (nonlinear_arith)
            requires
                z == cz,
        ;
    }
    if x == cx {
        assert((x - cx) * (x - cx) == 0) by (nonlinear_arith)
            requires
                x == cx,
        ;
    }
    if x - cx > r || cx - x > r || z - cz > r || cz - z > r {
        lemma_outside_band(cx, cz, r, x, z);
    }
}

/// What a stamp gives each cell, in coordinates: a cell `(x, z)` of the grid
/// whose squared distance `(x - cx)² + (z - cz)²` from the centre is at most
/// `r²` takes what `blend` returns for its old value, that squared distance
/// and `r²`; every other cell keeps its value.
pub proof fn lemma_stamp_cell<T, F: Fn(T, u64, u64) -> T>(
    before: Seq<T>,
    after: Seq<T>,
    cx: int,
    cz: int,
    r: int,
    blend: F,
    x: int,
    z: int,
)
    requires
        stamped(before, after, cx, cz, r, blend),
        in_grid(x, z),
    ensures
        (x - cx) * (x - cx) + (z - cz) * (z - cz) <= r * r ==> blend.ensures(
            (
                before[z * 64 + x],
                ((x - cx) * (x - cx) + (z - cz) * (z - cz)) as u64,
                (r * r) as u64,
            ),
            after[z * 64 + x],
        ),
        (x - cx) * (x - cx) + (z - cz) * (z - cz) > r * r ==> after[z * 64 + x] == before[z * 64 + x],
{
    assert(stamped_cell(before[cell_index(x, z)], after[cell_index(x, z)], cx, cz, r, x, z, blend));
}

} // verus!
