use heat_room::heat::{self, CELLS, S};

fn idx(x: usize, z: usize) -> usize {
    z * S + x
}

#[test]
fn create_fills_every_cell() {
    let h = heat::create(0.0f32);
    assert_eq!(h.cells().len(), CELLS);
    assert!(h.cells().iter().all(|v| *v == 0.0));
}

#[test]
fn stamp_covers_exactly_the_disk() {
    let mut h = heat::create(0u64);
    // Record (1 + squared distance) in each stamped cell.
    heat::stamp(&mut h, 10, 20, 2, |_, d, r2| {
        assert_eq!(r2, 4);
        d + 1
    });
    let mut count = 0;
    for z in 0..S {
        for x in 0..S {
            let dx = x as i64 - 10;
            let dz = z as i64 - 20;
            let d = (dx * dx + dz * dz) as u64;
            let v = h.cells()[idx(x, z)];
            if d <= 4 {
                assert_eq!(v, d + 1);
                count += 1;
            } else {
                assert_eq!(v, 0);
            }
        }
    }
    // 13 lattice points lie within distance 2 of a point.
    assert_eq!(count, 13);
}

#[test]
fn stamp_radius_below_one_covers_one_cell() {
    let mut h = heat::create(0u32);
    heat::stamp(&mut h, 5, 5, 0, |v, _, r2| {
        assert_eq!(r2, 1);
        v + 1
    });
    let touched: Vec<usize> = (0..CELLS).filter(|i| h.cells()[*i] == 1).collect();
    assert_eq!(touched, vec![idx(5, 4), idx(4, 5), idx(5, 5), idx(6, 5), idx(5, 6)]);
    heat::stamp(&mut h, 5, 5, -7, |v, _, _| v + 1);
    assert_eq!(h.cells()[idx(5, 5)], 2);
}

#[test]
fn stamp_is_clipped_at_the_edges() {
    let mut h = heat::create(false);
    heat::stamp(&mut h, 0, 63, 1, |_, _, _| true);
    let touched: Vec<usize> = (0..CELLS).filter(|i| h.cells()[*i]).collect();
    assert_eq!(touched, vec![idx(0, 62), idx(0, 63), idx(1, 63)]);
}

#[test]
fn stamp_off_the_grid_changes_nothing() {
    let mut h = heat::create(7i32);
    heat::stamp(&mut h, -10, 30, 3, |_, _, _| 0);
    heat::stamp(&mut h, 100, 100, 5, |_, _, _| 0);
    assert!(h.cells().iter().all(|v| *v == 7));
    heat::stamp(&mut h, i32::MAX, i32::MIN, i32::MAX, |_, _, _| 0);
    assert!(h.cells().iter().all(|v| *v == 7));
}

#[test]
fn stamp_with_the_original_falloff() {
    // Quadratic falloff, saturating at 1.
    let mut h = heat::create(0.0f32);
    let blob = |v: f32, d: u64, r2: u64| (v + 1.0 * (1.0 - d as f32 / r2 as f32)).min(1.0);
    heat::stamp(&mut h, 32, 32, 4, blob);
    assert_eq!(h.cells()[idx(32, 32)], 1.0);
    assert_eq!(h.cells()[idx(34, 32)], 0.75);
    assert_eq!(h.cells()[idx(36, 32)], 0.0);
    assert_eq!(h.cells()[idx(37, 32)], 0.0);
    heat::stamp(&mut h, 32, 32, 4, blob);
    assert_eq!(h.cells()[idx(32, 32)], 1.0);
    assert_eq!(h.cells()[idx(34, 32)], 1.0);
}

#[test]
fn diffuse_neighbours_of_corner_and_interior() {
    // Each cell holds its own index; the kernel packs the five it is given.
    let mut g = heat::create(0i64);
    for i in 0..CELLS {
        let (x, z) = ((i % S) as i32, (i / S) as i32);
        heat::stamp(&mut g, x, z, 0, |v, d, _| if d == 0 { i as i64 } else { v });
    }
    heat::diffuse(&mut g, |c, l, r, u, d| {
        // Encode the five indices in base 4096.
        let b = 4096i64;
        (((c * b + l) * b + r) * b + u) * b + d
    });
    let decode = |v: i64| {
        let b = 4096i64;
        (v / (b * b * b * b), v / (b * b * b) % b, v / (b * b) % b, v / b % b, v % b)
    };
    let corner = decode(g.cells()[idx(0, 0)]);
    assert_eq!(corner, (0, 0, 1, 0, idx(0, 1) as i64));
    let far = decode(g.cells()[idx(63, 63)]);
    let c = idx(63, 63) as i64;
    assert_eq!(far, (c, c - 1, c, c - 64, c));
    let mid = decode(g.cells()[idx(10, 20)]);
    let m = idx(10, 20) as i64;
    assert_eq!(mid, (m, m - 1, m + 1, m - 64, m + 64));
}

#[test]
fn diffuse_with_the_original_kernel() {
    let dt = 0.016f32;
    let diff = (2.0 * dt * 0.25f32).min(0.24);
    let decay = (1.0 - 0.35 * dt).max(0.0f32);
    let kernel = move |c: f32, l: f32, r: f32, u: f32, d: f32| {
        let spread = (l + r + u + d - 4.0 * c) * diff;
        ((c + spread) * decay).clamp(0.0, 1.0)
    };
    let mut h = heat::create(0.0f32);
    heat::stamp(&mut h, 32, 32, 0, |_, d, _| if d == 0 { 1.0 } else { 0.0 });
    heat::diffuse(&mut h, kernel);
    let centre = h.cells()[idx(32, 32)];
    let side = h.cells()[idx(33, 32)];
    assert_eq!(centre, ((1.0 + (0.0 - 4.0) * diff) * decay).clamp(0.0, 1.0));
    assert_eq!(side, ((0.0 + (1.0 - 0.0) * diff) * decay).clamp(0.0, 1.0));
    assert_eq!(h.cells()[idx(34, 32)], 0.0);
    // Heat stays within [0, 1].
    for _ in 0..50 {
        heat::diffuse(&mut h, kernel);
    }
    assert!(h.cells().iter().all(|v| (0.0..=1.0).contains(v)));
}

#[test]
fn diffuse_uniform_grid_stays_uniform() {
    let mut h = heat::create(5i32);
    heat::diffuse(&mut h, |c, l, r, u, d| (c + l + r + u + d) / 5);
    assert!(h.cells().iter().all(|v| *v == 5));
}

#[test]
fn stamp_with_a_huge_radius_covers_the_whole_grid() {
    let mut h = heat::create(0u8);
    heat::stamp(&mut h, 0, 0, 200, |_, _, r2| {
        assert_eq!(r2, 40_000);
        1
    });
    assert!(h.cells().iter().all(|v| *v == 1));
    heat::stamp(&mut h, 40, 10, i32::MAX, |v, _, r2| {
        assert_eq!(r2, (i32::MAX as u64) * (i32::MAX as u64));
        v + 1
    });
    assert!(h.cells().iter().all(|v| *v == 2));
}
