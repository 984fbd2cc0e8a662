use heat_room::room::{self, HALF_SIDE, HEIGHT};

#[test]
fn room_has_six_quads() {
    let geo = room::create();
    assert_eq!(geo.vertices.len(), 24);
    assert_eq!(geo.indices.len(), 36);
    assert_eq!(geo.index_count, 36);
    for q in 0..6u16 {
        let b = 4 * q;
        assert_eq!(&geo.indices[6 * q as usize..6 * q as usize + 6], &[b, b + 1, b + 2, b, b + 2, b + 3]);
    }
}

#[test]
fn floor_and_ceiling_vertices() {
    let geo = room::create();
    let s = HALF_SIDE;
    let h = HEIGHT;
    let floor: Vec<[i32; 3]> = geo.vertices[0..4].iter().map(|v| v.pos).collect();
    assert_eq!(floor, vec![[-s, 0, -s], [s, 0, -s], [s, 0, s], [-s, 0, s]]);
    assert!(geo.vertices[0..4].iter().all(|v| v.normal == [0, 1, 0]));
    let ceiling: Vec<[i32; 3]> = geo.vertices[4..8].iter().map(|v| v.pos).collect();
    assert_eq!(ceiling, vec![[-s, h, s], [s, h, s], [s, h, -s], [-s, h, -s]]);
    assert!(geo.vertices[4..8].iter().all(|v| v.normal == [0, -1, 0]));
    let uvs: Vec<[u32; 2]> = geo.vertices[20..24].iter().map(|v| v.uv).collect();
    assert_eq!(uvs, vec![[0, 0], [1, 0], [1, 1], [0, 1]]);
}

#[test]
fn normals_point_into_the_room() {
    let geo = room::create();
    for v in &geo.vertices {
        let to_centre = [-2 * v.pos[0], HEIGHT - 2 * v.pos[1], -2 * v.pos[2]];
        let d: i32 = (0..3).map(|k| to_centre[k] * v.normal[k]).sum();
        assert!(d > 0, "{:?}", v);
    }
}

#[test]
fn triangles_wind_against_their_normals() {
    let geo = room::create();
    for t in geo.indices.chunks(3) {
        let p = |i: u16| geo.vertices[i as usize].pos;
        let (a, b, c) = (p(t[0]), p(t[1]), p(t[2]));
        let u = [b[0] - a[0], b[1] - a[1], b[2] - a[2]];
        let w = [c[0] - a[0], c[1] - a[1], c[2] - a[2]];
        let cross = [u[1] * w[2] - u[2] * w[1], u[2] * w[0] - u[0] * w[2], u[0] * w[1] - u[1] * w[0]];
        let n = geo.vertices[t[0] as usize].normal;
        let d: i32 = (0..3).map(|k| cross[k] * n[k]).sum();
        assert!(d < 0);
        assert_eq!(cross, [d * n[0], d * n[1], d * n[2]]);
    }
}

#[test]
fn index_bytes_are_the_indices_in_memory_order() {
    let geo = room::create();
    let bytes = geo.index_bytes();
    assert_eq!(bytes.len(), 72);
    for (i, v) in geo.indices.iter().enumerate() {
        let pair = [bytes[2 * i], bytes[2 * i + 1]];
        assert_eq!(pair, v.to_ne_bytes());
    }
    // The fourth index (the second triangle's first vertex of face 0) is 0,
    // the last one is 23.
    assert_eq!(u16::from_ne_bytes([bytes[70], bytes[71]]), 23);
}
