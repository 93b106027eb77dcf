use render_core::geometry::{ring_corners, RingCorner};

fn position(c: &RingCorner, radius: f32, inner: f32, start: f32, end: f32, n: usize) -> (f32, f32) {
    let angle = start + c.step as f32 * (end - start) / n as f32;
    let r = if c.outer { radius } else { inner };
    (angle.cos() * r, angle.sin() * r)
}

#[test]
fn ring_has_six_corners_per_segment() {
    for n in [1usize, 2, 7, 24] {
        assert_eq!(ring_corners(n).len(), 6 * n);
    }
}

#[test]
fn ring_of_zero_segments_is_empty() {
    assert!(ring_corners(0).is_empty());
}

#[test]
fn ring_shares_edges_bit_for_bit() {
    let n = 8;
    let corners = ring_corners(n);
    let pts: Vec<(f32, f32)> = corners
        .iter()
        .map(|c| position(c, 0.5, 0.25, 0.0, std::f32::consts::PI * 2.0, n))
        .collect();
    for s in 0..n {
        assert_eq!(corners[6 * s + 1], corners[6 * s + 4]);
        assert_eq!(corners[6 * s + 2], corners[6 * s + 3]);
        assert_eq!(pts[6 * s + 1].0.to_bits(), pts[6 * s + 4].0.to_bits());
        assert_eq!(pts[6 * s + 2].1.to_bits(), pts[6 * s + 3].1.to_bits());
        if s + 1 < n {
            assert_eq!(corners[6 * s + 1], corners[6 * (s + 1)]);
            assert_eq!(pts[6 * s + 1].0.to_bits(), pts[6 * (s + 1)].0.to_bits());
            assert_eq!(pts[6 * s + 1].1.to_bits(), pts[6 * (s + 1)].1.to_bits());
        }
    }
}

#[test]
fn ring_first_segment_layout() {
    let c = ring_corners(3);
    let expect = [(true, 0), (true, 1), (false, 0), (false, 0), (true, 1), (false, 1)];
    for (k, (outer, step)) in expect.iter().enumerate() {
        assert_eq!(c[k], RingCorner { outer: *outer, step: *step });
    }
    assert_eq!(c[17], RingCorner { outer: false, step: 3 });
}

#[test]
fn full_ring_of_24_segments_within_radius_bounds() {
    let n = 24;
    let corners = ring_corners(n);
    assert_eq!(corners.len(), 144);
    for c in &corners {
        assert!(c.step <= n);
        let (x, y) = position(c, 0.5, 0.25, 0.0, std::f32::consts::PI * 2.0, n);
        let d = (x * x + y * y).sqrt();
        assert!(d >= 0.25 - 1e-6 && d <= 0.5 + 1e-6);
    }
}
