use lorenz::strip::{double_sided_strip_indices, line_strip_indices};

#[test]
fn line_strip_of_one_vertex_is_empty() {
    assert_eq!(line_strip_indices(1), Vec::<u32>::new());
}

#[test]
fn line_strip_joins_neighbours() {
    assert_eq!(line_strip_indices(2), vec![0, 1]);
    assert_eq!(line_strip_indices(4), vec![0, 1, 1, 2, 2, 3]);
}

#[test]
fn line_strip_shape_over_many_vertices() {
    let n = 37usize;
    let r = line_strip_indices(n);
    assert_eq!(r.len(), 2 * (n - 1));
    assert_eq!(*r.iter().min().unwrap(), 0);
    assert_eq!(*r.iter().max().unwrap(), (n - 1) as u32);
    for k in 0..n - 1 {
        assert_eq!(r[2 * k], k as u32);
        assert_eq!(r[2 * k + 1], k as u32 + 1);
    }
    for w in r.windows(2) {
        assert!(w[0] <= w[1]);
    }
    for v in 0..n as u32 {
        assert!(r.contains(&v));
    }
}

#[test]
fn double_sided_strip_winds_each_triangle_both_ways() {
    assert_eq!(double_sided_strip_indices(0), Vec::<u32>::new());
    assert_eq!(double_sided_strip_indices(8), vec![0, 1, 2, 2, 1, 0, 1, 2]);
    assert_eq!(
        double_sided_strip_indices(12),
        vec![0, 1, 2, 2, 1, 0, 1, 2, 3, 3, 2, 1]
    );
}
