//! Connectivity of the vertices produced along a trajectory, as index lists for a
//! renderer.
use vstd::prelude::*;

verus! {

/// Entry `j` of the line list that joins `n` vertices in order: the pairs
/// `(0, 1), (1, 2), ...` laid end to end.
pub open spec fn line_strip_entry(j: int) -> int {
    (j + 1) / 2
}

/// The line list that joins `n` vertices in order.
pub open spec fn line_strip(n: int) -> Seq<int> {
    Seq::new((2 * (n - 1)) as nat, |j: int| line_strip_entry(j))
}

/// Indices that draw `n` vertices as a chain of line segments: `2 (n - 1)` entries,
/// vertex `k` joined to vertex `k + 1` by entries `2k` and `2k + 1`.
pub fn line_strip_indices(n: usize) -> (r: Vec<u32>)
    requires
        n >= 1,
        n - 1 <= u32::MAX,
        2 * (n - 1) <= usize::MAX,
    ensures
        r@.len() == 2 * (n - 1),
        forall|j: int| 0 <= j < r@.len() ==> r@[j] as int == line_strip(n as int)[j],
{
    let len: usize = 2 * (n - 1);
    let mut r: Vec<u32> = Vec::with_capacity(len);
    let mut j: usize = 0;
    while j < len
        invariant
            len == 2 * (n - 1),
            n - 1 <= u32::MAX,
            j <= len,
            r@.len() == j,
            forall|m: int| 0 <= m < j ==> r@[m] as int == line_strip_entry(m),
        decreases len - j,
    {
        let v: usize = (j + 1) / 2;
        r.push(v as u32);
        j = j + 1;
    }
    r
}

/// The line list over `n >= 2` vertices has `2 (n - 1)` entries, all of them vertices,
/// starts at vertex 0, ends at vertex `n - 1`, never goes back, and its pair `k` is the
/// segment from vertex `k` to vertex `k + 1`, so that every vertex is joined to its
/// neighbours.
pub proof fn lemma_line_strip_shape(n: int)
    requires
        n >= 2,
    ensures
        line_strip(n).len() == 2 * (n - 1),
        line_strip(n)[0] == 0,
        line_strip(n)[2 * (n - 1) - 1] == n - 1,
        forall|j: int| 0 <= j < 2 * (n - 1) ==> 0 <= #[trigger] line_strip(n)[j] < n,
        forall|j: int|
            0 <= j < 2 * (n - 1) - 1 ==> #[trigger] line_strip(n)[j] <= line_strip(n)[j + 1],
        forall|k: int|
            0 <= k < n - 1 ==> #[trigger] line_strip(n)[2 * k] == k && line_strip(n)[2 * k + 1]
                == k + 1,
        forall|v: int| 0 <= v < n ==> #[trigger] line_strip(n).contains(v),
{
    assert forall|k: int| 0 <= k < n - 1 implies #[trigger] line_strip(n)[2 * k] == k
        && line_strip(n)[2 * k + 1] == k + 1 by {
        assert((2 * k + 1) / 2 == k);
        assert((2 * k + 2) / 2 == k + 1);
    }
    assert forall|v: int| 0 <= v < n implies #[trigger] line_strip(n).contains(v) by {
        if v == 0 {
            assert(line_strip(n)[0] == 0);
        } else {
            assert(line_strip(n)[2 * (v - 1) + 1] == v);
        }
    }
}

/// The vertex at place `p` (0 to 5) of the two triangles, front and back, that every
/// vertex opens: `x, x + 1, x + 2` and then `x + 2, x + 1, x`.
pub open spec fn double_sided_offset(p: int) -> int {
    if p <= 2 {
        p
    } else {
        5 - p
    }
}

/// Entry `j` of the double-sided triangle list: the triangles opened by vertex `j / 6`.
pub open spec fn double_sided_entry(j: int) -> int {
    j / 6 + double_sided_offset(j % 6)
}

/// The first `count` entries of the double-sided triangle list over a strip whose
/// consecutive vertices alternate sides: vertex `x` opens the triangle
/// `(x, x + 1, x + 2)` and the same triangle wound the other way.
pub fn double_sided_strip_indices(count: usize) -> (r: Vec<u32>)
    requires
        count / 6 + 2 <= u32::MAX,
    ensures
        r@.len() == count,
        forall|j: int| 0 <= j < count ==> r@[j] as int == double_sided_entry(j),
{
    let mut r: Vec<u32> = Vec::with_capacity(count);
    let mut j: usize = 0;
    while j < count
        invariant
            count / 6 + 2 <= u32::MAX,
            j <= count,
            r@.len() == j,
            forall|m: int| 0 <= m < j ==> r@[m] as int == double_sided_entry(m),
        decreases count - j,
    {
        let x: usize = j / 6;
        let p: usize = j % 6;
        let offset: usize = if p <= 2 {
            p
        } else {
            5 - p
        };
        assert(x <= count / 6) by (nonlinear_arith)
            requires x == j / 6, j < count;
        r.push((x + offset) as u32);
        j = j + 1;
    }
    r
}

} // verus!
