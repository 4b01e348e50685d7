use vstd::prelude::*;

verus! {

/// The index of a vertex in a mesh.
pub type VertexIndex = u32;

/// The triangles of a quad over the vertices upper left, upper right,
/// lower left, lower right.
pub open spec fn quad_triangles() -> Seq<VertexIndex> {
    seq![0, 1, 2, 1, 2, 3]
}

/// The number of vertices of a cylinder with `res` segments: a ring of
/// `res + 1` at the top and one at the bottom for the side, whose first
/// and last vertex meet, and `res` for each lid.
pub open spec fn cylinder_vertices(res: nat) -> nat {
    4 * res + 2
}

/// The first vertex of the top lid.
pub open spec fn top_lid_start(res: nat) -> nat {
    2 * (res + 1)
}

/// The first vertex of the bottom lid.
pub open spec fn bottom_lid_start(res: nat) -> nat {
    2 * (res + 1) + res
}

/// The corner `k` of the two triangles that close segment `n` of the
/// side, between vertex `n` of the top ring and vertex `n` of the bottom
/// ring, which lies `res + 1` further on.
pub open spec fn side_corner(res: nat, n: nat, k: nat) -> nat {
    if k == 0 {
        n
    } else if k == 1 {
        n + 1
    } else if k == 2 {
        n + res + 1
    } else if k == 3 {
        n + res + 1
    } else if k == 4 {
        n + 1 + res + 1
    } else {
        n + 1
    }
}

/// The triangles of the side: two for each segment.
pub open spec fn side_triangles(res: nat) -> Seq<VertexIndex> {
    Seq::new(6 * res, |i: int| side_corner(res, (i / 6) as nat, (i % 6) as nat) as u32)
}

/// The number of triangles of a lid: a fan from its first vertex.
pub open spec fn lid_fan(res: nat) -> nat {
    if res >= 2 {
        (res - 2) as nat
    } else {
        0
    }
}

/// The corner `k` of triangle `n` of the fan of a lid that starts at
/// vertex `first`.
pub open spec fn lid_corner(first: nat, n: nat, k: nat) -> nat {
    if k == 0 {
        first
    } else if k == 1 {
        first + 1 + n
    } else {
        first + 1 + n + 1
    }
}

/// The triangles of the lid that starts at vertex `first`.
pub open spec fn lid_triangles(first: nat, res: nat) -> Seq<VertexIndex> {
    Seq::new(3 * lid_fan(res), |i: int| lid_corner(first, (i / 3) as nat, (i % 3) as nat) as u32)
}

/// The triangles of a cylinder: the side, the top lid, the bottom lid.
pub open spec fn cylinder_triangles(res: nat) -> Seq<VertexIndex> {
    side_triangles(res) + lid_triangles(top_lid_start(res), res) + lid_triangles(
        bottom_lid_start(res),
        res,
    )
}

/// The indices of the two triangles of a quad.
pub fn quad_indices() -> (indices: Vec<VertexIndex>)
    ensures
        indices@ == quad_triangles(),
{
    let mut indices: Vec<VertexIndex> = Vec::new();
    indices.push(0);
    indices.push(1);
    indices.push(2);
    indices.push(1);
    indices.push(2);
    indices.push(3);
    assert(indices@ =~= quad_triangles());
    indices
}

fn push_lid(indices: &mut Vec<VertexIndex>, first: u32, res: u32)
    requires
        first + res <= u32::MAX,
    ensures
        final(indices)@ == old(indices)@ + lid_triangles(first as nat, res as nat),
{
    let ghost start = indices@;
    let ghost lid = lid_triangles(first as nat, res as nat);
    if res >= 2 {
        let mut n: u32 = 0;
        while n < res - 2
            invariant
                res >= 2,
                n <= res - 2,
                first + res <= u32::MAX,
                lid == lid_triangles(first as nat, res as nat),
                indices@ == start + lid.take(3 * n),
            decreases res - 2 - n,
        {
            indices.push(first);
            indices.push(first + 1 + n);
            indices.push(first + 1 + n + 1);
            proof {
                assert(lid[3 * n] == first);
                assert(lid[3 * n + 1] == first + 1 + n);
                assert(lid[3 * n + 2] == first + 1 + n + 1);
                assert(indices@ =~= start + lid.take(3 * (n + 1)));
            }
            n += 1;
        }
        assert(lid.take(3 * (res - 2)) =~= lid);
    } else {
        assert(start + lid =~= start);
    }
}

/// The indices of the triangles of a cylinder with `res` segments.
pub fn cylinder_indices(res: u32) -> (indices: Vec<VertexIndex>)
    requires
        cylinder_vertices(res as nat) <= u32::MAX,
    ensures
        indices@ == cylinder_triangles(res as nat),
{
    let mut indices: Vec<VertexIndex> = Vec::new();
    let ghost side = side_triangles(res as nat);
    let mut n: u32 = 0;
    while n < res
        invariant
            n <= res,
            4 * res + 2 <= u32::MAX,
            side == side_triangles(res as nat),
            indices@ == side.take(6 * n),
        decreases res - n,
    {
        indices.push(n);
        indices.push(n + 1);
        indices.push(n + res + 1);
        indices.push(n + res + 1);
        indices.push(n + 1 + res + 1);
        indices.push(n + 1);
        proof {
            assert(side[6 * n] == n);
            assert(side[6 * n + 1] == n + 1);
            assert(side[6 * n + 2] == n + res + 1);
            assert(side[6 * n + 3] == n + res + 1);
            assert(side[6 * n + 4] == n + 1 + res + 1);
            assert(side[6 * n + 5] == n + 1);
            assert(indices@ =~= side.take(6 * (n + 1)));
        }
        n += 1;
    }
    assert(side.take(6 * res) =~= side);
    let first_top_lid_idx = 2 * (res + 1);
    push_lid(&mut indices, first_top_lid_idx, res);
    let first_bot_lid_idx = 2 * (res + 1) + res;
    push_lid(&mut indices, first_bot_lid_idx, res);
    indices
}

/// Every corner of a cylinder's triangles is one of its vertices, and the
/// triangles are whole.
pub proof fn lemma_cylinder_triangles_are_in_range(res: nat, i: int)
    requires
        cylinder_vertices(res) <= u32::MAX,
        0 <= i < cylinder_triangles(res).len(),
    ensures
        cylinder_triangles(res)[i] < cylinder_vertices(res),
        cylinder_triangles(res).len() == 6 * res + 6 * lid_fan(res),
        cylinder_triangles(res).len() % 3 == 0,
{
    let side = side_triangles(res);
    let top = lid_triangles(top_lid_start(res), res);
    let bottom = lid_triangles(bottom_lid_start(res), res);
    if i < side.len() {
        assert(cylinder_triangles(res)[i] == side[i]);
        assert(0 <= i / 6 < res && 0 <= i % 6 < 6);
    } else if i < side.len() + top.len() {
        let k = i - side.len();
        assert(cylinder_triangles(res)[i] == top[k]);
        assert(0 <= k / 3 < lid_fan(res) && 0 <= k % 3 < 3);
    } else {
        let k = i - side.len() - top.len();
        assert(cylinder_triangles(res)[i] == bottom[k]);
        assert(0 <= k / 3 < lid_fan(res) && 0 <= k % 3 < 3);
    }
}

} // verus!
