//! Mesh topology: triangle index lists for boxes, latitude-longitude grids and
//! icosphere subdivision, and merging meshes. Vertex positions are left to the
//! caller; what is verified here is which vertices each triangle uses.

use vstd::prelude::*;
use std::collections::HashMap;

verus! {

/// Mesh data: vertices, and triangles as triples of vertex indices.
pub struct MeshData<V> {
    pub vertices: Vec<V>,
    pub indices: Vec<u32>,
}

/// Every index names a vertex.
pub open spec fn indices_valid(indices: Seq<u32>, vertex_count: int) -> bool {
    forall|k: int| 0 <= k < indices.len() ==> #[trigger] indices[k] < vertex_count
}

impl<V> MeshData<V> {
    /// The mesh is well formed: every index names one of its vertices.
    pub open spec fn valid(&self) -> bool {
        indices_valid(self.indices@, self.vertices@.len() as int)
    }
}

/// Merge `other` into `base`: its vertices are appended and its indices shifted past
/// the vertices `base` already had. Shifted indices must fit a `u32`.
pub fn merge_mesh<V: Copy>(base: &mut MeshData<V>, other: &MeshData<V>)
    requires
        old(base).vertices@.len() + other.vertices@.len() <= u32::MAX,
        other.valid(),
    ensures
        final(base).vertices@ == old(base).vertices@ + other.vertices@,
        final(base).indices@.len() == old(base).indices@.len() + other.indices@.len(),
        forall|k: int|
            0 <= k < old(base).indices@.len() ==> #[trigger] final(base).indices@[k] == old(
                base,
            ).indices@[k],
        forall|k: int|
            0 <= k < other.indices@.len() ==> #[trigger] final(base).indices@[old(
                base,
            ).indices@.len() + k] == other.indices@[k] + old(base).vertices@.len(),
{
    let offset = base.vertices.len() as u32;
    let ghost old_indices = base.indices@;
    let ghost old_vertices = base.vertices@;
    let mut i: usize = 0;
    while i < other.vertices.len()
        invariant
            i <= other.vertices@.len(),
            base.vertices@ == old_vertices + other.vertices@.take(i as int),
            base.indices@ == old_indices,
        decreases other.vertices.len() - i,
    {
        base.vertices.push(other.vertices[i]);
        i = i + 1;
        proof {
            assert(other.vertices@.take(i as int) =~= other.vertices@.take(i - 1).push(
                other.vertices@[i - 1],
            ));
        }
    }
    proof {
        assert(other.vertices@.take(other.vertices@.len() as int) =~= other.vertices@);
    }
    let mut j: usize = 0;
    while j < other.indices.len()
        invariant
            j <= other.indices@.len(),
            offset == old_vertices.len(),
            offset + other.vertices@.len() <= u32::MAX,
            indices_valid(other.indices@, other.vertices@.len() as int),
            base.vertices@ == old_vertices + other.vertices@,
            base.indices@.len() == old_indices.len() + j,
            forall|k: int| 0 <= k < old_indices.len() ==> #[trigger] base.indices@[k] == old_indices[k],
            forall|k: int|
                0 <= k < j ==> #[trigger] base.indices@[old_indices.len() + k] == other.indices@[k]
                    + offset,
        decreases other.indices.len() - j,
    {
        let idx = other.indices[j];
        assert(idx < other.vertices@.len());
        base.indices.push(offset + idx);
        j = j + 1;
    }
}

/// Merging two well-formed meshes gives a well-formed mesh, and each merged triangle
/// uses the same vertices as the triangle it came from.
pub proof fn merge_keeps_triangles<V>(
    base: MeshData<V>,
    other: MeshData<V>,
    merged: MeshData<V>,
)
    requires
        base.valid(),
        other.valid(),
        merged.vertices@ == base.vertices@ + other.vertices@,
        merged.indices@.len() == base.indices@.len() + other.indices@.len(),
        forall|k: int|
            0 <= k < base.indices@.len() ==> #[trigger] merged.indices@[k] == base.indices@[k],
        forall|k: int|
            0 <= k < other.indices@.len() ==> #[trigger] merged.indices@[base.indices@.len() + k]
                == other.indices@[k] + base.vertices@.len(),
    ensures
        merged.valid(),
        forall|k: int|
            0 <= k < base.indices@.len() ==> merged.vertices@[#[trigger] merged.indices@[k] as int]
                == base.vertices@[base.indices@[k] as int],
        forall|k: int|
            0 <= k < other.indices@.len() ==> merged.vertices@[#[trigger] merged.indices@[base.indices@.len() + k] as int]
                == other.vertices@[other.indices@[k] as int],
{
    assert forall|k: int| 0 <= k < merged.indices@.len() implies #[trigger] merged.indices@[k]
        < merged.vertices@.len() by {
        if k < base.indices@.len() {
            assert(base.indices@[k] < base.vertices@.len());
        } else {
            let k2 = k - base.indices@.len();
            assert(merged.indices@[base.indices@.len() + k2] == other.indices@[k2] + base.vertices@.len());
            assert(other.indices@[k2] < other.vertices@.len());
        }
    }
    assert forall|k: int| 0 <= k < other.indices@.len() implies merged.vertices@[
        #[trigger] merged.indices@[base.indices@.len() + k] as int] == other.vertices@[other.indices@[k] as int] by {
        assert(other.indices@[k] < other.vertices@.len());
    }
    assert forall|k: int| 0 <= k < base.indices@.len() implies merged.vertices@[
        #[trigger] merged.indices@[k] as int] == base.vertices@[base.indices@[k] as int] by {
        assert(base.indices@[k] < base.vertices@.len());
    }
}

/// The `k`-th index (0..6) of quad face `f` when faces of four vertices are laid out
/// one after another: triangles 0-1-2 and 0-2-3 of the face.
pub open spec fn quad_index(f: int, k: int) -> int {
    let base = 4 * f;
    if k == 0 || k == 3 {
        base
    } else if k == 1 {
        base + 1
    } else if k == 2 || k == 4 {
        base + 2
    } else {
        base + 3
    }
}

/// Triangle indices for `faces` quad faces whose four vertices each are laid out in
/// order (as the box and cube meshes lay them out).
pub fn quad_face_indices(faces: u32) -> (r: Vec<u32>)
    requires
        4 * faces <= u32::MAX,
    ensures
        r@.len() == 6 * faces,
        forall|f: int, k: int|
            0 <= f < faces && 0 <= k < 6 ==> #[trigger] r@[6 * f + k] == quad_index(f, k),
        indices_valid(r@, 4 * faces),
{
    let mut r: Vec<u32> = Vec::new();
    let mut f: u32 = 0;
    while f < faces
        invariant
            4 * faces <= u32::MAX,
            f <= faces,
            r@.len() == 6 * f,
            forall|g: int, k: int|
                0 <= g < f && 0 <= k < 6 ==> #[trigger] r@[6 * g + k] == quad_index(g, k),
        decreases faces - f,
    {
        let base = 4 * f;
        let ghost before = r@;
        r.push(base);
        r.push(base + 1);
        r.push(base + 2);
        r.push(base);
        r.push(base + 2);
        r.push(base + 3);
        proof {
            assert forall|g: int, k: int| 0 <= g < f + 1 && 0 <= k < 6 implies #[trigger] r@[6 * g
                + k] == quad_index(g, k) by {
                if g < f {
                    assert(r@[6 * g + k] == before[6 * g + k]);
                }
            }
        }
        f = f + 1;
    }
    proof {
        assert forall|q: int| 0 <= q < r@.len() implies #[trigger] r@[q] < 4 * faces by {
            let f = q / 6;
            let k = q % 6;
            assert(q == 6 * f + k);
            assert(r@[6 * f + k] == quad_index(f, k));
        }
    }
    r
}


/// The `k`-th index (0..6) of grid cell (`i`, `j`) of a latitude-longitude grid with
/// `lon` cells per row: with `tl` its south-west vertex, `tr` south-east, `bl`
/// north-west and `br` north-east, the triangles tl-tr-bl and tr-br-bl.
pub open spec fn grid_index(i: int, j: int, lon: int, k: int) -> int {
    let cols = lon + 1;
    let tl = i * cols + j;
    let tr = tl + 1;
    let bl = (i + 1) * cols + j;
    let br = bl + 1;
    if k == 0 {
        tl
    } else if k == 1 || k == 3 {
        tr
    } else if k == 4 {
        br
    } else {
        bl
    }
}

proof fn lemma_grid_bounds(i: int, j: int, lat: int, lon: int)
    by (nonlinear_arith)
    requires
        0 <= i < lat,
        0 <= j < lon,
    ensures
        0 <= i * (lon + 1) + j,
        (i + 1) * (lon + 1) + j + 1 < (lat + 1) * (lon + 1),
        i * (lon + 1) + j + 1 < (i + 1) * (lon + 1) + j + 1,
        0 <= i * lon + j < lat * lon,
        6 * (i * lon + j) + 6 <= 6 * lat * lon,
{
}

proof fn lemma_cell_order(i: int, j: int, i2: int, j2: int, lon: int)
    by (nonlinear_arith)
    requires
        0 <= j < lon,
        0 <= j2 < lon,
        0 <= i,
        0 <= i2,
        i2 < i || (i2 == i && j2 < j),
    ensures
        i2 * lon + j2 < i * lon + j,
{
}

/// Triangle indices of a latitude-longitude grid of `lat` rows and `lon` columns of
/// cells over `(lat + 1) * (lon + 1)` vertices laid out row by row, cell after cell.
pub fn grid_indices(lat: u32, lon: u32) -> (r: Vec<u32>)
    requires
        (lat + 1) * (lon + 1) <= u32::MAX,
        6 * lat * lon <= usize::MAX,
    ensures
        r@.len() == 6 * lat * lon,
        forall|i: int, j: int, k: int|
            0 <= i < lat && 0 <= j < lon && 0 <= k < 6 ==> #[trigger] r@[6 * (i * lon + j) + k]
                == grid_index(i, j, lon as int, k),
{
    proof {
        assert((lon + 1) * 1 <= (lat + 1) * (lon + 1)) by (nonlinear_arith)
            requires
                lat >= 0,
                lon >= 0,
        ;
    }
    let cols = lon + 1;
    let mut r: Vec<u32> = Vec::new();
    let mut i: u32 = 0;
    while i < lat
        invariant
            (lat + 1) * (lon + 1) <= u32::MAX,
            6 * lat * lon <= usize::MAX,
            cols == lon + 1,
            i <= lat,
            r@.len() == 6 * (i * lon),
            forall|i2: int, j2: int, k: int|
                0 <= i2 < i && 0 <= j2 < lon && 0 <= k < 6 ==> #[trigger] r@[6 * (i2 * lon + j2) + k]
                    == grid_index(i2, j2, lon as int, k),
        decreases lat - i,
    {
        let mut j: u32 = 0;
        while j < lon
            invariant
                (lat + 1) * (lon + 1) <= u32::MAX,
                6 * lat * lon <= usize::MAX,
                cols == lon + 1,
                i < lat,
                j <= lon,
                r@.len() == 6 * (i * lon + j),
                forall|i2: int, j2: int, k: int|
                    0 <= i2 && 0 <= j2 < lon && (i2 < i || (i2 == i && j2 < j)) && 0 <= k < 6
                        ==> #[trigger] r@[6 * (i2 * lon + j2) + k] == grid_index(i2, j2, lon as int, k),
            decreases lon - j,
        {
            proof {
                lemma_grid_bounds(i as int, j as int, lat as int, lon as int);
            }
            let tl = i * cols + j;
            let tr = i * cols + j + 1;
            let bl = (i + 1) * cols + j;
            let br = (i + 1) * cols + j + 1;
            let ghost before = r@;
            r.push(tl);
            r.push(tr);
            r.push(bl);
            r.push(tr);
            r.push(br);
            r.push(bl);
            proof {
                let c = 6 * (i * lon + j);
                assert(before.len() == c);
                assert forall|i2: int, j2: int, k: int|
                    0 <= i2 && 0 <= j2 < lon && (i2 < i || (i2 == i && j2 < j + 1)) && 0 <= k < 6
                        implies #[trigger] r@[6 * (i2 * lon + j2) + k] == grid_index(i2, j2, lon as int, k) by {
                    if i2 < i || (i2 == i && j2 < j) {
                        lemma_cell_order(i as int, j as int, i2, j2, lon as int);
                        assert(r@[6 * (i2 * lon + j2) + k] == before[6 * (i2 * lon + j2) + k]);
                    } else {
                        assert(i2 * lon + j2 == i * lon + j);
                    }
                }
            }
            j = j + 1;
        }
        proof {
            assert(i * lon + lon == (i + 1) * lon) by (nonlinear_arith);
            assert forall|i2: int, j2: int, k: int|
                0 <= i2 < i + 1 && 0 <= j2 < lon && 0 <= k < 6 implies #[trigger] r@[6 * (i2 * lon + j2) + k]
                    == grid_index(i2, j2, lon as int, k) by {
            }
        }
        i = i + 1;
    }
    proof {
        assert(6 * (lat * lon) == 6 * lat * lon) by (nonlinear_arith);
    }
    r
}

/// Every index of the grid names one of its `(lat + 1) * (lon + 1)` vertices.
pub proof fn grid_indices_in_range(lat: int, lon: int, i: int, j: int, k: int)
    requires
        0 <= i < lat,
        0 <= j < lon,
        0 <= k < 6,
    ensures
        0 <= grid_index(i, j, lon, k) < (lat + 1) * (lon + 1),
{
    lemma_grid_bounds(i, j, lat, lon);
}


// --- Icosphere subdivision ---

/// The edge between vertices `x` and `y`, smaller index first.
pub open spec fn edge_key(x: u32, y: u32) -> (u32, u32) {
    if x < y {
        (x, y)
    } else {
        (y, x)
    }
}

/// No edge occurs twice.
pub open spec fn distinct_edges(pairs: Seq<(u32, u32)>) -> bool {
    forall|i: int, j: int| 0 <= i < j < pairs.len() ==> pairs[i] != pairs[j]
}

/// `pairs` with the edge `k` appended unless it already holds it.
pub open spec fn add_edge(pairs: Seq<(u32, u32)>, k: (u32, u32)) -> Seq<(u32, u32)> {
    if pairs.contains(k) {
        pairs
    } else {
        pairs.push(k)
    }
}

proof fn lemma_add_edge(pairs: Seq<(u32, u32)>, k: (u32, u32))
    ensures
        add_edge(pairs, k).contains(k),
        forall|j: (u32, u32)| pairs.contains(j) ==> #[trigger] add_edge(pairs, k).contains(j),
        forall|i: int| 0 <= i < pairs.len() ==> #[trigger] add_edge(pairs, k)[i] == pairs[i],
        add_edge(pairs, k).len() <= pairs.len() + 1,
        forall|i: int|
            0 <= i < add_edge(pairs, k).len() ==> #[trigger] add_edge(pairs, k)[i] == k
                || pairs.contains(add_edge(pairs, k)[i]),
{
    if !pairs.contains(k) {
        let q = pairs.push(k);
        assert(q[pairs.len() as int] == k);
        assert forall|j: (u32, u32)| pairs.contains(j) implies #[trigger] q.contains(j) by {
            let i = choose|i: int| 0 <= i < pairs.len() && pairs[i] == j;
            assert(q[i] == j);
        }
        assert forall|i: int| 0 <= i < q.len() implies #[trigger] q[i] == k || pairs.contains(q[i]) by {
            if i < pairs.len() {
                assert(pairs[i] == q[i]);
            }
        }
    } else {
        assert forall|i: int| 0 <= i < pairs.len() implies #[trigger] pairs[i] == k || pairs.contains(pairs[i]) by {
            assert(pairs[i] == pairs[i]);
        }
    }
}

/// Where the edge `k` stands in `pairs`.
pub open spec fn edge_position(pairs: Seq<(u32, u32)>, k: (u32, u32)) -> int {
    choose|i: int| 0 <= i < pairs.len() && pairs[i] == k
}

/// The four triangles that replace triangle `a`-`b`-`c`, given the indices of the
/// midpoint vertices of its edges.
pub open spec fn split_triangle(a: u32, b: u32, c: u32, ab: int, bc: int, ca: int) -> Seq<int> {
    seq![a as int, ab, ca, b as int, bc, ab, c as int, ca, bc, ab, bc, ca]
}

/// One subdivision level over the first `t` triangles of `tris`, where the first new
/// vertex is `nv`: the new triangle indices, and the edges whose midpoints became new
/// vertices `nv`, `nv + 1`, ... in the order they were first met.
pub open spec fn subdivision(tris: Seq<u32>, nv: int, t: nat) -> (Seq<int>, Seq<(u32, u32)>)
    decreases t,
{
    if t == 0 {
        (Seq::empty(), Seq::empty())
    } else {
        let (out, p) = subdivision(tris, nv, (t - 1) as nat);
        let a = tris[3 * (t - 1)];
        let b = tris[3 * (t - 1) + 1];
        let c = tris[3 * (t - 1) + 2];
        let p3 = add_edge(add_edge(add_edge(p, edge_key(a, b)), edge_key(b, c)), edge_key(c, a));
        (
            out + split_triangle(
                a,
                b,
                c,
                nv + edge_position(p3, edge_key(a, b)),
                nv + edge_position(p3, edge_key(b, c)),
                nv + edge_position(p3, edge_key(c, a)),
            ),
            p3,
        )
    }
}

/// Cache key of an edge.
pub open spec fn edge_code(k: (u32, u32)) -> u64 {
    ((k.0 as u64) << 32u64) | (k.1 as u64)
}

proof fn lemma_edge_code_injective(x1: u32, y1: u32, x2: u32, y2: u32)
    requires
        ((x1 as u64) << 32u64) | (y1 as u64) == ((x2 as u64) << 32u64) | (y2 as u64),
    ensures
        x1 == x2,
        y1 == y2,
{
    assert(x1 == x2 && y1 == y2) by (bit_vector)
        requires
            ((x1 as u64) << 32u64) | (y1 as u64) == ((x2 as u64) << 32u64) | (y2 as u64),
    ;
}

/// The midpoint cache maps the code of the `i`-th edge to vertex `nv + i`, and holds nothing else.
pub open spec fn cache_matches(cache: Map<u64, u32>, pairs: Seq<(u32, u32)>, nv: int) -> bool {
    &&& distinct_edges(pairs)
    &&& forall|i: int|
        0 <= i < pairs.len() ==> #[trigger] cache.contains_key(edge_code(pairs[i])) && cache[edge_code(
            pairs[i],
        )] == nv + i
    &&& forall|e: u64|
        #[trigger] cache.contains_key(e) ==> exists|i: int|
            0 <= i < pairs.len() && edge_code(pairs[i]) == e
}

proof fn lemma_position(pairs: Seq<(u32, u32)>, i: int)
    requires
        distinct_edges(pairs),
        0 <= i < pairs.len(),
    ensures
        edge_position(pairs, pairs[i]) == i,
{
    let j = edge_position(pairs, pairs[i]);
    assert(0 <= j < pairs.len() && pairs[j] == pairs[i]);
}

/// The vertex at the midpoint of edge `x`-`y`, created (as vertex `nv + pairs.len()`)
/// when the edge is new.
fn midpoint(
    cache: &mut HashMap<u64, u32>,
    pairs: &mut Vec<(u32, u32)>,
    nv: u32,
    x: u32,
    y: u32,
) -> (m: u32)
    requires
        cache_matches(old(cache)@, old(pairs)@, nv as int),
        nv + old(pairs)@.len() < u32::MAX,
    ensures
        final(pairs)@ == add_edge(old(pairs)@, edge_key(x, y)),
        cache_matches(final(cache)@, final(pairs)@, nv as int),
        final(pairs)@.contains(edge_key(x, y)),
        m == nv + edge_position(final(pairs)@, edge_key(x, y)),
{
    broadcast use vstd::std_specs::hash::group_hash_axioms;
    let key = if x < y { (x, y) } else { (y, x) };
    let code = ((key.0 as u64) << 32u64) | (key.1 as u64);
    match cache.get(&code) {
        Some(v) => {
            let m = *v;
            proof {
                let i = choose|i: int| 0 <= i < pairs@.len() && edge_code(pairs@[i]) == code;
                lemma_edge_code_injective(pairs@[i].0, pairs@[i].1, key.0, key.1);
                assert(pairs@[i] == key);
                lemma_position(pairs@, i);
            }
            m
        },
        None => {
            proof {
                if pairs@.contains(key) {
                    let i = choose|i: int| 0 <= i < pairs@.len() && pairs@[i] == key;
                    assert(cache@.contains_key(edge_code(pairs@[i])));
                }
            }
            let m = nv + pairs.len() as u32;
            let ghost old_pairs = pairs@;
            let ghost old_cache = cache@;
            pairs.push(key);
            cache.insert(code, m);
            proof {
                assert(distinct_edges(pairs@)) by {
                    assert forall|i: int, j: int| 0 <= i < j < pairs@.len() implies pairs@[i]
                        != pairs@[j] by {
                        if j == old_pairs.len() {
                            assert(old_pairs.contains(old_pairs[i]));
                        }
                    }
                }
                assert forall|i: int| 0 <= i < pairs@.len() implies #[trigger] cache@.contains_key(
                    edge_code(pairs@[i]),
                ) && cache@[edge_code(pairs@[i])] == nv + i by {
                    if i < old_pairs.len() {
                        assert(old_cache.contains_key(edge_code(old_pairs[i])));
                        if edge_code(old_pairs[i]) == code {
                            lemma_edge_code_injective(old_pairs[i].0, old_pairs[i].1, key.0, key.1);
                            assert(old_pairs[i] == key);
                            assert(old_pairs.contains(key));
                        }
                    }
                }
                assert forall|e: u64| #[trigger] cache@.contains_key(e) implies exists|i: int|
                    0 <= i < pairs@.len() && edge_code(pairs@[i]) == e by {
                    if e == code {
                        assert(edge_code(pairs@[old_pairs.len() as int]) == e);
                    } else {
                        assert(old_cache.contains_key(e));
                        let i = choose|i: int| 0 <= i < old_pairs.len() && edge_code(old_pairs[i]) == e;
                        assert(edge_code(pairs@[i]) == e);
                    }
                }
                assert(pairs@[old_pairs.len() as int] == key);
                lemma_position(pairs@, old_pairs.len() as int);
            }
            m
        },
    }
}

/// One level of icosphere subdivision: every triangle of `indices` (triples of vertex
/// indices) is split into four at the midpoints of its edges. Returns the new triangle
/// indices and the edges whose midpoints become new vertices `vertex_count`,
/// `vertex_count + 1`, ..., in that order; a shared edge gets one midpoint.
pub fn subdivide(indices: &Vec<u32>, vertex_count: u32) -> (r: (Vec<u32>, Vec<(u32, u32)>))
    requires
        indices@.len() % 3 == 0,
        vertex_count + indices@.len() < u32::MAX,
        4 * indices@.len() <= usize::MAX,
    ensures
        ({
            let (out, pairs) = subdivision(indices@, vertex_count as int, (indices@.len() / 3) as nat);
            &&& r.0@.len() == out.len()
            &&& forall|k: int| 0 <= k < out.len() ==> #[trigger] r.0@[k] as int == out[k]
            &&& r.1@ == pairs
        }),
        r.0@.len() == 4 * indices@.len(),
        distinct_edges(r.1@),
        r.1@.len() <= indices@.len(),
{
    let ghost nv = vertex_count as int;
    let mut out: Vec<u32> = Vec::new();
    let mut pairs: Vec<(u32, u32)> = Vec::new();
    let mut cache: HashMap<u64, u32> = HashMap::new();
    let ntri = indices.len() / 3;
    let mut t: usize = 0;
    proof {
        broadcast use vstd::std_specs::hash::group_hash_axioms;
        assert(cache_matches(cache@, pairs@, nv));
    }
    while t < ntri
        invariant
            ntri == indices@.len() / 3,
            nv == vertex_count as int,
            indices@.len() % 3 == 0,
            vertex_count + indices@.len() < u32::MAX,
            4 * indices@.len() <= usize::MAX,
            t <= ntri,
            cache_matches(cache@, pairs@, nv),
            pairs@.len() <= 3 * t,
            out@.len() == 12 * t,
            ({
                let (o, p) = subdivision(indices@, nv, t as nat);
                &&& o.len() == out@.len()
                &&& forall|k: int| 0 <= k < o.len() ==> #[trigger] out@[k] as int == o[k]
                &&& pairs@ == p
            }),
        decreases ntri - t,
    {
        let a = indices[3 * t];
        let b = indices[3 * t + 1];
        let c = indices[3 * t + 2];
        let ghost p0 = pairs@;
        let ab = midpoint(&mut cache, &mut pairs, vertex_count, a, b);
        proof {
            lemma_add_edge(p0, edge_key(a, b));
        }
        let ghost p1x = pairs@;
        let bc = midpoint(&mut cache, &mut pairs, vertex_count, b, c);
        proof {
            lemma_add_edge(p1x, edge_key(b, c));
        }
        let ghost p2x = pairs@;
        let ca = midpoint(&mut cache, &mut pairs, vertex_count, c, a);
        proof {
            lemma_add_edge(p2x, edge_key(c, a));
        }
        let ghost p3 = pairs@;
        proof {
            // Positions of earlier edges do not move as edges are appended.
            let p1 = add_edge(subdivision(indices@, nv, t as nat).1, edge_key(a, b));
            let p2 = add_edge(p1, edge_key(b, c));
            assert(p3 == add_edge(p2, edge_key(c, a)));
            let iab = edge_position(p1, edge_key(a, b));
            assert(0 <= iab < p1.len() && p1[iab] == edge_key(a, b));
            assert(p3[iab] == edge_key(a, b));
            lemma_position(p3, iab);
            let ibc = edge_position(p2, edge_key(b, c));
            assert(0 <= ibc < p2.len() && p2[ibc] == edge_key(b, c));
            assert(p3[ibc] == edge_key(b, c));
            lemma_position(p3, ibc);
        }
        let ghost before = out@;
        out.push(a);
        out.push(ab);
        out.push(ca);
        out.push(b);
        out.push(bc);
        out.push(ab);
        out.push(c);
        out.push(ca);
        out.push(bc);
        out.push(ab);
        out.push(bc);
        out.push(ca);
        proof {
            let (o0, p0) = subdivision(indices@, nv, t as nat);
            let (o, p) = subdivision(indices@, nv, (t + 1) as nat);
            assert(((t + 1) as nat - 1) as nat == t);
            let tri = split_triangle(a, b, c, ab as int, bc as int, ca as int);
            assert(o == o0 + tri);
            assert(p == p3);
            assert forall|k: int| 0 <= k < o.len() implies #[trigger] out@[k] as int == o[k] by {
                if k < before.len() {
                    assert(out@[k] == before[k]);
                    assert(o[k] == o0[k]);
                } else {
                    let j = k - before.len();
                    assert(o[k] == tri[j]);
                    assert(0 <= j < 12);
                }
            }
        }
        t = t + 1;
    }
    proof {
        assert(ntri == indices@.len() / 3);
    }
    (out, pairs)
}

/// After a subdivision level every edge of the new vertices joins two old vertices,
/// and every new index names an old vertex or one of the new midpoints.
pub proof fn subdivision_in_range(tris: Seq<u32>, nv: int, t: nat)
    requires
        3 * t <= tris.len(),
        forall|k: int| 0 <= k < tris.len() ==> #[trigger] tris[k] < nv,
    ensures
        forall|i: int|
            0 <= i < subdivision(tris, nv, t).1.len() ==> (#[trigger] subdivision(tris, nv, t).1[i]).0
                < nv && subdivision(tris, nv, t).1[i].1 < nv,
        forall|k: int|
            0 <= k < subdivision(tris, nv, t).0.len() ==> 0 <= #[trigger] subdivision(tris, nv, t).0[k]
                < nv + subdivision(tris, nv, t).1.len(),
        subdivision(tris, nv, t).0.len() == 12 * t,
    decreases t,
{
    if t > 0 {
        subdivision_in_range(tris, nv, (t - 1) as nat);
        let (out, p) = subdivision(tris, nv, (t - 1) as nat);
        let a = tris[3 * (t - 1)];
        let b = tris[3 * (t - 1) + 1];
        let c = tris[3 * (t - 1) + 2];
        let p1 = add_edge(p, edge_key(a, b));
        let p2 = add_edge(p1, edge_key(b, c));
        let p3 = add_edge(p2, edge_key(c, a));
        lemma_add_edge(p, edge_key(a, b));
        lemma_add_edge(p1, edge_key(b, c));
        lemma_add_edge(p2, edge_key(c, a));
        assert(p3.contains(edge_key(a, b)));
        assert(p3.contains(edge_key(b, c)));
        assert(p3.contains(edge_key(c, a)));
        let (o3, q3) = subdivision(tris, nv, t);
        assert(q3 == p3);
        assert forall|k: int| 0 <= k < o3.len() implies 0 <= #[trigger] o3[k] < nv + p3.len() by {
            if k >= out.len() {
                let j = k - out.len();
                assert(o3[k] == split_triangle(a, b, c,
                    nv + edge_position(p3, edge_key(a, b)),
                    nv + edge_position(p3, edge_key(b, c)),
                    nv + edge_position(p3, edge_key(c, a)))[j]);
            } else {
                assert(o3[k] == out[k]);
            }
        }
    }
}

/// The triangles of the regular icosahedron over its 12 vertices.
pub open spec fn icosahedron() -> Seq<u32> {
    seq![
        0, 11, 5, 0, 5, 1, 0, 1, 7, 0, 7, 10, 0, 10, 11,
        1, 5, 9, 5, 11, 4, 11, 10, 2, 10, 7, 6, 7, 1, 8,
        3, 9, 4, 3, 4, 2, 3, 2, 6, 3, 6, 8, 3, 8, 9,
        4, 9, 5, 2, 4, 11, 6, 2, 10, 8, 6, 7, 9, 8, 1,
    ]
}

/// The icosphere after `n` levels of subdivision of the icosahedron: its triangles,
/// its vertex count, and the edges whose midpoints became vertices 12, 13, ..., in
/// that order.
pub open spec fn icosphere(n: nat) -> (Seq<u32>, int, Seq<(u32, u32)>)
    decreases n,
{
    if n == 0 {
        (icosahedron(), 12, Seq::empty())
    } else {
        let (tris, nv, mids) = icosphere((n - 1) as nat);
        let (out, pairs) = subdivision(tris, nv, (tris.len() / 3) as nat);
        (out.map_values(|x: int| x as u32), nv + pairs.len(), mids + pairs)
    }
}

/// Four to the power `k`.
pub open spec fn pow4(k: nat) -> nat
    decreases k,
{
    if k == 0 {
        1
    } else {
        4 * pow4((k - 1) as nat)
    }
}

proof fn lemma_pow4_le(k: nat)
    requires
        k <= 11,
    ensures
        1 <= pow4(k) <= 4194304,
    decreases 11 - k,
{
    if k == 11 {
        reveal_with_fuel(pow4, 12);
    } else {
        lemma_pow4_le(k + 1);
        assert(pow4(k + 1) == 4 * pow4(k));
    }
}

/// The topology of a unit icosphere with `subdivisions` levels: triangle indices, the
/// vertex count, and for each vertex after the icosahedron's 12 the pair of vertices it
/// is the midpoint of (the caller places it there, pushed out to the sphere).
/// Beyond 12 levels the index buffer alone outgrows 4 GiB and `u32` indices.
pub fn icosphere_topology(subdivisions: u32) -> (r: (Vec<u32>, u32, Vec<(u32, u32)>))
    requires
        subdivisions <= 12,
    ensures
        r.0@ == icosphere(subdivisions as nat).0,
        r.1 as int == icosphere(subdivisions as nat).1,
        r.2@ == icosphere(subdivisions as nat).2,
{
    let mut tris: Vec<u32> = vec![
        0, 11, 5, 0, 5, 1, 0, 1, 7, 0, 7, 10, 0, 10, 11,
        1, 5, 9, 5, 11, 4, 11, 10, 2, 10, 7, 6, 7, 1, 8,
        3, 9, 4, 3, 4, 2, 3, 2, 6, 3, 6, 8, 3, 8, 9,
        4, 9, 5, 2, 4, 11, 6, 2, 10, 8, 6, 7, 9, 8, 1,
    ];
    let mut nv: u32 = 12;
    let mut mids: Vec<(u32, u32)> = Vec::new();
    let mut level: u32 = 0;
    proof {
        assert(tris@ =~= icosahedron());
        assert(mids@ =~= Seq::<(u32, u32)>::empty());
    }
    while level < subdivisions
        invariant
            level <= subdivisions <= 12,
            (tris@, nv as int, mids@) == icosphere(level as nat),
            tris@.len() == 60 * pow4(level as nat),
            nv <= 12 + 20 * pow4(level as nat),
        decreases subdivisions - level,
    {
        proof {
            lemma_pow4_le(level as nat);
        }
        let ghost t0 = tris@;
        let (out, mut pairs) = subdivide(&tris, nv);
        proof {
            let (o, ps) = subdivision(t0, nv as int, (t0.len() / 3) as nat);
            assert(out@ =~= o.map_values(|x: int| x as u32));
            assert(pow4((level + 1) as nat) == 4 * pow4(level as nat));
        }
        nv = nv + pairs.len() as u32;
        mids.append(&mut pairs);
        tris = out;
        level = level + 1;
    }
    (tris, nv, mids)
}

} // verus!
