//! The wireframe edges of a triangle mesh: every side of every triangle,
//! recorded once whichever way round it was met first.
use std::collections::HashSet;
use vstd::prelude::*;

verus! {

broadcast use vstd::std_specs::hash::group_hash_axioms;

/// Whether the side `a`–`b` is already present in `s`, in either orientation.
pub open spec fn side_seen(s: Set<(u16, u16)>, a: u16, b: u16) -> bool {
    s.contains((a, b)) || s.contains((b, a))
}

/// `s` with the side `a`–`b` added in that orientation, unless it is already
/// present in either orientation.
pub open spec fn add_side(s: Set<(u16, u16)>, a: u16, b: u16) -> Set<(u16, u16)> {
    if side_seen(s, a, b) {
        s
    } else {
        s.insert((a, b))
    }
}

/// The corner `k` (0, 1 or 2) of triangle `t` in a flat list of indices.
pub open spec fn corner(faces: Seq<u16>, t: int, k: int) -> u16 {
    faces[3 * t + k]
}

/// The edges recorded after the first `t` triangles of `faces` have been
/// visited; each triangle (a, b, c) offers its sides in the order a–b, b–c, a–c.
pub open spec fn edges_after(faces: Seq<u16>, t: nat) -> Set<(u16, u16)>
    decreases t,
{
    if t == 0 {
        Set::empty()
    } else {
        let p = (t - 1) as int;
        let a = corner(faces, p, 0);
        let b = corner(faces, p, 1);
        let c = corner(faces, p, 2);
        add_side(add_side(add_side(edges_after(faces, (t - 1) as nat), a, b), b, c), a, c)
    }
}

/// The number of whole triangles in a flat list of corner indices.
pub open spec fn triangle_count(faces: Seq<u16>) -> nat {
    faces.len() / 3
}

/// The edge set of the mesh: one entry per distinct side of a whole triangle.
pub open spec fn mesh_edge_set(faces: Seq<u16>) -> Set<(u16, u16)> {
    edges_after(faces, triangle_count(faces))
}

/// Reads a flat list of indices as consecutive pairs.
pub open spec fn as_pairs(flat: Seq<u16>) -> Seq<(u16, u16)> {
    Seq::new(flat.len() / 2, |i: int| (flat[2 * i], flat[2 * i + 1]))
}

/// The hash-set key under which the directed side `a`–`b` is stored.
pub open spec fn side_key(a: u16, b: u16) -> u32 {
    (a * 65536 + b) as u32
}

/// The directed side that a hash-set key stands for.
pub open spec fn key_side(k: u32) -> (u16, u16) {
    ((k / 65536) as u16, (k % 65536) as u16)
}

proof fn lemma_key_side_inverse(a: u16, b: u16)
    ensures
        a * 65536 + b <= u32::MAX,
        key_side(side_key(a, b)) == (a, b),
{
    assert(a * 65536 + b <= 65535 * 65536 + 65535) by (nonlinear_arith)
        requires a <= 65535, b <= 65535;
    let k = a * 65536 + b;
    assert(k / 65536 == a && k % 65536 == b) by (nonlinear_arith)
        requires k == a * 65536 + b, 0 <= b < 65536, 0 <= a;
}

proof fn lemma_side_key_inverse(k: u32)
    ensures
        side_key(key_side(k).0, key_side(k).1) == k,
{
    let a = k / 65536;
    let b = k % 65536;
    assert(a * 65536 + b == k && a < 65536) by (nonlinear_arith)
        requires a == k / 65536, b == k % 65536, 0 <= k <= u32::MAX;
}

fn side_key_exec(a: u16, b: u16) -> (k: u32)
    ensures
        k == side_key(a, b),
{
    proof {
        lemma_key_side_inverse(a, b);
    }
    (a as u32) * 65536 + (b as u32)
}

fn add_side_exec(set: &mut HashSet<u32>, a: u16, b: u16, Ghost(edges): Ghost<Set<(u16, u16)>>)
    requires
        forall|x: u16, y: u16| #[trigger] old(set)@.contains(side_key(x, y)) == edges.contains((x, y)),
    ensures
        forall|x: u16, y: u16|
            #[trigger] final(set)@.contains(side_key(x, y)) == add_side(edges, a, b).contains((x, y)),
{
    let ab = side_key_exec(a, b);
    let ba = side_key_exec(b, a);
    if !set.contains(&ab) && !set.contains(&ba) {
        set.insert(ab);
        proof {
            assert forall|x: u16, y: u16|
                #[trigger] set@.contains(side_key(x, y)) == add_side(edges, a, b).contains((x, y)) by {
                lemma_key_side_inverse(x, y);
                lemma_key_side_inverse(a, b);
            }
        }
    }
}

/// Collects the sides of the whole triangles in `faces` (three indices per
/// triangle; a trailing partial triangle is ignored), each side once, and
/// returns them flattened as consecutive index pairs. The pairs come out in
/// the order in which the hash set that gathers them is walked, so only the
/// set of pairs, and that none repeats, is fixed.
pub fn edges_from_faces(faces: &Vec<u16>) -> (edges: Vec<u16>)
    ensures
        edges@.len() % 2 == 0,
        as_pairs(edges@).no_duplicates(),
        as_pairs(edges@).to_set() == mesh_edge_set(faces@),
{
    let mut set: HashSet<u32> = HashSet::with_capacity(faces.len());
    let n = faces.len() / 3;
    let mut t: usize = 0;
    while t < n
        invariant
            n == faces@.len() / 3,
            3 * n <= faces@.len(),
            t <= n,
            forall|x: u16, y: u16|
                #[trigger] set@.contains(side_key(x, y)) == edges_after(faces@, t as nat).contains(
                    (x, y),
                ),
        decreases n - t,
    {
        assert(3 * t + 2 < faces.len());
        let a = faces[3 * t];
        let b = faces[3 * t + 1];
        let c = faces[3 * t + 2];
        let ghost e0 = edges_after(faces@, t as nat);
        add_side_exec(&mut set, a, b, Ghost(e0));
        add_side_exec(&mut set, b, c, Ghost(add_side(e0, a, b)));
        add_side_exec(&mut set, a, c, Ghost(add_side(add_side(e0, a, b), b, c)));
        t = t + 1;
    }
    let ghost es = mesh_edge_set(faces@);
    let mut edges: Vec<u16> = Vec::new();
    let ghost keys: Seq<u32> = vstd::std_specs::iter::IteratorSpec::remaining(
        &vstd::std_specs::hash::spec_hash_keys_iter(&set),
    ).unref();
    for k in it: set.iter()
        invariant
            forall|x: u16, y: u16| #[trigger] set@.contains(side_key(x, y)) == es.contains((x, y)),
            it.seq().unref() == keys,
            keys.to_set() == set@,
            keys.no_duplicates(),
            edges@.len() == 2 * it.index(),
            forall|i: int| 0 <= i < it.index() ==> #[trigger] as_pairs(edges@)[i] == key_side(keys[i]),
    {
        let key: u32 = *k;
        let ghost before = edges@;
        edges.push((key / 65536) as u16);
        edges.push((key % 65536) as u16);
        proof {
            assert(*k == keys[it.index()]);
            assert forall|i: int| 0 <= i <= it.index() implies #[trigger] as_pairs(edges@)[i]
                == key_side(keys[i]) by {
                if i < it.index() {
                    assert(as_pairs(before)[i] == key_side(keys[i]));
                }
            }
        }
    }
    let ghost pairs = as_pairs(edges@);
    proof {
        assert(pairs.len() == keys.len());
        assert forall|i: int, j: int| 0 <= i < pairs.len() && 0 <= j < pairs.len() && i != j
            implies pairs[i] != pairs[j] by {
            assert(pairs[i] == key_side(keys[i]));
            assert(pairs[j] == key_side(keys[j]));
            lemma_side_key_inverse(keys[i]);
            lemma_side_key_inverse(keys[j]);
            assert(keys[i] != keys[j]);
        }
        assert forall|p: (u16, u16)| pairs.to_set().contains(p) <==> es.contains(p) by {
            lemma_key_side_inverse(p.0, p.1);
            if pairs.to_set().contains(p) {
                let i = choose|i: int| 0 <= i < pairs.len() && pairs[i] == p;
                assert(pairs[i] == key_side(keys[i]));
                lemma_side_key_inverse(keys[i]);
                assert(keys.to_set().contains(keys[i]));
                assert(set@.contains(keys[i]));
                assert(set@.contains(side_key(p.0, p.1)));
            }
            if es.contains(p) {
                assert(set@.contains(side_key(p.0, p.1)));
                assert(keys.to_set().contains(side_key(p.0, p.1)));
                let i = choose|i: int| 0 <= i < keys.len() && keys[i] == side_key(p.0, p.1);
                assert(pairs[i] == key_side(keys[i]));
                assert(pairs.contains(p));
            }
        }
        assert(pairs.to_set() =~= es);
    }
    edges
}

/// Whether `x`–`y`, in that orientation, is one of the three sides that
/// triangle `t` offers (a–b, b–c, a–c).
pub open spec fn offered_side(faces: Seq<u16>, t: int, x: u16, y: u16) -> bool {
    let a = corner(faces, t, 0);
    let b = corner(faces, t, 1);
    let c = corner(faces, t, 2);
    (x == a && y == b) || (x == b && y == c) || (x == a && y == c)
}

proof fn lemma_edges_after_facts(faces: Seq<u16>, t: nat)
    requires
        3 * t <= faces.len(),
    ensures
        forall|p: int, x: u16, y: u16|
            0 <= p < t && #[trigger] offered_side(faces, p, x, y) ==> side_seen(
                edges_after(faces, t),
                x,
                y,
            ),
        forall|x: u16, y: u16|
            #[trigger] edges_after(faces, t).contains((x, y)) ==> exists|p: int|
                0 <= p < t && #[trigger] offered_side(faces, p, x, y),
        forall|x: u16, y: u16|
            edges_after(faces, t).contains((x, y)) && edges_after(faces, t).contains((y, x)) ==> x
                == y,
        edges_after(faces, t).finite(),
        edges_after(faces, t).len() <= 3 * t,
    decreases t,
{
    if t > 0 {
        let q = (t - 1) as nat;
        lemma_edges_after_facts(faces, q);
        let s0 = edges_after(faces, q);
        let a = corner(faces, q as int, 0);
        let b = corner(faces, q as int, 1);
        let c = corner(faces, q as int, 2);
        let s1 = add_side(s0, a, b);
        let s2 = add_side(s1, b, c);
        let s3 = add_side(s2, a, c);
        assert(s3 == edges_after(faces, t));
        assert forall|x: u16, y: u16| #[trigger] s3.contains((x, y)) implies exists|p: int|
            0 <= p < t && #[trigger] offered_side(faces, p, x, y) by {
            if s0.contains((x, y)) {
                let p = choose|p: int| 0 <= p < q && #[trigger] offered_side(faces, p, x, y);
                assert(offered_side(faces, p, x, y));
            } else {
                assert(offered_side(faces, q as int, x, y));
            }
        }
    }
}

/// Every side of every whole triangle appears in the edge set, in one
/// orientation or the other.
pub proof fn law_every_side_is_an_edge(faces: Seq<u16>, t: int, x: u16, y: u16)
    requires
        0 <= t < triangle_count(faces),
        offered_side(faces, t, x, y),
    ensures
        mesh_edge_set(faces).contains((x, y)) || mesh_edge_set(faces).contains((y, x)),
{
    lemma_edges_after_facts(faces, triangle_count(faces));
}

/// Every edge in the edge set is a side, in that orientation, of some whole
/// triangle.
pub proof fn law_every_edge_is_a_side(faces: Seq<u16>, x: u16, y: u16)
    requires
        mesh_edge_set(faces).contains((x, y)),
    ensures
        exists|t: int| 0 <= t < triangle_count(faces) && #[trigger] offered_side(faces, t, x, y),
{
    lemma_edges_after_facts(faces, triangle_count(faces));
}

/// No side is recorded in both orientations.
pub proof fn law_no_edge_in_both_orientations(faces: Seq<u16>, x: u16, y: u16)
    requires
        mesh_edge_set(faces).contains((x, y)),
        mesh_edge_set(faces).contains((y, x)),
    ensures
        x == y,
{
    lemma_edges_after_facts(faces, triangle_count(faces));
}

/// There are at most three edges per whole triangle.
pub proof fn law_at_most_three_edges_per_triangle(faces: Seq<u16>)
    ensures
        mesh_edge_set(faces).finite(),
        mesh_edge_set(faces).len() <= 3 * triangle_count(faces),
{
    lemma_edges_after_facts(faces, triangle_count(faces));
}

} // verus!
