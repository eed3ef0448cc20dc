use vstd::prelude::*;

verus! {

/// The signed value a raw zigzag-encoded wire integer denotes: even raw
/// values map to `raw / 2`, odd ones to `-(raw / 2) - 1`, so small
/// magnitudes of either sign stay small on the wire.
pub open spec fn spec_zigzag_decode(raw: u32) -> int {
    if raw % 2 == 0 {
        (raw / 2) as int
    } else {
        -((raw / 2) as int) - 1
    }
}

/// The raw wire integer that denotes a signed value under zigzag
/// encoding: non-negative `v` maps to `2 * v`, negative `v` to
/// `-2 * v - 1`.
pub open spec fn spec_zigzag_encode(v: int) -> int {
    if v >= 0 {
        2 * v
    } else {
        -2 * v - 1
    }
}

/// Decodes one zigzag-encoded geometry parameter to its signed delta.
pub fn decode_zigzag(input: u32) -> (r: i64)
    ensures
        r == spec_zigzag_decode(input),
        -0x8000_0000 <= r <= 0x7fff_ffff,
{
    let a: i64 = input as i64;
    proof {
        assert(0 <= (a & 1) && (a & 1) <= 1) by (bit_vector);
    }
    let r: i64 = (a >> 1) ^ (-(a & 1));
    proof {
        assert((a >> 1) ^ ((0 - (a & 1)) as i64) == (if a % 2 == 0 {
            (a / 2) as i64
        } else {
            ((0 - (a / 2)) - 1) as i64
        })) by (bit_vector)
            requires
                0 <= a < 0x1_0000_0000,
        ;
    }
    r
}

/// Encodes one signed delta back into its raw zigzag wire form.
pub fn encode_zigzag(v: i64) -> (r: u32)
    requires
        -0x8000_0000 <= v <= 0x7fff_ffff,
    ensures
        r == spec_zigzag_encode(v as int),
{
    if v >= 0 {
        (2 * v) as u32
    } else {
        let w: i64 = -v;
        (2 * w - 1) as u32
    }
}

/// Zigzag decoding loses nothing: re-encoding the decoded value of any
/// raw wire integer gives back that integer.
pub proof fn lemma_zigzag_roundtrip(raw: u32)
    ensures
        spec_zigzag_encode(spec_zigzag_decode(raw)) == raw,
{
}

/// The cross product that one ring edge from `p` to `q` contributes to
/// the doubled signed area.
pub open spec fn cross(p: (int, int), q: (int, int)) -> int {
    p.0 * q.1 - q.0 * p.1
}

/// The index that follows `j` on a ring of `n` points, wrapping the last
/// edge back to the first point.
pub open spec fn next_idx(n: int, j: int) -> int {
    if j + 1 == n {
        0
    } else {
        j + 1
    }
}

/// The edge contribution of point `j` of the ring.
pub open spec fn sl_edge(ring: Seq<(int, int)>, j: int) -> int {
    cross(ring[j], ring[next_idx(ring.len() as int, j)])
}

/// The sum of the first `k` edge contributions of the ring.
pub open spec fn sl_partial(ring: Seq<(int, int)>, k: int) -> int
    decreases k,
{
    if k <= 0 {
        0
    } else {
        sl_partial(ring, k - 1) + sl_edge(ring, k - 1)
    }
}

/// Twice the signed area of a ring under the shoelace formula, in the
/// tile's y-down coordinate space: positive for the exterior-ring winding
/// direction.  Working with the doubled value keeps the area integral.
pub open spec fn shoelace2(ring: Seq<(int, int)>) -> int {
    sl_partial(ring, ring.len() as int)
}

/// Whether a value fits the machine accumulator used for areas.
pub open spec fn in_i128(v: int) -> bool {
    i128::MIN <= v <= i128::MAX
}

/// The accumulator value mid-way through edge `j`, after the first
/// product of the edge is added and before the second is subtracted.
pub open spec fn sl_mid(ring: Seq<(int, int)>, j: int) -> int {
    sl_partial(ring, j) + ring[j].0 * ring[next_idx(ring.len() as int, j)].1
}

/// Whether the first `k` steps of the area accumulation stay in range
/// of the machine accumulator.
pub open spec fn sl_fits_upto(ring: Seq<(int, int)>, k: int) -> bool
    decreases k,
{
    if k <= 0 {
        true
    } else {
        sl_fits_upto(ring, k - 1) && in_i128(sl_mid(ring, k - 1)) && in_i128(
            sl_partial(ring, k),
        )
    }
}

/// Whether every intermediate value of the area accumulation stays in
/// range of the machine accumulator.
pub open spec fn sl_fits(ring: Seq<(int, int)>) -> bool {
    sl_fits_upto(ring, ring.len() as int)
}

proof fn lemma_sl_fits_upto_mono(ring: Seq<(int, int)>, k: int, m: int)
    requires
        0 <= k <= m,
        sl_fits_upto(ring, m),
    ensures
        sl_fits_upto(ring, k),
    decreases m,
{
    if k < m {
        lemma_sl_fits_upto_mono(ring, k, m - 1);
    }
}

/// The pair of mathematical coordinates a stored point denotes.
pub open spec fn pt_model(p: [i64; 2]) -> (int, int) {
    (p@[0] as int, p@[1] as int)
}

/// The sequence of mathematical points a stored ring denotes.
pub open spec fn ring_model(s: Seq<[i64; 2]>) -> Seq<(int, int)> {
    s.map_values(|p: [i64; 2]| pt_model(p))
}

proof fn lemma_prod_in_i128(a: int, b: int)
    by (nonlinear_arith)
    requires
        -0x8000_0000_0000_0000 <= a <= 0x7fff_ffff_ffff_ffff,
        -0x8000_0000_0000_0000 <= b <= 0x7fff_ffff_ffff_ffff,
    ensures
        -0x4000_0000_0000_0000_0000_0000_0000_0000 <= a * b
            <= 0x4000_0000_0000_0000_0000_0000_0000_0000,
{
}

/// Twice the signed area of the ring, or `None` when an intermediate
/// value of the accumulation leaves the machine integer range.
pub fn signed_area(dots: &Vec<[i64; 2]>) -> (r: Option<i128>)
    requires
        dots@.len() >= 3,
    ensures
        match r {
            Some(a) => sl_fits(ring_model(dots@)) && a == shoelace2(ring_model(dots@)),
            None => !sl_fits(ring_model(dots@)),
        },
{
    let n = dots.len();
    let mut acc: i128 = 0;
    let mut j: usize = 0;
    while j < n
        invariant
            3 <= n == dots@.len(),
            0 <= j <= n,
            acc == sl_partial(ring_model(dots@), j as int),
            sl_fits_upto(ring_model(dots@), j as int),
        decreases n - j,
    {
        let jn = if j + 1 == n {
            0
        } else {
            j + 1
        };
        let p = dots[j];
        let q = dots[jn];
        proof {
            assert(ring_model(dots@).len() == dots@.len());
            assert(ring_model(dots@)[j as int] == pt_model(dots@[j as int]));
            assert(ring_model(dots@)[jn as int] == pt_model(dots@[jn as int]));
            assert(next_idx(ring_model(dots@).len() as int, j as int) == jn as int);
            lemma_prod_in_i128(p@[0] as int, q@[1] as int);
            lemma_prod_in_i128(q@[0] as int, p@[1] as int);
        }
        let prod1: i128 = (p[0] as i128) * (q[1] as i128);
        proof {
            assert(sl_mid(ring_model(dots@), j as int) == acc + prod1);
            assert(sl_edge(ring_model(dots@), j as int) == prod1 - prod2_val(p, q)) by {
                assert(cross(pt_model(p), pt_model(q)) == pt_model(p).0 * pt_model(q).1 - pt_model(
                    q,
                ).0 * pt_model(p).1);
            }
            assert(sl_partial(ring_model(dots@), j as int + 1) == acc + prod1 - prod2_val(p, q));
        }
        let mid = match acc.checked_add(prod1) {
            Some(m) => m,
            None => {
                proof {
                    assert(!in_i128(sl_mid(ring_model(dots@), j as int)));
                    lemma_sl_fits_refuted(ring_model(dots@), j as int);
                }
                return None;
            },
        };
        let prod2: i128 = (q[0] as i128) * (p[1] as i128);
        let next = match mid.checked_sub(prod2) {
            Some(m) => m,
            None => {
                proof {
                    assert(!in_i128(sl_partial(ring_model(dots@), j as int + 1)));
                    lemma_sl_fits_refuted(ring_model(dots@), j as int);
                }
                return None;
            },
        };
        acc = next;
        j = j + 1;
        proof {
            assert(sl_fits_upto(ring_model(dots@), j as int));
        }
    }
    Some(acc)
}

/// The second product of the edge that starts at point `p` and ends at
/// point `q`.
spec fn prod2_val(p: [i64; 2], q: [i64; 2]) -> int {
    pt_model(q).0 * pt_model(p).1
}

proof fn lemma_sl_fits_refuted(ring: Seq<(int, int)>, j: int)
    requires
        0 <= j < ring.len(),
        !(in_i128(sl_mid(ring, j)) && in_i128(sl_partial(ring, j + 1))),
    ensures
        !sl_fits(ring),
{
    if sl_fits(ring) {
        lemma_sl_fits_upto_mono(ring, j + 1, ring.len() as int);
    }
}

/// The ring shifted by the same vector at every point.
pub open spec fn translate(ring: Seq<(int, int)>, tx: int, ty: int) -> Seq<(int, int)> {
    ring.map_values(|p: (int, int)| (p.0 + tx, p.1 + ty))
}

proof fn lemma_sl_partial_translate(ring: Seq<(int, int)>, tx: int, ty: int, k: int)
    requires
        ring.len() >= 1,
        0 <= k <= ring.len(),
    ensures
        sl_partial(translate(ring, tx, ty), k) == sl_partial(ring, k) + ty * (ring[0].0
            - ring[if k == ring.len() {
            0int
        } else {
            k
        }].0) + tx * (ring[if k == ring.len() {
            0int
        } else {
            k
        }].1 - ring[0].1),
    decreases k,
{
    let t = translate(ring, tx, ty);
    assert(t.len() == ring.len());
    if k <= 0 {
        assert(sl_partial(t, k) == 0);
        assert(sl_partial(ring, k) == 0);
        assert(ty * (ring[0].0 - ring[0].0) == 0) by (nonlinear_arith);
        assert(tx * (ring[0].1 - ring[0].1) == 0) by (nonlinear_arith);
    } else {
        lemma_sl_partial_translate(ring, tx, ty, k - 1);
        let j = k - 1;
        let nj = next_idx(ring.len() as int, j);
        let px = ring[j].0;
        let py = ring[j].1;
        let qx = ring[nj].0;
        let qy = ring[nj].1;
        let r0x = ring[0].0;
        let r0y = ring[0].1;
        assert(t[j] == (px + tx, py + ty));
        assert(t[nj] == (qx + tx, qy + ty));
        assert(cross(t[j], t[nj]) == (px + tx) * (qy + ty) - (qx + tx) * (py + ty));
        assert((px + tx) * (qy + ty) - (qx + tx) * (py + ty) == (px * qy - qx * py) + ty * (px - qx)
            + tx * (qy - py)) by (nonlinear_arith);
        assert(cross(ring[j], ring[nj]) == px * qy - qx * py);
        assert(ty * (r0x - px) + ty * (px - qx) == ty * (r0x - qx)) by (nonlinear_arith);
        assert(tx * (py - r0y) + tx * (qy - py) == tx * (qy - r0y)) by (nonlinear_arith);
        assert(next_idx(t.len() as int, j) == nj);
        assert(sl_partial(t, k) == sl_partial(t, j) + cross(t[j], t[nj]));
        assert(sl_partial(ring, k) == sl_partial(ring, j) + cross(ring[j], ring[nj]));
    }
}

/// Shifting every point of a ring by one common vector leaves its
/// doubled signed area unchanged.
pub proof fn lemma_shoelace_translation_invariant(ring: Seq<(int, int)>, tx: int, ty: int)
    requires
        ring.len() >= 3,
    ensures
        shoelace2(translate(ring, tx, ty)) == shoelace2(ring),
{
    lemma_sl_partial_translate(ring, tx, ty, ring.len() as int);
    assert(ty * (ring[0].0 - ring[0].0) == 0) by (nonlinear_arith);
    assert(tx * (ring[0].1 - ring[0].1) == 0) by (nonlinear_arith);
}

proof fn lemma_sl_partial_reverse(ring: Seq<(int, int)>, k: int)
    requires
        ring.len() >= 1,
        0 <= k <= ring.len() - 1,
    ensures
        sl_partial(ring.reverse(), k) == sl_partial(ring, ring.len() - 1 - k) - sl_partial(
            ring,
            ring.len() - 1,
        ),
    decreases k,
{
    let rev = ring.reverse();
    let n = ring.len() as int;
    assert(rev.len() == n);
    if k <= 0 {
    } else {
        lemma_sl_partial_reverse(ring, k - 1);
        let j = k - 1;
        let m = n - 2 - j;
        assert(rev[j] == ring[n - 1 - j]);
        assert(next_idx(n, j) == j + 1);
        assert(rev[j + 1] == ring[n - 2 - j]);
        assert(sl_edge(rev, j) == cross(ring[m + 1], ring[m]));
        assert(next_idx(n, m) == m + 1);
        assert(sl_edge(ring, m) == cross(ring[m], ring[m + 1]));
        assert(cross(ring[m + 1], ring[m]) == -cross(ring[m], ring[m + 1]));
        assert(sl_partial(ring, m + 1) == sl_partial(ring, m) + sl_edge(ring, m));
    }
}

/// Reversing the point order of a ring negates its doubled signed area.
pub proof fn lemma_shoelace_reverse_negates(ring: Seq<(int, int)>)
    requires
        ring.len() >= 3,
    ensures
        shoelace2(ring.reverse()) == -shoelace2(ring),
{
    let rev = ring.reverse();
    let n = ring.len() as int;
    lemma_sl_partial_reverse(ring, n - 1);
    assert(sl_partial(rev, n - 1) == -sl_partial(ring, n - 1));
    assert(rev[n - 1] == ring[0]);
    assert(rev[0] == ring[n - 1]);
    assert(sl_edge(rev, n - 1) == cross(ring[0], ring[n - 1]));
    assert(sl_edge(ring, n - 1) == cross(ring[n - 1], ring[0]));
    assert(cross(ring[0], ring[n - 1]) == -cross(ring[n - 1], ring[0]));
    assert(shoelace2(rev) == sl_partial(rev, n - 1) + sl_edge(rev, n - 1));
    assert(shoelace2(ring) == sl_partial(ring, n - 1) + sl_edge(ring, n - 1));
}

} // verus!
