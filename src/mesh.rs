use vstd::prelude::*;

verus! {

/// Groups a flat index list into triangles, three corners each; a trailing
/// group of fewer than three is dropped.
pub fn index_triples(flat: &[u32]) -> (r: Vec<[u32; 3]>)
    ensures
        r@.len() == flat@.len() / 3,
        forall|t: int|
            0 <= t < r@.len() ==> #[trigger] r@[t] == [
                flat@[3 * t],
                flat@[3 * t + 1],
                flat@[3 * t + 2],
            ],
{
    let len = flat.len();
    let n = len / 3;
    let mut r: Vec<[u32; 3]> = Vec::new();
    let mut t: usize = 0;
    while t < n
        invariant
            len == flat@.len(),
            n == len / 3,
            t <= n,
            r@.len() == t,
            forall|s: int|
                0 <= s < t ==> #[trigger] r@[s] == [flat@[3 * s], flat@[3 * s + 1], flat@[3 * s + 2]],
        decreases n - t,
    {
        let k: usize = 3 * t;
        r.push([flat[k], flat[k + 1], flat[k + 2]]);
        t = t + 1;
    }
    r
}

/// Whether every corner of every triangle is a valid offset into an
/// attribute list of `len` entries.
pub open spec fn indices_valid(tris: Seq<[u32; 3]>, len: nat) -> bool {
    forall|t: int, k: int| 0 <= t < tris.len() && 0 <= k < 3 ==> (#[trigger] tris[t][k]) < len
}

/// Checks that every corner of every triangle indexes into a list of `len`
/// entries.
pub fn check_indices(tris: &[[u32; 3]], len: usize) -> (r: bool)
    ensures
        r == indices_valid(tris@, len as nat),
{
    let mut t: usize = 0;
    while t < tris.len()
        invariant
            t <= tris@.len(),
            indices_valid(tris@.subrange(0, t as int), len as nat),
        decreases tris@.len() - t,
    {
        let tri = tris[t];
        if tri[0] as usize >= len || tri[1] as usize >= len || tri[2] as usize >= len {
            assert(!indices_valid(tris@, len as nat)) by {
                assert(tris@[t as int][0] == tri[0]);
            }
            return false;
        }
        assert forall|s: int, k: int| 0 <= s < t + 1 && 0 <= k < 3 implies (#[trigger] tris@.subrange(
            0,
            t + 1,
        )[s][k]) < len by {
            if s < t {
                assert(tris@.subrange(0, t + 1)[s] == tris@.subrange(0, t as int)[s]);
            } else {
                assert(tris@.subrange(0, t + 1)[s] == tri);
            }
        }
        t = t + 1;
    }
    assert(tris@.subrange(0, tris@.len() as int) =~= tris@);
    true
}

} // verus!
