use vstd::prelude::*;

verus! {

/// Every vertex index of `indices` names a position triple inside an array of
/// `positions_len` coordinates.
pub open spec fn indices_in_range(indices: Seq<u32>, positions_len: int) -> bool {
    forall|q: int| 0 <= q < indices.len() ==> 3 * (#[trigger] indices[q]) + 2 < positions_len
}

/// Offsets of the first coordinate of each corner of face `f`.
pub open spec fn face_corners(indices: Seq<u32>, f: int) -> (usize, usize, usize) {
    (
        (3 * indices[3 * f]) as usize,
        (3 * indices[3 * f + 1]) as usize,
        (3 * indices[3 * f + 2]) as usize,
    )
}

/// For a triangle soup given as vertex index triples into a flat array of
/// `positions_len` coordinates (x, y, z per vertex), the offset of the x
/// coordinate of each corner of each face. `None` when the indices do not
/// come in whole triples or one of them names a vertex past the array.
pub fn triangle_corners(indices: &Vec<u32>, positions_len: usize) -> (r: Option<Vec<(usize, usize, usize)>>)
    ensures
        r is Some <==> (indices@.len() % 3 == 0 && indices_in_range(indices@, positions_len as int)),
        r is Some ==> r->Some_0@.len() == indices@.len() / 3,
        r is Some ==> forall|f: int|
            0 <= f < r->Some_0@.len() ==> #[trigger] r->Some_0@[f] == face_corners(indices@, f),
{
    let n = indices.len();
    if n % 3 != 0 {
        return None;
    }
    let faces = n / 3;
    let mut out: Vec<(usize, usize, usize)> = Vec::new();
    let mut f: usize = 0;
    while f < faces
        invariant
            n == indices@.len(),
            faces == n / 3,
            indices@.len() % 3 == 0,
            f <= faces,
            out@.len() == f,
            forall|q: int| 0 <= q < 3 * f ==> 3 * (#[trigger] indices@[q]) + 2 < positions_len,
            forall|g: int| 0 <= g < f ==> #[trigger] out@[g] == face_corners(indices@, g),
        decreases faces - f,
    {
        assert(3 * f + 2 < n) by (nonlinear_arith)
            requires
                f < faces,
                faces == n / 3,
                n % 3 == 0,
        ;
        let a = 3 * (indices[3 * f] as u64);
        let b = 3 * (indices[3 * f + 1] as u64);
        let c = 3 * (indices[3 * f + 2] as u64);
        if a + 2 >= positions_len as u64 || b + 2 >= positions_len as u64 || c + 2 >= positions_len as u64 {
            proof {
                let q = if a + 2 >= positions_len as u64 {
                    3 * f as int
                } else if b + 2 >= positions_len as u64 {
                    3 * f as int + 1
                } else {
                    3 * f as int + 2
                };
                assert(!(3 * indices@[q] + 2 < positions_len));
            }
            return None;
        }
        out.push((a as usize, b as usize, c as usize));
        f = f + 1;
    }
    Some(out)
}

} // verus!
