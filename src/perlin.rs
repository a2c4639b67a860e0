use rand::Rng;
use vstd::prelude::*;
use vstd::seq_lib::to_multiset_update;

verus! {

/// Number of lattice points along each axis of the noise tables.
pub const POINT_COUNT: usize = 256;

/// Number of lattice points along each axis of the noise tables.
pub fn point_count() -> (r: usize)
    ensures
        r == 256,
{
    POINT_COUNT
}

/// `s` holds each of `0..n` exactly once.
pub open spec fn is_permutation(s: Seq<i64>, n: int) -> bool {
    &&& s.len() == n
    &&& forall|i: int| 0 <= i < s.len() ==> 0 <= #[trigger] s[i] < n
    &&& s.no_duplicates()
}

/// The low eight bits of a lattice coordinate: its cell along one axis.
pub open spec fn cell(i: i64) -> int {
    (i & 255) as int
}

/// The gradient index of lattice point `(i, j, k)`.
pub open spec fn lattice_hash(px: Seq<i64>, py: Seq<i64>, pz: Seq<i64>, i: i64, j: i64, k: i64) -> int {
    (px[cell(i)] ^ py[cell(j)] ^ pz[cell(k)]) as int
}

/// Relies on rand::thread_rng and rand::Rng::gen_range: a value drawn from
/// `0..n`, which gen_range panics on when it is empty.
#[verifier::external_body]
fn random_below(n: usize) -> (r: usize)
    requires
        n > 0,
    ensures
        r < n,
{
    rand::thread_rng().gen_range(0..n)
}

proof fn lemma_swap_multiset(s: Seq<i64>, i: int, t: int)
    requires
        0 <= i < s.len(),
        0 <= t < s.len(),
    ensures
        s.update(i, s[t]).update(t, s[i]).to_multiset() =~= s.to_multiset(),
{
    broadcast use to_multiset_update;
    broadcast use vstd::seq_lib::to_multiset_contains;
    broadcast use vstd::multiset::group_multiset_axioms;

    let s1 = s.update(i, s[t]);
    if i == t {
        assert(s.update(i, s[t]).update(t, s[i]) =~= s);
    } else {
        assert(s1.to_multiset() =~= s.to_multiset().insert(s[t]).remove(s[i]));
        assert(s1[t] == s[t]);
        assert(s.contains(s[i]));
        assert(s.contains(s[t]));
        assert(s1.update(t, s[i]).to_multiset() =~= s1.to_multiset().insert(s[i]).remove(s[t]));
        assert(s.to_multiset().insert(s[t]).remove(s[i]).insert(s[i]).remove(s[t]) =~= s.to_multiset());
    }
}

/// Shuffles the first `n` entries of `p`: for each `i` from `n - 1` down to 1,
/// entry `i` trades places with a randomly chosen entry below it. The entries
/// are only rearranged.
pub fn permute(p: &mut Vec<i64>, n: usize)
    requires
        n <= old(p)@.len(),
    ensures
        final(p)@.len() == old(p)@.len(),
        final(p)@.to_multiset() == old(p)@.to_multiset(),
        forall|k: int| n <= k < old(p)@.len() ==> final(p)@[k] == old(p)@[k],
{
    let ghost s0 = p@;
    let mut i: usize = n;
    while i > 1
        invariant
            i <= n,
            n <= p@.len(),
            p@.len() == s0.len(),
            p@.to_multiset() == s0.to_multiset(),
            forall|k: int| n <= k < s0.len() ==> p@[k] == s0[k],
        decreases i,
    {
        i = i - 1;
        let target = random_below(i);
        let a = p[i];
        let b = p[target];
        proof {
            lemma_swap_multiset(p@, i as int, target as int);
        }
        p.set(i, b);
        p.set(target, a);
    }
}

/// A random permutation of `0..256`.
pub fn perlin_generate_perm() -> (r: Vec<i64>)
    ensures
        is_permutation(r@, 256),
{
    let mut p: Vec<i64> = Vec::new();
    let mut i: usize = 0;
    while i < POINT_COUNT
        invariant
            i <= POINT_COUNT,
            p@.len() == i,
            forall|k: int| 0 <= k < i ==> p@[k] == k,
        decreases POINT_COUNT - i,
    {
        p.push(i as i64);
        i = i + 1;
    }
    let ghost s0 = p@;
    proof {
        assert(s0.no_duplicates());
        s0.lemma_multiset_has_no_duplicates();
    }
    permute(&mut p, POINT_COUNT);
    proof {
        broadcast use vstd::seq_lib::to_multiset_contains;
        broadcast use vstd::multiset::group_multiset_axioms;

        assert forall|x: i64| p@.to_multiset().contains(x) implies p@.to_multiset().count(x) == 1 by {
            assert(s0.to_multiset().contains(x));
        }
        p@.lemma_multiset_has_no_duplicates_conv();
        assert forall|k: int| 0 <= k < p@.len() implies 0 <= #[trigger] p@[k] < 256 by {
            assert(p@.contains(p@[k]));
            assert(p@.to_multiset().count(p@[k]) > 0);
            assert(s0.to_multiset().count(p@[k]) > 0);
            assert(s0.contains(p@[k]));
            let idx = choose|idx: int| 0 <= idx < s0.len() && s0[idx] == p@[k];
            assert(s0[idx] == idx);
        }
    }
    p
}

/// The three permutation tables that hash a lattice point to one of the
/// `POINT_COUNT` gradients of a Perlin noise field.
pub struct PerlinTables {
    perm_x: Vec<i64>,
    perm_y: Vec<i64>,
    perm_z: Vec<i64>,
}

impl PerlinTables {
    pub closed spec fn spec_perm_x(&self) -> Seq<i64> {
        self.perm_x@
    }

    pub closed spec fn spec_perm_y(&self) -> Seq<i64> {
        self.perm_y@
    }

    pub closed spec fn spec_perm_z(&self) -> Seq<i64> {
        self.perm_z@
    }

    pub open spec fn wf(&self) -> bool {
        &&& is_permutation(self.spec_perm_x(), 256)
        &&& is_permutation(self.spec_perm_y(), 256)
        &&& is_permutation(self.spec_perm_z(), 256)
    }

    /// Three independently drawn permutations.
    pub fn new() -> (r: Self)
        ensures
            r.wf(),
    {
        let perm_x = perlin_generate_perm();
        let perm_y = perlin_generate_perm();
        let perm_z = perlin_generate_perm();
        PerlinTables { perm_x, perm_y, perm_z }
    }

    /// The gradient index of lattice point `(i, j, k)`: the exclusive or of the
    /// three tables at the point's cells.
    pub fn hash(&self, i: i64, j: i64, k: i64) -> (r: usize)
        requires
            self.wf(),
        ensures
            r == lattice_hash(self.spec_perm_x(), self.spec_perm_y(), self.spec_perm_z(), i, j, k),
            r < POINT_COUNT,
    {
        proof {
            assert(0 <= (i & 255) < 256) by (bit_vector);
            assert(0 <= (j & 255) < 256) by (bit_vector);
            assert(0 <= (k & 255) < 256) by (bit_vector);
        }
        let a = self.perm_x[(i & 255) as usize];
        let b = self.perm_y[(j & 255) as usize];
        let c = self.perm_z[(k & 255) as usize];
        proof {
            assert(0 <= a < 256);
            assert(0 <= b < 256);
            assert(0 <= c < 256);
            assert(0 <= a ^ b ^ c < 256) by (bit_vector)
                requires
                    0 <= a < 256,
                    0 <= b < 256,
                    0 <= c < 256,
            ;
        }
        (a ^ b ^ c) as usize
    }
}

} // verus!
