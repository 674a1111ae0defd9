use vstd::arithmetic::div_mod::lemma_fundamental_div_mod_converse;
use vstd::prelude::*;

verus! {

/// Whether `n` is a power of two.
pub open spec fn is_pow2(n: nat) -> bool
    decreases n,
{
    if n == 1 {
        true
    } else if n == 0 || n % 2 == 1 {
        false
    } else {
        is_pow2(n / 2)
    }
}

/// `r` is the smallest power of two that is at least `n`.
pub open spec fn is_next_pow2(n: nat, r: nat) -> bool {
    &&& is_pow2(r)
    &&& n <= r
    &&& (r == 1 || r / 2 < n)
}

/// The smallest power of two that is at least `n` (one for zero).
pub fn next_power_of_two(n: u32) -> (r: u32)
    requires
        n <= 0x8000_0000,
    ensures
        is_next_pow2(n as nat, r as nat),
{
    let mut p: u64 = 1;
    while p < n as u64
        invariant
            is_pow2(p as nat),
            p == 1 || p / 2 < n,
            1 <= p <= 0x1_0000_0000,
            n <= 0x8000_0000,
        decreases 0x1_0000_0000 - p,
    {
        proof {
            assert((2 * p) as nat / 2 == p as nat);
            assert(is_pow2((2 * p) as nat));
        }
        p = p * 2;
    }
    p as u32
}

/// The capacity, in sprites, that a vertex buffer of `capacity` sprites must
/// be reallocated to for a batch of `needed` sprites, or `None` where it
/// holds the batch already.
pub open spec fn grown(capacity: nat, needed: nat) -> Option<nat> {
    if needed <= capacity {
        None
    } else {
        Some(choose|r: nat| is_next_pow2(needed, r))
    }
}

/// A size has one next power of two.
pub proof fn lemma_next_pow2_unique(n: nat, a: nat, b: nat)
    requires
        is_next_pow2(n, a),
        is_next_pow2(n, b),
    ensures
        a == b,
    decreases a + b,
{
    if a != 1 && b != 1 {
        if a / 2 >= 1 && b / 2 >= 1 {
            lemma_pow2_half_lt(a, b, n);
        }
    } else if a == 1 {
        lemma_pow2_at_least_one(b);
        if b != 1 {
            lemma_pow2_even(b);
        }
    } else {
        lemma_pow2_at_least_one(a);
        lemma_pow2_even(a);
    }
}

proof fn lemma_pow2_at_least_one(a: nat)
    requires
        is_pow2(a),
    ensures
        a >= 1,
{
}

proof fn lemma_pow2_even(a: nat)
    requires
        is_pow2(a),
        a != 1,
    ensures
        a % 2 == 0,
        is_pow2(a / 2),
        a / 2 >= 1,
{
    lemma_pow2_at_least_one(a / 2);
}

/// Two powers of two both at least `n` and whose halves are both below `n`
/// are equal.
proof fn lemma_pow2_half_lt(a: nat, b: nat, n: nat)
    requires
        is_pow2(a),
        is_pow2(b),
        a / 2 < n <= a,
        b / 2 < n <= b,
    ensures
        a == b,
    decreases a + b,
{
    if a != b {
        if a == 1 || b == 1 {
            if a == 1 {
                lemma_pow2_even(b);
            } else {
                lemma_pow2_even(a);
            }
        } else {
            lemma_pow2_even(a);
            lemma_pow2_even(b);
            lemma_pow2_order(a / 2, b / 2);
        }
    }
}

/// Of two distinct powers of two, one is at most half of the other.
proof fn lemma_pow2_order(a: nat, b: nat)
    requires
        is_pow2(a),
        is_pow2(b),
        a != b,
    ensures
        a * 2 <= b || b * 2 <= a,
    decreases a + b,
{
    if a != 1 && b != 1 {
        lemma_pow2_even(a);
        lemma_pow2_even(b);
        lemma_pow2_order(a / 2, b / 2);
    } else if a == 1 {
        lemma_pow2_even(b);
    } else {
        lemma_pow2_even(a);
    }
}

/// The new capacity of a vertex buffer of `capacity` sprites that must hold
/// `needed` sprites: `None` where it holds them already, else the next power
/// of two of `needed`.
pub fn grown_capacity(capacity: u32, needed: u32) -> (r: Option<u32>)
    requires
        needed <= 0x8000_0000,
    ensures
        match r {
            Some(c) => grown(capacity as nat, needed as nat) == Some(c as nat),
            None => grown(capacity as nat, needed as nat) is None,
        },
        r matches Some(c) ==> is_next_pow2(needed as nat, c as nat),
{
    if needed <= capacity {
        None
    } else {
        let c = next_power_of_two(needed);
        proof {
            let g = choose|r: nat| is_next_pow2(needed as nat, r);
            assert(is_next_pow2(needed as nat, c as nat));
            lemma_next_pow2_unique(needed as nat, g, c as nat);
        }
        Some(c)
    }
}

/// A buffer that was grown for a batch holds that batch: drawing a batch of
/// the same size again reallocates nothing.
pub proof fn lemma_growth_idempotent(capacity: nat, needed: nat)
    ensures
        ({
            let after = match grown(capacity, needed) {
                Some(c) => c,
                None => capacity,
            };
            grown(after, needed) is None
        }),
{
    if needed > capacity {
        lemma_next_pow2_exists(needed);
    }
}

/// Every size has a next power of two.
proof fn lemma_next_pow2_exists(n: nat)
    ensures
        exists|r: nat| is_next_pow2(n, r),
    decreases n,
{
    if n <= 1 {
        assert(is_next_pow2(n, 1));
    } else {
        let h = (n + 1) / 2;
        lemma_next_pow2_exists(h);
        let r = choose|r: nat| is_next_pow2(h, r);
        assert((2 * r) / 2 == r);
        assert(is_pow2(2 * r));
        assert(is_next_pow2(n, 2 * r));
    }
}

/// The corner of a quad that each of a quad's six indices names: two
/// triangles that share the diagonal from corner 1 to corner 2.
pub open spec fn quad_corner(k: int) -> int {
    if k == 0 {
        0
    } else if k == 1 {
        1
    } else if k == 2 {
        2
    } else if k == 3 {
        1
    } else if k == 4 {
        2
    } else {
        3
    }
}

/// The `k`-th index of the index buffer: the quad of sprite `k / 6`, whose
/// four vertices start at `4 * (k / 6)`, taken as a 16-bit index.
pub open spec fn quad_index(k: int) -> u16 {
    ((4 * (k / 6) + quad_corner(k % 6)) % 0x1_0000) as u16
}

/// The index buffer for `sprites` quads of four vertices each.
pub fn quad_indices(sprites: usize) -> (r: Vec<u16>)
    requires
        sprites * 6 <= usize::MAX,
    ensures
        r@.len() == sprites * 6,
        forall|k: int| 0 <= k < r@.len() ==> #[trigger] r@[k] == quad_index(k),
{
    let mut r: Vec<u16> = Vec::new();
    let mut i: usize = 0;
    while i < sprites
        invariant
            i <= sprites,
            sprites * 6 <= usize::MAX,
            r@.len() == i * 6,
            forall|k: int| 0 <= k < r@.len() ==> #[trigger] r@[k] == quad_index(k),
        decreases sprites - i,
    {
        let base: usize = (i * 4) % 0x1_0000;
        let pattern: [usize; 6] = [0, 1, 2, 1, 2, 3];
        let mut c: usize = 0;
        while c < 6
            invariant
                i < sprites,
                sprites * 6 <= usize::MAX,
                c <= 6,
                base == (i * 4) % 0x1_0000,
                pattern@ == seq![0usize, 1, 2, 1, 2, 3],
                r@.len() == i * 6 + c,
                forall|k: int| 0 <= k < r@.len() ==> #[trigger] r@[k] == quad_index(k),
            decreases 6 - c,
        {
            proof {
                lemma_fundamental_div_mod_converse((i * 6 + c) as int, 6, i as int, c as int);
                assert(pattern@[c as int] == quad_corner(c as int));
                assert((4 * i + quad_corner(c as int)) % 0x1_0000 == (base + pattern@[c as int])
                    % 0x1_0000);
            }
            r.push(((base + pattern[c]) % 0x1_0000) as u16);
            c += 1;
        }
        i += 1;
    }
    r
}

} // verus!
