use vstd::prelude::*;

verus! {

/// `d` divides `n` with no remainder.
pub open spec fn divides(d: nat, n: nat) -> bool {
    d != 0 && n % d == 0
}

/// `n` is prime: at least 2, with no divisor strictly between 1 and itself.
pub open spec fn prime(n: nat) -> bool {
    &&& n >= 2
    &&& forall|d: nat| 2 <= d < n ==> !#[trigger] divides(d, n)
}

/// A divisor `d` of `n` with `d * d > n` and `d < n` has a cofactor that is a
/// smaller divisor at least 2.
proof fn lemma_small_cofactor(n: nat, d: nat, i: nat)
    requires
        2 <= i <= d < n,
        i * i > n,
        n % d == 0,
    ensures
        2 <= n / d < i,
        n % (n / d) == 0,
{
    let q = n / d;
    assert(n == d * q) by (nonlinear_arith)
        requires
            n % d == 0,
            d > 0,
            q == n / d,
    ;
    assert(2 <= q < i) by (nonlinear_arith)
        requires
            n == d * q,
            2 <= i <= d < n,
            i * i > n,
    ;
    assert(n % q == 0) by (nonlinear_arith)
        requires
            n == d * q,
            q >= 2,
    ;
}

/// Tells whether `n` is prime, by trial division up to the square root.
pub fn is_prime(n: u32) -> (r: bool)
    ensures
        r == prime(n as nat),
{
    if n < 2 {
        return false;
    }
    let mut i: u64 = 2;
    while i * i <= n as u64
        invariant
            2 <= n,
            2 <= i <= 0x1_0000,
            i * i <= 0x1_0000_0000,
            forall|d: nat| 2 <= d < i ==> !#[trigger] divides(d, n as nat),
        decreases n as u64 + 1 - i,
    {
        if n as u64 % i == 0 {
            assert(i < n) by (nonlinear_arith)
                requires
                    i * i <= n as u64,
                    i >= 2,
            ;
            assert(divides(i as nat, n as nat));
            return false;
        }
        assert(i < 0x1_0000) by (nonlinear_arith)
            requires
                i * i <= n as u64,
                n <= u32::MAX,
                i >= 0,
        ;
        assert(i <= n) by (nonlinear_arith)
            requires
                i * i <= n as u64,
                i >= 2,
        ;
        assert((i + 1) * (i + 1) <= 0x1_0000_0000) by (nonlinear_arith)
            requires
                i < 0x1_0000,
                i >= 0,
        ;
        i = i + 1;
    }
    assert forall|d: nat| 2 <= d < n implies !#[trigger] divides(d, n as nat) by {
        if d >= i && divides(d, n as nat) {
            lemma_small_cofactor(n as nat, d, i as nat);
            assert(divides(n as nat / d, n as nat));
        }
    }
    true
}

} // verus!
