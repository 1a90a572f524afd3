//! Greatest common divisor and least common multiple, with the facts the
//! scene player's loop length rests on.

use vstd::prelude::*;

use vstd::arithmetic::div_mod::{lemma_fundamental_div_mod, lemma_mod_multiples_basic};

verus! {

/// Euclid's greatest common divisor.
pub open spec fn gcd_spec(a: nat, b: nat) -> nat
    decreases b,
{
    if b == 0 {
        a
    } else {
        gcd_spec(b, a % b)
    }
}

/// Least common multiple; 0 when either number is 0.
pub open spec fn lcm_spec(a: nat, b: nat) -> nat {
    if a == 0 || b == 0 {
        0
    } else {
        (a / gcd_spec(a, b)) * b
    }
}

/// `d` divides `n`.
pub open spec fn divides(d: nat, n: nat) -> bool {
    d > 0 && n % d == 0
}

proof fn lemma_divides_sum(a: int, b: int, r: int, q: int, g: int)
    requires
        g > 0,
        b % g == 0,
        r % g == 0,
        a == q * b + r,
    ensures
        a % g == 0,
{
    lemma_fundamental_div_mod(b, g);
    lemma_fundamental_div_mod(r, g);
    let k = q * (b / g) + r / g;
    assert(a == k * g) by (nonlinear_arith)
        requires
            a == q * b + r,
            b == g * (b / g) + b % g,
            r == g * (r / g) + r % g,
            b % g == 0,
            r % g == 0,
            k == q * (b / g) + r / g,
    ;
    lemma_mod_multiples_basic(k, g);
}

/// The gcd is positive unless both numbers are 0, and divides both.
pub proof fn lemma_gcd_divides(a: nat, b: nat)
    ensures
        (a > 0 || b > 0) ==> gcd_spec(a, b) > 0,
        gcd_spec(a, b) > 0 ==> a % gcd_spec(a, b) == 0 && b % gcd_spec(a, b) == 0,
    decreases b,
{
    if b > 0 {
        lemma_gcd_divides(b, a % b);
        let g = gcd_spec(a, b);
        if g > 0 {
            lemma_fundamental_div_mod(a as int, b as int);
            assert(((a / b) as int) * (b as int) == (b as int) * ((a / b) as int)) by (nonlinear_arith);
            lemma_divides_sum(a as int, b as int, (a % b) as int, (a / b) as int, g as int);
        }
    }
}

/// The gcd is at most each positive number.
proof fn lemma_gcd_le(a: nat, b: nat)
    requires
        b > 0,
    ensures
        gcd_spec(a, b) <= b,
{
    lemma_gcd_divides(a, b);
    let g = gcd_spec(a, b);
    lemma_fundamental_div_mod(b as int, g as int);
    assert(b == g * (b / g));
    assert(b / g >= 1);
    assert(g * (b / g) >= g) by (nonlinear_arith)
        requires
            b / g >= 1,
            g > 0,
    ;
}

/// Both positive numbers divide their lcm, which is at least either.
pub proof fn lemma_lcm_multiple(a: nat, b: nat)
    requires
        a > 0,
        b > 0,
    ensures
        lcm_spec(a, b) >= a,
        lcm_spec(a, b) >= b,
        divides(a, lcm_spec(a, b)),
        divides(b, lcm_spec(a, b)),
{
    lemma_gcd_divides(a, b);
    lemma_gcd_le(a, b);
    let g = gcd_spec(a, b);
    lemma_fundamental_div_mod(a as int, g as int);
    lemma_fundamental_div_mod(b as int, g as int);
    let ap = a / g;
    let bp = b / g;
    assert(a == g * ap);
    assert(b == g * bp);
    assert(ap >= 1 && bp >= 1) by (nonlinear_arith)
        requires
            a == g * ap,
            b == g * bp,
            a > 0,
            b > 0,
            g > 0,
    ;
    assert(ap * b == a * bp) by (nonlinear_arith)
        requires
            a == g * ap,
            b == g * bp,
    ;
    assert(ap * b >= b && a * bp >= a) by (nonlinear_arith)
        requires
            ap >= 1,
            bp >= 1,
            a > 0,
            b > 0,
    ;
    lemma_mod_multiples_basic(ap as int, b as int);
    lemma_mod_multiples_basic(bp as int, a as int);
    assert((bp * a) == a * bp) by (nonlinear_arith);
}

/// Divisibility is transitive.
pub proof fn lemma_divides_trans(a: nat, b: nat, c: nat)
    requires
        divides(a, b),
        divides(b, c),
    ensures
        divides(a, c),
{
    lemma_fundamental_div_mod(b as int, a as int);
    lemma_fundamental_div_mod(c as int, b as int);
    let k = (b / a) * (c / b);
    assert(c == k * a) by (nonlinear_arith)
        requires
            b == a * (b / a) + b % a,
            c == b * (c / b) + c % b,
            b % a == 0,
            c % b == 0,
            k == (b / a) * (c / b),
    ;
    lemma_mod_multiples_basic(k as int, a as int);
}

/// Greatest common divisor.
pub fn gcd(a: u64, b: u64) -> (r: u64)
    ensures
        r == gcd_spec(a as nat, b as nat),
    decreases b,
{
    if b == 0 {
        a
    } else {
        gcd(b, a % b)
    }
}

/// Least common multiple (0 when either number is 0).
pub fn lcm(a: u64, b: u64) -> (r: u64)
    requires
        lcm_spec(a as nat, b as nat) <= u64::MAX,
    ensures
        r == lcm_spec(a as nat, b as nat),
{
    if a == 0 || b == 0 {
        0
    } else {
        let g = gcd(a, b);
        proof {
            lemma_gcd_divides(a as nat, b as nat);
            lemma_fundamental_div_mod(a as int, g as int);
        }
        let q = a / g;
        q * b
    }
}

} // verus!
