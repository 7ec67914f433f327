use vstd::prelude::*;

verus! {

/// Whether `n` is a multiple of `d`.
pub open spec fn divides(d: int, n: int) -> bool {
    exists|k: int| n == #[trigger] (k * d)
}

/// The greatest common divisor of `a` and `b`, by the algorithm of Euclid;
/// the greatest common divisor of 0 and 0 is 0.
pub open spec fn gcd_spec(a: nat, b: nat) -> nat
    decreases b,
{
    if b == 0 {
        a
    } else {
        gcd_spec(b, a % b)
    }
}

/// The absolute value of `n`.
pub open spec fn abs(n: int) -> nat {
    if n >= 0 {
        n as nat
    } else {
        (-n) as nat
    }
}

/// The remainders that the algorithm of Euclid computes from `n` and `m`,
/// up to the first remainder 0.
pub open spec fn remainders(n: nat, m: nat) -> Seq<u32>
    decreases m,
{
    if m == 0 {
        Seq::empty()
    } else if n % m == 0 {
        seq![0u32]
    } else {
        seq![(n % m) as u32] + remainders(m, n % m)
    }
}

/// What `euclidean_algorithm` returns: the remainders so far, turned round
/// if `n` is less than `m`, and after them the remainders of the greater and
/// the lesser of `n` and `m`.
pub open spec fn euclid_spec(n: nat, m: nat, previous: Seq<u32>) -> Seq<u32> {
    if n < m {
        previous.reverse() + remainders(m, n)
    } else {
        previous + remainders(n, m)
    }
}

/// The greatest common divisor of the absolute values of the numbers in
/// `ns`, and 0 for no numbers.
pub open spec fn gcd_all_spec(ns: Seq<i32>) -> nat
    decreases ns.len(),
{
    if ns.len() == 0 {
        0
    } else {
        gcd_spec(abs(ns.last() as int), gcd_all_spec(ns.drop_last()))
    }
}

/// `gcd_spec(a, b)` divides `a` and `b`.
pub proof fn lemma_gcd_divides(a: nat, b: nat)
    ensures
        divides(gcd_spec(a, b) as int, a as int),
        divides(gcd_spec(a, b) as int, b as int),
    decreases b,
{
    let g = gcd_spec(a, b) as int;
    if b == 0 {
        assert(a as int == 1 * g);
        assert(b as int == 0 * g);
    } else {
        let r = a % b;
        let q = a / b;
        lemma_gcd_divides(b, r);
        let kb = choose|k: int| b as int == #[trigger] (k * g);
        let kr = choose|k: int| r as int == #[trigger] (k * g);
        assert(a as int == (b as int) * (q as int) + (r as int)) by {
            vstd::arithmetic::div_mod::lemma_fundamental_div_mod(a as int, b as int);
        }
        assert(a as int == (kb * q + kr) * g) by (nonlinear_arith)
            requires
                a as int == (b as int) * (q as int) + (r as int),
                b as int == kb * g,
                r as int == kr * g,
        ;
    }
}

/// Every number that divides `a` and `b` divides `gcd_spec(a, b)`.
pub proof fn lemma_gcd_greatest(a: nat, b: nat, d: int)
    requires
        divides(d, a as int),
        divides(d, b as int),
    ensures
        divides(d, gcd_spec(a, b) as int),
    decreases b,
{
    if b != 0 {
        let r = a % b;
        let q = a / b;
        let ka = choose|k: int| a as int == #[trigger] (k * d);
        let kb = choose|k: int| b as int == #[trigger] (k * d);
        assert(a as int == (b as int) * (q as int) + (r as int)) by {
            vstd::arithmetic::div_mod::lemma_fundamental_div_mod(a as int, b as int);
        }
        assert(r as int == (ka - kb * q) * d) by (nonlinear_arith)
            requires
                a as int == (b as int) * (q as int) + (r as int),
                a as int == ka * d,
                b as int == kb * d,
        ;
        lemma_gcd_greatest(b, r, d);
    }
}

/// `gcd_spec` does not depend on the order of its arguments.
pub proof fn lemma_gcd_symmetric(a: nat, b: nat)
    ensures
        gcd_spec(a, b) == gcd_spec(b, a),
{
    lemma_gcd_divides(a, b);
    lemma_gcd_divides(b, a);
    let g = gcd_spec(a, b);
    let h = gcd_spec(b, a);
    lemma_gcd_greatest(a, b, h as int);
    lemma_gcd_greatest(b, a, g as int);
    lemma_divide_each_other(g, h);
}

/// Two natural numbers that divide each other are equal.
pub proof fn lemma_divide_each_other(g: nat, h: nat)
    requires
        divides(g as int, h as int),
        divides(h as int, g as int),
    ensures
        g == h,
{
    let k = choose|k: int| h as int == #[trigger] (k * (g as int));
    let l = choose|l: int| g as int == #[trigger] (l * (h as int));
    if g == 0 {
        assert(h as int == 0) by (nonlinear_arith)
            requires
                h as int == k * (g as int),
                g == 0,
        ;
    } else if h == 0 {
        assert(g as int == 0) by (nonlinear_arith)
            requires
                g as int == l * (h as int),
                h == 0,
        ;
    } else {
        assert(g == h) by (nonlinear_arith)
            requires
                h as int == k * (g as int),
                g as int == l * (h as int),
                g > 0,
                h > 0,
        ;
    }
}

/// Where the algorithm of Euclid has remainders, the last of them is 0 and
/// the one before it, or `m` if there is none, is the greatest common divisor.
pub proof fn lemma_remainders(n: nat, m: nat)
    requires
        m <= u32::MAX,
    ensures
        m > 0 ==> remainders(n, m).len() >= 1 && remainders(n, m).last() == 0,
        m > 0 && remainders(n, m).len() >= 2 ==> remainders(n, m)[remainders(n, m).len() - 2]
            == gcd_spec(n, m),
        m > 0 && remainders(n, m).len() == 1 ==> m == gcd_spec(n, m),
        m == 0 ==> remainders(n, m).len() == 0,
    decreases m,
{
    if m > 0 {
        let r = n % m;
        assert(gcd_spec(n, m) == gcd_spec(m, r));
        if r == 0 {
            assert(gcd_spec(m, 0) == m);
        } else {
            lemma_remainders(m, r);
            let rest = remainders(m, r);
            let all = remainders(n, m);
            assert(all == seq![r as u32] + rest);
            assert(all.last() == rest.last());
            if rest.len() >= 2 {
                assert(all[all.len() - 2] == rest[rest.len() - 2]);
            } else {
                assert(all[all.len() - 2] == r as u32);
            }
        }
    }
}

/// The absolute value of `n`.
pub fn magnitude(n: i32) -> (res: u32)
    ensures
        res == abs(n as int),
{
    if n >= 0 {
        n as u32
    } else if n == i32::MIN {
        2147483648
    } else {
        (-n) as u32
    }
}

/// The items of `v` from the last to the first.
fn reversed(v: Vec<u32>) -> (res: Vec<u32>)
    ensures
        res@ == v@.reverse(),
{
    let mut out: Vec<u32> = Vec::new();
    let mut i: usize = v.len();
    while i > 0
        invariant
            i <= v.len(),
            out.len() == v.len() - i,
            forall|j: int| 0 <= j < out.len() ==> out@[j] == v@[v.len() - 1 - j],
        decreases i,
    {
        i -= 1;
        out.push(v[i]);
    }
    assert(out@ =~= v@.reverse());
    out
}

/// Runs the algorithm of Euclid on `n` and `m` and appends each remainder,
/// up to the first remainder 0, to `previous_remainders`, which is first
/// turned round if `n` is less than `m`.
pub fn euclidean_algorithm(n: u32, m: u32, previous_remainders: Vec<u32>) -> (res: Vec<u32>)
    ensures
        res@ == euclid_spec(n as nat, m as nat, previous_remainders@),
    decreases m,
{
    if n < m {
        let new_remainders = reversed(previous_remainders);
        let res = euclidean_algorithm(m, n, new_remainders);
        return res;
    }
    if m == 0 {
        assert(previous_remainders@ + remainders(n as nat, 0) =~= previous_remainders@);
        return previous_remainders;
    }
    let rem = n % m;
    let mut new_remainders = previous_remainders;
    new_remainders.push(rem);
    if rem == 0 {
        assert(new_remainders@ =~= previous_remainders@ + remainders(n as nat, m as nat));
        return new_remainders;
    }
    let res = euclidean_algorithm(m, rem, new_remainders);
    assert(res@ =~= previous_remainders@ + remainders(n as nat, m as nat));
    res
}

/// The greatest common divisor of `n` and `m`.
pub fn gcd(n: i32, m: i32) -> (res: u32)
    ensures
        res == gcd_spec(abs(n as int), abs(m as int)),
{
    let n_abs = magnitude(n);
    let m_abs = magnitude(m);
    let mut start: Vec<u32> = Vec::new();
    start.push(n_abs);
    start.push(m_abs);
    let euclid = euclidean_algorithm(n_abs, m_abs, start);
    proof {
        let a = n_abs as nat;
        let b = m_abs as nat;
        lemma_gcd_symmetric(a, b);
        assert(gcd_spec(a, 0) == a);
        assert(gcd_spec(b, 0) == b);
        if n_abs < m_abs {
            lemma_remainders(b, a);
            assert(start@.reverse() =~= seq![m_abs, n_abs]);
            let rest = remainders(b, a);
            assert(euclid@ == seq![m_abs, n_abs] + rest);
            if rest.len() >= 2 {
                assert(euclid@[euclid@.len() - 2] == rest[rest.len() - 2]);
            } else if rest.len() == 1 {
                assert(euclid@[euclid@.len() - 2] == n_abs);
            } else {
                assert(euclid@[euclid@.len() - 2] == m_abs);
            }
        } else {
            lemma_remainders(a, b);
            let rest = remainders(a, b);
            assert(start@ =~= seq![n_abs, m_abs]);
            assert(euclid@ == seq![n_abs, m_abs] + rest);
            if rest.len() >= 2 {
                assert(euclid@[euclid@.len() - 2] == rest[rest.len() - 2]);
            } else if rest.len() == 1 {
                assert(euclid@[euclid@.len() - 2] == m_abs);
            } else {
                assert(euclid@[euclid@.len() - 2] == n_abs);
            }
        }
    }
    euclid[euclid.len() - 2]
}

/// The greatest common divisor of all the numbers in `ns`, and 0 for none.
pub fn gcd_all(ns: Vec<i32>) -> (res: u32)
    ensures
        res == gcd_all_spec(ns@),
{
    if ns.len() == 0 {
        return 0;
    }
    let mut current_gcd: u32 = 0;
    let mut i: usize = 0;
    while i < ns.len()
        invariant
            i <= ns.len(),
            current_gcd == gcd_all_spec(ns@.take(i as int)),
        decreases ns.len() - i,
    {
        proof {
            assert(ns@.take(i as int + 1).drop_last() =~= ns@.take(i as int));
            lemma_gcd_bound(abs(ns@[i as int] as int), current_gcd as nat);
        }
        let step = gcd_unsigned(magnitude(ns[i]), current_gcd);
        current_gcd = step;
        i += 1;
    }
    assert(ns@.take(i as int) =~= ns@);
    current_gcd
}

/// The greatest common divisor is at most the greater of the two numbers.
pub proof fn lemma_gcd_bound(a: nat, b: nat)
    ensures
        gcd_spec(a, b) <= if a >= b {
            a
        } else {
            b
        },
    decreases b,
{
    if b != 0 {
        lemma_gcd_bound(b, a % b);
        assert(a % b < b) by {
            vstd::arithmetic::div_mod::lemma_mod_division_less_than_divisor(a as int, b as int);
        }
    }
}

/// The greatest common divisor of two numbers without sign.
pub fn gcd_unsigned(a: u32, b: u32) -> (res: u32)
    ensures
        res == gcd_spec(a as nat, b as nat),
{
    let mut x: u32 = a;
    let mut y: u32 = b;
    while y != 0
        invariant
            gcd_spec(x as nat, y as nat) == gcd_spec(a as nat, b as nat),
        decreases y,
    {
        let r = x % y;
        x = y;
        y = r;
    }
    x
}

} // verus!
