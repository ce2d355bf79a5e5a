//! Natural numbers of any size as little-endian base-2^32 limbs, with the
//! few operations the popularity term needs: multiplying by a `u64`,
//! dividing by ten, and comparing with ten.
use vstd::prelude::*;

verus! {

/// The limb base, 2^32.
pub open spec fn base() -> nat {
    0x1_0000_0000nat
}

/// `base()` to the power `k`.
pub open spec fn base_pow(k: nat) -> nat
    decreases k,
{
    if k == 0 {
        1
    } else {
        base() * base_pow((k - 1) as nat)
    }
}

/// The number that little-endian limbs stand for.
pub open spec fn limbs_value(v: Seq<u32>) -> nat
    decreases v.len(),
{
    if v.len() == 0 {
        0
    } else {
        limbs_value(v.drop_last()) + v.last() as nat * base_pow((v.len() - 1) as nat)
    }
}

/// `b` to the power `e`.
pub open spec fn power(b: nat, e: nat) -> nat
    decreases e,
{
    if e == 0 {
        1
    } else {
        b * power(b, (e - 1) as nat)
    }
}

proof fn lemma_base_pow_pos(k: nat)
    ensures
        base_pow(k) >= 1,
    decreases k,
{
    if k > 0 {
        lemma_base_pow_pos((k - 1) as nat);
        let p = base_pow((k - 1) as nat);
        assert(base() * p >= 1) by (nonlinear_arith)
            requires
                p >= 1,
                base() == 0x1_0000_0000nat,
        ;
    }
}

/// A limb put in front shifts the rest up by one limb.
proof fn lemma_prepend(x: u32, s: Seq<u32>)
    ensures
        limbs_value(seq![x] + s) == x as nat + base() * limbs_value(s),
    decreases s.len(),
{
    let t = seq![x] + s;
    if s.len() == 0 {
        assert(t.drop_last() =~= Seq::<u32>::empty());
        assert(t.last() == x);
        assert(base_pow(0) == 1);
        assert(limbs_value(t) == limbs_value(t.drop_last()) + x as nat * base_pow(0));
        assert(limbs_value(Seq::<u32>::empty()) == 0);
        assert(s =~= Seq::<u32>::empty());
    } else {
        assert(t.drop_last() =~= seq![x] + s.drop_last());
        assert(t.last() == s.last());
        assert(t.len() - 1 == s.len());
        assert(limbs_value(t) == limbs_value(t.drop_last()) + s.last() as nat * base_pow(s.len() as nat));
        assert(limbs_value(s) == limbs_value(s.drop_last()) + s.last() as nat * base_pow((s.len() - 1) as nat));
        lemma_prepend(x, s.drop_last());
        let a = limbs_value(s.drop_last());
        let l = s.last() as nat;
        let p = base_pow((s.len() - 1) as nat);
        assert(base_pow(s.len() as nat) == base() * p);
        assert(x as nat + base() * a + l * (base() * p) == x as nat + base() * (a + l * p))
            by (nonlinear_arith);
    }
}

/// Limbs that are all zero stand for zero; any other limbs for at least one.
proof fn lemma_value_zero(s: Seq<u32>)
    ensures
        (forall|i: int| 0 <= i < s.len() ==> s[i] == 0) ==> limbs_value(s) == 0,
        (exists|i: int| 0 <= i < s.len() && s[i] != 0) ==> limbs_value(s) >= 1,
    decreases s.len(),
{
    if s.len() > 0 {
        let d = s.drop_last();
        lemma_value_zero(d);
        lemma_base_pow_pos((s.len() - 1) as nat);
        let p = base_pow((s.len() - 1) as nat);
        let l = s.last() as nat;
        assert(l * p >= 0) by (nonlinear_arith)
            requires
                p >= 1,
        ;
        if forall|i: int| 0 <= i < s.len() ==> s[i] == 0 {
            assert forall|i: int| 0 <= i < d.len() implies d[i] == 0 by {
                assert(d[i] == s[i]);
            }
            assert(s[s.len() - 1] == 0);
        }
        if exists|i: int| 0 <= i < s.len() && s[i] != 0 {
            let i = choose|i: int| 0 <= i < s.len() && s[i] != 0;
            if i < s.len() - 1 {
                assert(d[i] == s[i]);
            } else {
                assert(l * p >= 1) by (nonlinear_arith)
                    requires
                        p >= 1,
                        l >= 1,
                ;
            }
        }
    }
}

/// The limbs of `a` times `n`.
pub fn mul_u64(a: &Vec<u32>, n: u64) -> (r: Vec<u32>)
    ensures
        limbs_value(r@) == limbs_value(a@) * n,
{
    let mut r: Vec<u32> = Vec::new();
    let mut carry: u128 = 0;
    let mut i: usize = 0;
    assert(a@.subrange(0, 0) =~= Seq::<u32>::empty());
    assert(limbs_value(r@) == 0);
    while i < a.len()
        invariant
            i <= a@.len(),
            r@.len() == i,
            carry <= n,
            limbs_value(r@) + carry * base_pow(i as nat) == limbs_value(a@.subrange(0, i as int)) * n,
        decreases a@.len() - i,
    {
        proof {
            let ai = a@[i as int] as nat;
            assert(ai * n <= 0xFFFF_FFFFnat * 0xFFFF_FFFF_FFFF_FFFFnat) by (nonlinear_arith)
                requires
                    ai <= 0xFFFF_FFFF,
                    n <= 0xFFFF_FFFF_FFFF_FFFF,
            ;
        }
        let t: u128 = a[i] as u128 * n as u128 + carry;
        let low = (t % 0x1_0000_0000u128) as u32;
        let high = t / 0x1_0000_0000u128;
        proof {
            let ai = a@[i as int] as nat;
            assert(t <= (0xFFFF_FFFFnat + 1) * n) by (nonlinear_arith)
                requires
                    t == ai * n + carry,
                    ai <= 0xFFFF_FFFF,
                    carry <= n,
            ;
            assert(high <= n) by (nonlinear_arith)
                requires
                    high == t / 0x1_0000_0000,
                    t <= 0x1_0000_0000 * n,
            ;
            let pre = a@.subrange(0, i as int);
            let next = a@.subrange(0, i + 1);
            assert(next.drop_last() =~= pre);
            assert(next.last() == a@[i as int]);
            let p = base_pow(i as nat);
            assert(base_pow(i as nat + 1) == base() * p);
            let rv = limbs_value(r@);
            let pv = limbs_value(pre);
            assert(rv + low as nat * p + high * (base() * p) == (pv + ai * p) * n) by (nonlinear_arith)
                requires
                    rv + carry * p == pv * n,
                    t == ai * n + carry,
                    t == high * base() + low as nat,
                    base() == 0x1_0000_0000nat,
            ;
        }
        let ghost before = r@;
        r.push(low);
        proof {
            assert(r@.drop_last() =~= before);
        }
        carry = high;
        i += 1;
    }
    assert(a@.subrange(0, a@.len() as int) =~= a@);
    while carry > 0
        invariant
            limbs_value(r@) + carry * base_pow(r@.len() as nat) == limbs_value(a@) * n,
        decreases carry,
    {
        let low = (carry % 0x1_0000_0000u128) as u32;
        let high = carry / 0x1_0000_0000u128;
        proof {
            let p = base_pow(r@.len() as nat);
            assert(base_pow(r@.len() as nat + 1) == base() * p);
            let rv = limbs_value(r@);
            assert(rv + low as nat * p + high * (base() * p) == rv + carry * p) by (nonlinear_arith)
                requires
                    carry == high * base() + low as nat,
                    base() == 0x1_0000_0000nat,
            ;
        }
        let ghost before = r@;
        r.push(low);
        proof {
            assert(r@.drop_last() =~= before);
        }
        carry = high;
    }
    r
}

/// The limbs of `a` divided by ten, and the remainder.
pub fn div10(a: &Vec<u32>) -> (r: (Vec<u32>, u32))
    ensures
        limbs_value(r.0@) * 10 + r.1 == limbs_value(a@),
        r.1 < 10,
{
    let n = a.len();
    let mut q: Vec<u32> = vec![0u32; n];
    let mut rem: u64 = 0;
    let mut i: usize = n;
    assert(a@.subrange(n as int, n as int) =~= Seq::<u32>::empty());
    assert(q@.subrange(n as int, n as int) =~= Seq::<u32>::empty());
    while i > 0
        invariant
            n == a@.len(),
            q@.len() == n,
            i <= n,
            rem < 10,
            limbs_value(a@.subrange(i as int, n as int)) == limbs_value(q@.subrange(i as int, n as int)) * 10 + rem,
        decreases i,
    {
        let cur: u64 = rem * 0x1_0000_0000u64 + a[i - 1] as u64;
        let digit = cur / 10;
        let next_rem = cur % 10;
        proof {
            assert(digit < 0x1_0000_0000) by (nonlinear_arith)
                requires
                    digit == cur / 10,
                    cur == rem * 0x1_0000_0000 + a@[i - 1] as u64,
                    rem < 10,
                    a@[i - 1] <= 0xFFFF_FFFF,
            ;
        }
        let ghost qold = q@;
        q.set(i - 1, digit as u32);
        proof {
            let sa = a@.subrange(i as int, n as int);
            let sq = qold.subrange(i as int, n as int);
            assert(a@.subrange(i - 1, n as int) =~= seq![a@[i - 1]] + sa);
            assert(q@.subrange(i as int, n as int) =~= sq);
            assert(q@.subrange(i - 1, n as int) =~= seq![digit as u32] + sq);
            lemma_prepend(a@[i - 1], sa);
            lemma_prepend(digit as u32, sq);
            let va = limbs_value(sa);
            let vq = limbs_value(sq);
            let x = a@[i - 1] as nat;
            assert(x + base() * va == (digit as nat + base() * vq) * 10 + next_rem) by (nonlinear_arith)
                requires
                    va == vq * 10 + rem,
                    cur == rem * base() + x,
                    cur == digit * 10 + next_rem,
                    base() == 0x1_0000_0000nat,
            ;
        }
        rem = next_rem;
        i -= 1;
    }
    assert(a@.subrange(0, n as int) =~= a@);
    assert(q@.subrange(0, n as int) =~= q@);
    (q, rem as u32)
}

/// Whether the limbs of `a` stand for ten or more.
pub fn at_least_ten(a: &Vec<u32>) -> (b: bool)
    ensures
        b == (limbs_value(a@) >= 10),
{
    if a.len() == 0 {
        return false;
    }
    let ghost rest = a@.drop_first();
    proof {
        assert(a@ =~= seq![a@[0]] + rest);
        lemma_prepend(a@[0], rest);
        lemma_value_zero(rest);
        let vr = limbs_value(rest);
        assert((forall|k: int| 0 <= k < rest.len() ==> rest[k] == 0) ==> vr == 0);
        assert(vr >= 1 ==> a@[0] as nat + base() * vr >= 10) by (nonlinear_arith)
            requires
                base() == 0x1_0000_0000nat,
        ;
    }
    let mut i: usize = 1;
    while i < a.len()
        invariant
            1 <= i <= a@.len(),
            rest == a@.drop_first(),
            forall|k: int| 1 <= k < i ==> a@[k] == 0,
            limbs_value(rest) >= 1 ==> limbs_value(a@) >= 10,
            (exists|k: int| 0 <= k < rest.len() && rest[k] != 0) ==> limbs_value(rest) >= 1,
            (forall|k: int| 0 <= k < rest.len() ==> rest[k] == 0) ==> limbs_value(a@) == a@[0] as nat,
        decreases a@.len() - i,
    {
        if a[i] != 0 {
            assert(rest[i - 1] != 0);
            return true;
        }
        i += 1;
    }
    assert forall|k: int| 0 <= k < rest.len() implies rest[k] == 0 by {
        assert(rest[k] == a@[k + 1]);
    }
    a[0] >= 10
}

} // verus!
