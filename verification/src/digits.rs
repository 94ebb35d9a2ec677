//! Exact arithmetic on decimal digit sequences.
//!
//! A normalized coordinate arrives as a decimal numeral of arbitrary length.
//! To convert it to a pixel without floating point, the numeral is kept as
//! its digit sequence and the product with the image dimension is computed
//! digit by digit, so that `floor(value / 100 * dimension)` is exact for
//! every numeral, however many fraction digits it has.

use vstd::prelude::*;
use vstd::arithmetic::div_mod::lemma_fundamental_div_mod;
use vstd::arithmetic::div_mod::lemma_fundamental_div_mod_converse_div;
use vstd::arithmetic::div_mod::lemma_div_is_ordered;
use vstd::arithmetic::div_mod::lemma_div_multiples_vanish;
use vstd::arithmetic::mul::lemma_mul_is_associative;
use vstd::arithmetic::mul::lemma_mul_is_commutative;
use vstd::arithmetic::mul::lemma_mul_is_distributive_add_other_way;
use vstd::arithmetic::mul::lemma_mul_inequality;
use vstd::arithmetic::mul::lemma_mul_upper_bound;
use vstd::arithmetic::mul::lemma_mul_increases;

verus! {

/// `10^k`.
pub open spec fn p10(k: nat) -> nat
    decreases k,
{
    if k == 0 {
        1
    } else {
        10 * p10((k - 1) as nat)
    }
}

pub proof fn lemma_p10_pos(k: nat)
    ensures
        p10(k) >= 1,
    decreases k,
{
    if k > 0 {
        lemma_p10_pos((k - 1) as nat);
    }
}

/// Every element is a single decimal digit.
pub open spec fn digits_ok(s: Seq<u8>) -> bool {
    forall|i: int| 0 <= i < s.len() ==> s[i] < 10
}

/// The number whose decimal digits, least significant first, are `s`.
pub open spec fn val_lsd(s: Seq<u8>) -> nat
    decreases s.len(),
{
    if s.len() == 0 {
        0
    } else {
        (s[0] + 10 * val_lsd(s.skip(1))) as nat
    }
}

/// The number whose decimal digits, most significant first, are `s`.
pub open spec fn val_msd(s: Seq<u8>) -> nat
    decreases s.len(),
{
    if s.len() == 0 {
        0
    } else {
        (10 * val_msd(s.drop_last()) + s.last()) as nat
    }
}

pub proof fn lemma_val_lsd_push(s: Seq<u8>, d: u8)
    ensures
        val_lsd(s.push(d)) == val_lsd(s) + d * p10(s.len()),
    decreases s.len(),
{
    if s.len() == 0 {
        assert(s.push(d).skip(1) =~= Seq::empty());
        assert(s.push(d)[0] == d);
        assert(val_lsd(s.push(d)) == d + 10 * val_lsd(s.push(d).skip(1)));
        assert(val_lsd(s.push(d)) == d);
        assert(p10(s.len()) == 1);
        assert(val_lsd(s) == 0);
        assert(val_lsd(s.push(d)) == val_lsd(s) + d * p10(s.len()));
    } else {
        let k = (s.len() - 1) as nat;
        assert(s.push(d).skip(1) =~= s.skip(1).push(d));
        lemma_val_lsd_push(s.skip(1), d);
        assert(s.push(d)[0] == s[0]);
        assert(val_lsd(s.push(d)) == s[0] + 10 * val_lsd(s.skip(1).push(d)));
        assert(s.skip(1).len() == k);
        assert(val_lsd(s.skip(1).push(d)) == val_lsd(s.skip(1)) + d * p10(k));
        assert(10 * ((val_lsd(s.skip(1)) + d * p10(k)) as int) == 10 * val_lsd(s.skip(1)) + 10 * (d
            * p10(k)));
        lemma_mul_is_associative(10, d as int, p10(k) as int);
        lemma_mul_is_associative(d as int, 10, p10(k) as int);
        assert(p10(s.len()) == 10 * p10(k));
        assert(d * (10 * p10(k)) == d * p10(s.len()));
        assert(val_lsd(s) == s[0] + 10 * val_lsd(s.skip(1)));
    }
}

pub proof fn lemma_val_msd_prepend(d: u8, s: Seq<u8>)
    ensures
        val_msd(seq![d] + s) == d * p10(s.len()) + val_msd(s),
    decreases s.len(),
{
    if s.len() == 0 {
        let u = seq![d] + s;
        assert(u =~= seq![d]);
        assert(u.len() == 1);
        assert(u.last() == d);
        assert(u.drop_last() =~= Seq::<u8>::empty());
        assert(val_msd(u.drop_last()) == 0);
        assert(val_msd(u) == (10 * val_msd(u.drop_last()) + u.last()) as nat);
        assert(val_msd(u) == d);
        assert(p10(s.len()) == 1);
        assert(d * p10(s.len()) == d * 1);
        assert(val_msd(seq![d] + s) == d * p10(s.len()) + val_msd(s));
    } else {
        assert((seq![d] + s).drop_last() =~= seq![d] + s.drop_last());
        lemma_val_msd_prepend(d, s.drop_last());
        assert((seq![d] + s).last() == s.last());
        assert(10 * (d * p10((s.len() - 1) as nat) + val_msd(s.drop_last())) == 10 * (d * p10(
            (s.len() - 1) as nat,
        )) + 10 * val_msd(s.drop_last()));
        lemma_mul_is_associative(10, d as int, p10((s.len() - 1) as nat) as int);
        lemma_mul_is_associative(d as int, 10, p10((s.len() - 1) as nat) as int);
        assert(d * (10 * p10((s.len() - 1) as nat)) == d * p10(s.len()));
        assert(p10(s.len()) == 10 * p10((s.len() - 1) as nat));
        assert(val_msd(seq![d] + s) == d * p10(s.len()) + val_msd(s));
    }
}

/// Split a least-significant-first digit string after its `m` low digits.
pub proof fn lemma_val_lsd_split(s: Seq<u8>, m: int)
    requires
        0 <= m <= s.len(),
    ensures
        val_lsd(s) == val_lsd(s.take(m)) + p10(m as nat) * val_lsd(s.skip(m)),
    decreases m,
{
    if m == 0 {
        assert(s.take(0) =~= Seq::empty());
        assert(s.skip(0) =~= s);
        assert(val_lsd(s.take(m)) == 0);
        assert(p10(m as nat) == 1);
        assert(val_lsd(s) == val_lsd(s.take(m)) + p10(m as nat) * val_lsd(s.skip(m)));
    } else {
        assert(s.len() > 0);
        lemma_val_lsd_split(s.skip(1), m - 1);
        assert(s.skip(1).take(m - 1) =~= s.take(m).skip(1));
        assert(s.skip(1).skip(m - 1) =~= s.skip(m));
        assert(val_lsd(s.skip(1)) == val_lsd(s.take(m).skip(1)) + p10((m - 1) as nat) * val_lsd(
            s.skip(m),
        ));
        assert(s.take(m)[0] == s[0]);
        assert(s.take(m).len() == m);
        assert(val_lsd(s.take(m)) == s[0] + 10 * val_lsd(s.take(m).skip(1)));
        assert(val_lsd(s) == s[0] + 10 * val_lsd(s.skip(1)));
        assert(10 * ((val_lsd(s.take(m).skip(1)) + p10((m - 1) as nat) * val_lsd(s.skip(m))) as int)
            == 10 * val_lsd(s.take(m).skip(1)) + 10 * (p10((m - 1) as nat) * val_lsd(s.skip(m))));
        lemma_mul_is_associative(10, p10((m - 1) as nat) as int, val_lsd(s.skip(m)) as int);
        assert(p10(m as nat) == 10 * p10((m - 1) as nat));
        assert((10 * p10((m - 1) as nat)) * val_lsd(s.skip(m)) == p10(m as nat) * val_lsd(s.skip(m)));
        assert(val_lsd(s) == val_lsd(s.take(m)) + p10(m as nat) * val_lsd(s.skip(m)));
    }
}

pub proof fn lemma_val_lsd_bound(s: Seq<u8>)
    requires
        digits_ok(s),
    ensures
        val_lsd(s) < p10(s.len()),
    decreases s.len(),
{
    if s.len() > 0 {
        lemma_val_lsd_bound(s.skip(1));
    }
}

/// Split a most-significant-first digit string before its `m` high digits.
pub proof fn lemma_val_msd_split(s: Seq<u8>, m: int)
    requires
        0 <= m <= s.len(),
    ensures
        val_msd(s) == val_msd(s.take(m)) * p10((s.len() - m) as nat) + val_msd(s.skip(m)),
    decreases s.len(),
{
    if m == s.len() {
        assert(s.take(m) =~= s);
        assert(s.skip(m) =~= Seq::empty());
        assert(p10((s.len() - m) as nat) == 1);
        assert(val_msd(s.take(m)) * 1 == val_msd(s.take(m)));
        assert(val_msd(s) == val_msd(s.take(m)) * p10((s.len() - m) as nat) + val_msd(s.skip(m)));
    } else {
        assert(s.len() > 0);
        lemma_val_msd_split(s.drop_last(), m);
        assert(s.drop_last().take(m) =~= s.take(m));
        assert(s.drop_last().skip(m) =~= s.skip(m).drop_last());
        assert(s.skip(m).len() > 0);
        assert(s.skip(m).last() == s.last());
        assert(val_msd(s.skip(m)) == 10 * val_msd(s.skip(m).drop_last()) + s.last());
        let k = (s.len() - 1 - m) as nat;
        assert(10 * (val_msd(s.take(m)) * p10(k) + val_msd(s.skip(m).drop_last())) == 10 * (val_msd(
            s.take(m),
        ) * p10(k)) + 10 * val_msd(s.skip(m).drop_last()));
        lemma_mul_is_associative(10, val_msd(s.take(m)) as int, p10(k) as int);
        lemma_mul_is_associative(val_msd(s.take(m)) as int, 10, p10(k) as int);
        assert(p10((s.len() - m) as nat) == 10 * p10(k));
        assert(val_msd(s.take(m)) * (10 * p10(k)) == val_msd(s.take(m)) * p10((s.len() - m) as nat));
        assert(val_msd(s) == val_msd(s.take(m)) * p10((s.len() - m) as nat) + val_msd(s.skip(m)));
    }
}

pub proof fn lemma_val_msd_bound(s: Seq<u8>)
    requires
        digits_ok(s),
    ensures
        val_msd(s) < p10(s.len()),
    decreases s.len(),
{
    if s.len() > 0 {
        lemma_val_msd_bound(s.drop_last());
    }
}

pub proof fn lemma_val_msd_zero(s: Seq<u8>)
    requires
        digits_ok(s),
    ensures
        (val_msd(s) == 0) <==> (forall|i: int| 0 <= i < s.len() ==> s[i] == 0),
    decreases s.len(),
{
    if s.len() > 0 {
        lemma_val_msd_zero(s.drop_last());
        if val_msd(s) == 0 {
            assert forall|i: int| 0 <= i < s.len() implies s[i] == 0 by {
                if i < s.len() - 1 {
                    assert(s.drop_last()[i] == s[i]);
                }
            }
        } else {
            if forall|i: int| 0 <= i < s.len() ==> s[i] == 0 {
                assert(forall|i: int|
                    0 <= i < s.drop_last().len() ==> #[trigger] s.drop_last()[i] == s[i]);
                assert(val_msd(s.drop_last()) == 0);
                assert(s.last() == 0);
            }
        }
    }
}

/// Whether the numeral with digits `digits` (most significant first) and
/// `scale` fraction digits denotes a number at most 100; that is, whether
/// its integer value is at most `100 * 10^scale`.
pub open spec fn within_hundred(digits: Seq<u8>, scale: nat) -> bool {
    val_msd(digits) <= 100 * p10(scale)
}

/// Decide `within_hundred` exactly, however long the numeral is.
pub fn le_hundred(digits: &Vec<u8>, scale: usize) -> (r: bool)
    requires
        digits_ok(digits@),
        scale < digits@.len(),
    ensures
        r == within_hundred(digits@, scale as nat),
{
    let n = digits.len();
    let m = n - scale;  // count of integer-part digits, at least 1
    let mut acc: u64 = 0;
    let mut i: usize = 0;
    while i < m
        invariant
            0 <= i <= m,
            m == n - scale,
            scale < n,
            n == digits@.len(),
            digits_ok(digits@),
            acc <= 1009,
            val_msd(digits@.take(i as int)) <= 100 ==> acc == val_msd(digits@.take(i as int)),
            val_msd(digits@.take(i as int)) > 100 ==> acc > 100,
        decreases m - i,
    {
        let d = digits[i];
        proof {
            assert(digits@.take(i + 1).drop_last() =~= digits@.take(i as int));
            assert(digits@.take(i + 1).last() == digits@[i as int]);
        }
        if acc <= 100 {
            acc = acc * 10 + (d as u64);
        }
        i = i + 1;
    }
    let mut frac_zero = true;
    let mut j: usize = m;
    while j < n
        invariant
            m <= j <= n,
            n == digits@.len(),
            digits_ok(digits@),
            frac_zero == (forall|k: int| m <= k < j ==> digits@[k] == 0),
        decreases n - j,
    {
        if digits[j] != 0 {
            frac_zero = false;
        }
        j = j + 1;
    }
    let r = acc < 100 || (acc == 100 && frac_zero);
    proof {
        let ds = digits@;
        let mm = m as int;
        let sc = scale as nat;
        assert(ds.take(mm).len() == mm);
        lemma_val_msd_split(ds, mm);
        let iv = val_msd(ds.take(mm));
        let fv = val_msd(ds.skip(mm));
        assert(ds.skip(mm).len() == sc);
        assert(digits_ok(ds.skip(mm)));
        lemma_val_msd_bound(ds.skip(mm));
        assert(fv < p10(sc));
        lemma_p10_pos(sc);
        assert(val_msd(ds) == iv * p10(sc) + fv);
        lemma_val_msd_zero(ds.skip(mm));
        if frac_zero {
            assert forall|k: int| 0 <= k < ds.skip(mm).len() implies ds.skip(mm)[k] == 0 by {
                assert(ds[mm + k] == 0);
            }
            assert(fv == 0);
        } else {
            let k0 = choose|k: int| mm <= k < n && ds[k] != 0;
            assert(ds.skip(mm)[k0 - mm] != 0);
            assert(fv != 0);
        }
        assert(frac_zero == (fv == 0));
        if iv <= 99 {
            lemma_mul_inequality(iv as int, 99, p10(sc) as int);
            assert(iv * p10(sc) <= 99 * p10(sc));
            assert(val_msd(ds) < 100 * p10(sc));
            assert(acc == iv);
            assert(r);
        } else if iv == 100 {
            assert(acc == iv);
            if fv == 0 {
                assert(val_msd(ds) == 100 * p10(sc));
                assert(r);
            } else {
                assert(val_msd(ds) > 100 * p10(sc));
                assert(!r);
            }
        } else {
            lemma_mul_inequality(101, iv as int, p10(sc) as int);
            assert(101 * p10(sc) <= iv * p10(sc));
            assert(val_msd(ds) > 100 * p10(sc));
            assert(acc > 100);
            assert(!r);
        }
    }
    r
}

/// The exact pixel component of a numeral: `(value * dim) / 10^(scale+2)`
/// with integer (floor) division, that is `floor(value / 100 * dim)`.
pub open spec fn pixel_val(digits: Seq<u8>, scale: nat, dim: u32) -> int {
    ((val_msd(digits) * dim) as int) / (p10((scale + 2) as nat) as int)
}

/// The pixel component for a numeral in [0, 100]: exactly
/// `floor(value * dim / 100)`, computed as
/// `(digits-value * dim) / 10^(scale+2)` on the digit string.
pub fn pixel_component(digits: &Vec<u8>, scale: usize, dim: u32) -> (r: u32)
    requires
        digits_ok(digits@),
        scale < digits@.len(),
        scale + 2 <= usize::MAX,
        within_hundred(digits@, scale as nat),
    ensures
        r == pixel_val(digits@, scale as nat, dim),
        r <= dim,
{
    let ghost nval = val_msd(digits@);
    let n = digits.len();
    let mut out: Vec<u8> = Vec::new();
    let mut carry: u64 = 0;
    let mut i: usize = n;
    proof {
        assert(digits@.skip(n as int) =~= Seq::<u8>::empty());
    }
    while i > 0
        invariant
            0 <= i <= n,
            n == digits@.len(),
            digits_ok(digits@),
            digits_ok(out@),
            out@.len() == n - i,
            carry <= dim,
            val_lsd(out@) + carry * p10((n - i) as nat) == val_msd(digits@.skip(i as int)) * dim,
        decreases i,
    {
        i = i - 1;
        let d = digits[i];
        proof {
            lemma_mul_upper_bound(d as int, 9, dim as int, 0xFFFF_FFFF);
        }
        let t: u64 = (d as u64) * (dim as u64) + carry;
        proof {
            let k = (n - i - 1) as nat;
            let suf = digits@.skip(i as int);
            assert(suf =~= seq![digits@[i as int]] + digits@.skip(i as int + 1));
            lemma_val_msd_prepend(digits@[i as int], digits@.skip(i as int + 1));
            let v = val_msd(digits@.skip(i as int + 1));
            assert(val_msd(suf) == d * p10(k) + v);
            lemma_mul_is_distributive_add_other_way(dim as int, (d * p10(k)) as int, v as int);
            assert(val_msd(suf) * dim == (d * p10(k)) * dim + v * dim);
            lemma_mul_is_associative(d as int, p10(k) as int, dim as int);
            lemma_mul_is_associative(d as int, dim as int, p10(k) as int);
            assert((d * p10(k)) * dim == (d * dim) * p10(k));
            // t = d * dim + carry, grouped against the digit pushed below
            assert((d * dim + carry) * p10(k) == (d * dim) * p10(k) + carry * p10(k)) by {
                lemma_mul_is_distributive_add_other_way(
                    p10(k) as int,
                    (d * dim) as int,
                    carry as int,
                );
            }
            assert(t == 10 * (t / 10) + t % 10) by {
                lemma_fundamental_div_mod(t as int, 10);
            }
            assert((t as int) * p10(k) == (10 * (t / 10) + t % 10) * p10(k));
            lemma_mul_is_distributive_add_other_way(
                p10(k) as int,
                (10 * (t / 10)) as int,
                (t % 10) as int,
            );
            lemma_mul_is_associative(10, (t / 10) as int, p10(k) as int);
            lemma_mul_is_associative((t / 10) as int, 10, p10(k) as int);
            assert((10 * (t / 10)) * p10(k) == (t / 10) * p10((k + 1) as nat));
            lemma_val_lsd_push(out@, (t % 10) as u8);
            // carry bound for the next round
            assert(t <= 10 * (dim as int)) by {
                lemma_mul_inequality(d as int, 9, dim as int);
            }
            assert(t / 10 <= dim) by {
                lemma_div_is_ordered(t as int, 10 * (dim as int), 10);
                lemma_div_multiples_vanish(dim as int, 10);
            }
        }
        out.push((t % 10) as u8);
        carry = t / 10;
    }
    proof {
        assert(digits@.skip(0) =~= digits@);
    }
    while carry > 0
        invariant
            digits_ok(out@),
            carry <= dim,
            val_lsd(out@) + carry * p10(out@.len()) == nval * dim,
        decreases carry,
    {
        proof {
            let L = out@.len();
            assert(carry == 10 * (carry / 10) + carry % 10) by {
                lemma_fundamental_div_mod(carry as int, 10);
            }
            assert((carry as int) * p10(L) == (10 * (carry / 10) + carry % 10) * p10(L));
            lemma_mul_is_distributive_add_other_way(
                p10(L) as int,
                (10 * (carry / 10)) as int,
                (carry % 10) as int,
            );
            lemma_mul_is_associative(10, (carry / 10) as int, p10(L) as int);
            lemma_mul_is_associative((carry / 10) as int, 10, p10(L) as int);
            assert((10 * (carry / 10)) * p10(L) == (carry / 10) * p10((L + 1) as nat));
            lemma_val_lsd_push(out@, (carry % 10) as u8);
        }
        let d = (carry % 10) as u8;
        out.push(d);
        carry = carry / 10;
    }
    // now val_lsd(out@) == nval * dim; drop the scale + 2 low digits
    let lo = scale + 2;
    let ghost q = ((nval * dim) as int) / (p10(lo as nat) as int);
    proof {
        // q <= dim
        assert(p10((scale + 2) as nat) == 100 * p10(scale as nat)) by {
            assert(p10((scale + 2) as nat) == 10 * p10((scale + 1) as nat));
            assert(p10((scale + 1) as nat) == 10 * p10(scale as nat));
        }
        lemma_p10_pos(scale as nat);
        lemma_mul_inequality(nval as int, (100 * p10(scale as nat)) as int, dim as int);
        assert(nval * dim <= (100 * p10(scale as nat)) * dim);
        assert((100 * p10(scale as nat)) * dim == p10((scale + 2) as nat) * (dim as int)) by {
            lemma_mul_is_associative(100, p10(scale as nat) as int, dim as int);
            lemma_mul_is_commutative((100 * p10(scale as nat)) as int, dim as int);
            lemma_mul_is_commutative(p10((scale + 2) as nat) as int, dim as int);
        }
        lemma_div_is_ordered(
            (nval * dim) as int,
            (p10((scale + 2) as nat) * (dim as int)) as int,
            p10((scale + 2) as nat) as int,
        );
        lemma_div_multiples_vanish(dim as int, p10((scale + 2) as nat) as int);
        assert(q <= dim);
    }
    if out.len() <= lo {
        proof {
            lemma_val_lsd_bound(out@);
            lemma_p10_le(out@.len(), lo as nat);
            assert(nval * dim < p10(lo as nat));
            vstd::arithmetic::div_mod::lemma_basic_div((nval * dim) as int, p10(lo as nat) as int);
        }
        return 0u32;
    }
    let mut acc: u64 = 0;
    let mut j: usize = out.len();
    proof {
        lemma_val_lsd_split(out@, lo as int);
        lemma_val_lsd_bound(out@.take(lo as int));
        assert(out@.take(lo as int).len() == lo);
        lemma_fundamental_div_mod_converse_div(
            (nval * dim) as int,
            p10(lo as nat) as int,
            val_lsd(out@.skip(lo as int)) as int,
            val_lsd(out@.take(lo as int)) as int,
        );
        assert(val_lsd(out@.skip(lo as int)) == q);
        assert(out@.skip(j as int) =~= Seq::<u8>::empty());
    }
    while j > lo
        invariant
            lo <= j <= out@.len(),
            digits_ok(out@),
            acc == val_lsd(out@.skip(j as int)),
            val_lsd(out@.skip(lo as int)) == q,
            q <= dim,
            acc <= dim,
        decreases j,
    {
        j = j - 1;
        let d = out[j];
        proof {
            assert(out@.skip(j as int).skip(1) =~= out@.skip(j as int + 1));
            assert(out@.skip(j as int)[0] == out@[j as int]);
            assert(val_lsd(out@.skip(j as int)) == d + 10 * acc);
            // stays bounded by the final quotient
            lemma_val_lsd_split(out@.skip(lo as int), j - lo);
            assert(out@.skip(lo as int).skip(j - lo) =~= out@.skip(j as int));
            lemma_p10_pos((j - lo) as nat);
            lemma_mul_increases_or_zero(
                p10((j - lo) as nat) as int,
                val_lsd(out@.skip(j as int)) as int,
            );
            assert(val_lsd(out@.skip(j as int)) <= q);
        }
        acc = acc * 10 + (d as u64);
        proof {
            assert(acc == val_lsd(out@.skip(j as int)));
        }
    }
    proof {
        assert(acc == q);
    }
    acc as u32
}

proof fn lemma_p10_le(a: nat, b: nat)
    requires
        a <= b,
    ensures
        p10(a) <= p10(b),
    decreases b,
{
    if a < b {
        lemma_p10_le(a, (b - 1) as nat);
        lemma_p10_pos((b - 1) as nat);
    }
}

proof fn lemma_mul_increases_or_zero(x: int, y: int)
    requires
        x >= 1,
        y >= 0,
    ensures
        y <= x * y,
{
    if y > 0 {
        lemma_mul_increases(x, y);
    } else {
        assert(x * 0 == 0) by (nonlinear_arith);
    }
}

} // verus!
