//! Semirings and sparse polynomials over them.
//!
//! A semiring here states no algebraic laws: each implementation only pins
//! down, over its mathematical view, what its operations compute. Polynomial
//! contracts therefore fix the order in which coefficients are combined —
//! terms are kept sorted by exponent and folded in that order.

use vstd::prelude::*;

verus! {

/// A semiring: zero, one, addition, and multiplication. Each operation's
/// result is stated over the type's view; `add_ok` and `mul_ok` say when an
/// operation may be computed (for machine integers: when it does not
/// overflow).
pub trait Semiring: View + Sized {
    /// The view of the additive identity.
    spec fn vzero() -> Self::V;

    /// The view of the multiplicative identity.
    spec fn vone() -> Self::V;

    /// What addition computes, on views.
    spec fn vadd(a: Self::V, b: Self::V) -> Self::V;

    /// What multiplication computes, on views.
    spec fn vmul(a: Self::V, b: Self::V) -> Self::V;

    /// When `a` and `b` may be added.
    spec fn add_ok(a: Self::V, b: Self::V) -> bool;

    /// When `a` and `b` may be multiplied.
    spec fn mul_ok(a: Self::V, b: Self::V) -> bool;

    /// Additive identity.
    fn zero() -> (r: Self)
        ensures
            r@ == Self::vzero(),
    ;

    /// Multiplicative identity.
    fn one() -> (r: Self)
        ensures
            r@ == Self::vone(),
    ;

    /// Addition operation.
    fn add(&self, rhs: &Self) -> (r: Self)
        requires
            Self::add_ok(self@, rhs@),
        ensures
            r@ == Self::vadd(self@, rhs@),
    ;

    /// Multiplication operation.
    fn mul(&self, rhs: &Self) -> (r: Self)
        requires
            Self::mul_ok(self@, rhs@),
        ensures
            r@ == Self::vmul(self@, rhs@),
    ;

    /// Whether this value is the additive identity.
    fn is_zero(&self) -> (b: bool)
        ensures
            b == (self@ == Self::vzero()),
    ;

    /// A copy with the same view.
    fn dup(&self) -> (r: Self)
        ensures
            r@ == self@,
    ;
}

impl Semiring for u64 {
    open spec fn vzero() -> u64 {
        0u64
    }

    open spec fn vone() -> u64 {
        1u64
    }

    open spec fn vadd(a: u64, b: u64) -> u64 {
        (a + b) as u64
    }

    open spec fn vmul(a: u64, b: u64) -> u64 {
        (a * b) as u64
    }

    open spec fn add_ok(a: u64, b: u64) -> bool {
        a + b <= u64::MAX
    }

    open spec fn mul_ok(a: u64, b: u64) -> bool {
        a * b <= u64::MAX
    }

    fn zero() -> u64 {
        0u64
    }

    fn one() -> u64 {
        1u64
    }

    fn add(&self, rhs: &u64) -> u64 {
        *self + *rhs
    }

    fn mul(&self, rhs: &u64) -> u64 {
        *self * *rhs
    }

    fn is_zero(&self) -> bool {
        *self == 0u64
    }

    fn dup(&self) -> u64 {
        *self
    }
}

impl Semiring for i64 {
    open spec fn vzero() -> i64 {
        0i64
    }

    open spec fn vone() -> i64 {
        1i64
    }

    open spec fn vadd(a: i64, b: i64) -> i64 {
        (a + b) as i64
    }

    open spec fn vmul(a: i64, b: i64) -> i64 {
        (a * b) as i64
    }

    open spec fn add_ok(a: i64, b: i64) -> bool {
        i64::MIN <= a + b <= i64::MAX
    }

    open spec fn mul_ok(a: i64, b: i64) -> bool {
        i64::MIN <= a * b <= i64::MAX
    }

    fn zero() -> i64 {
        0i64
    }

    fn one() -> i64 {
        1i64
    }

    fn add(&self, rhs: &i64) -> i64 {
        *self + *rhs
    }

    fn mul(&self, rhs: &i64) -> i64 {
        *self * *rhs
    }

    fn is_zero(&self) -> bool {
        *self == 0i64
    }

    fn dup(&self) -> i64 {
        *self
    }
}

/// The value `k`, viewed in the semiring `T`: zero with one added `k` times.
pub open spec fn from_view<T: Semiring>(k: nat) -> T::V
    decreases k,
{
    if k == 0 {
        T::vzero()
    } else {
        T::vadd(from_view::<T>((k - 1) as nat), T::vone())
    }
}

/// Converts an integer to a semiring value by repeated addition of one.
pub fn from_usize<T: Semiring>(value: usize) -> (r: T)
    requires
        forall|k: nat| k < value ==> T::add_ok(#[trigger] from_view::<T>(k), T::vone()),
    ensures
        r@ == from_view::<T>(value as nat),
{
    let mut result = T::zero();
    let one = T::one();
    let mut i: usize = 0;
    while i < value
        invariant
            i <= value,
            result@ == from_view::<T>(i as nat),
            one@ == T::vone(),
            forall|k: nat| k < value ==> T::add_ok(#[trigger] from_view::<T>(k), T::vone()),
        decreases value - i,
    {
        result = result.add(&one);
        i = i + 1;
    }
    result
}

/// The left operand's terms that survive an addition: every term whose
/// stored coefficient is zero is dropped, the rest pass through unchanged.
pub open spec fn pkeep<C: Semiring>(a: Seq<(u64, C::V)>) -> Seq<(u64, C::V)>
    decreases a.len(),
{
    if a.len() == 0 {
        Seq::empty()
    } else {
        let rest = pkeep::<C>(a.skip(1));
        if a[0].1 == C::vzero() {
            rest
        } else {
            seq![a[0]] + rest
        }
    }
}

/// The right operand's terms that survive an addition: each coefficient is
/// added to zero — the semiring states no identity law, so the sum is
/// computed, not assumed — and terms whose sum is zero are dropped.
pub open spec fn pright<C: Semiring>(b: Seq<(u64, C::V)>) -> Seq<(u64, C::V)>
    decreases b.len(),
{
    if b.len() == 0 {
        Seq::empty()
    } else {
        let s = C::vadd(b[0].1, C::vzero());
        let rest = pright::<C>(b.skip(1));
        if s == C::vzero() {
            rest
        } else {
            seq![(b[0].0, s)] + rest
        }
    }
}

/// When the right operand's leftover terms may be computed.
pub open spec fn pright_ok<C: Semiring>(b: Seq<(u64, C::V)>) -> bool
    decreases b.len(),
{
    if b.len() == 0 {
        true
    } else {
        C::add_ok(b[0].1, C::vzero()) && pright_ok::<C>(b.skip(1))
    }
}

/// The sum of two term lists sorted by exponent. Coefficients of a shared
/// exponent are added (right operand first, as the semiring states no
/// commutativity); an exponent only the right operand holds gets its
/// coefficient added to zero; and every term whose resulting coefficient is
/// zero is dropped, so a sum stores no zero coefficient at all.
pub open spec fn padd<C: Semiring>(a: Seq<(u64, C::V)>, b: Seq<(u64, C::V)>) -> Seq<(u64, C::V)>
    decreases a.len() + b.len(),
{
    if a.len() == 0 {
        pright::<C>(b)
    } else if b.len() == 0 {
        pkeep::<C>(a)
    } else if a[0].0 < b[0].0 {
        let rest = padd::<C>(a.skip(1), b);
        if a[0].1 == C::vzero() {
            rest
        } else {
            seq![a[0]] + rest
        }
    } else if a[0].0 > b[0].0 {
        let s = C::vadd(b[0].1, C::vzero());
        let rest = padd::<C>(a, b.skip(1));
        if s == C::vzero() {
            rest
        } else {
            seq![(b[0].0, s)] + rest
        }
    } else {
        let s = C::vadd(b[0].1, a[0].1);
        let rest = padd::<C>(a.skip(1), b.skip(1));
        if s == C::vzero() {
            rest
        } else {
            seq![(a[0].0, s)] + rest
        }
    }
}

/// When the sum of two term lists may be computed: every coefficient
/// addition it performs is allowed.
pub open spec fn padd_ok<C: Semiring>(a: Seq<(u64, C::V)>, b: Seq<(u64, C::V)>) -> bool
    decreases a.len() + b.len(),
{
    if a.len() == 0 {
        pright_ok::<C>(b)
    } else if b.len() == 0 {
        true
    } else if a[0].0 < b[0].0 {
        padd_ok::<C>(a.skip(1), b)
    } else if a[0].0 > b[0].0 {
        C::add_ok(b[0].1, C::vzero()) && padd_ok::<C>(a, b.skip(1))
    } else {
        C::add_ok(b[0].1, a[0].1) && padd_ok::<C>(a.skip(1), b.skip(1))
    }
}

/// The term list `a` multiplied by the single term `x^k * v`: every exponent
/// shifted up by `k`, every coefficient multiplied by `v` on the left, terms
/// whose product is zero dropped.
pub open spec fn pscale<C: Semiring>(a: Seq<(u64, C::V)>, k: u64, v: C::V) -> Seq<(u64, C::V)>
    decreases a.len(),
{
    if a.len() == 0 {
        Seq::empty()
    } else {
        let m = C::vmul(v, a[0].1);
        let rest = pscale::<C>(a.skip(1), k, v);
        if m == C::vzero() {
            rest
        } else {
            seq![(((a[0].0 + k) as u64), m)] + rest
        }
    }
}

/// When the scaling may be computed: no exponent overflows and every
/// coefficient multiplication is allowed.
pub open spec fn pscale_ok<C: Semiring>(a: Seq<(u64, C::V)>, k: u64, v: C::V) -> bool
    decreases a.len(),
{
    if a.len() == 0 {
        true
    } else {
        a[0].0 + k <= u64::MAX && C::mul_ok(v, a[0].1) && pscale_ok::<C>(a.skip(1), k, v)
    }
}

/// The product of two term lists: for each term of `b`, in order, the scaled
/// copy of `a` is merged into the accumulated sum.
pub open spec fn pmul<C: Semiring>(a: Seq<(u64, C::V)>, b: Seq<(u64, C::V)>) -> Seq<(u64, C::V)>
    decreases b.len(),
{
    if b.len() == 0 {
        Seq::empty()
    } else {
        padd::<C>(pmul::<C>(a, b.drop_last()), pscale::<C>(a, b.last().0, b.last().1))
    }
}

/// When the product may be computed.
pub open spec fn pmul_ok<C: Semiring>(a: Seq<(u64, C::V)>, b: Seq<(u64, C::V)>) -> bool
    decreases b.len(),
{
    if b.len() == 0 {
        true
    } else {
        &&& pmul_ok::<C>(a, b.drop_last())
        &&& pscale_ok::<C>(a, b.last().0, b.last().1)
        &&& padd_ok::<C>(pmul::<C>(a, b.drop_last()), pscale::<C>(a, b.last().0, b.last().1))
    }
}

/// `x^k`, by repeated multiplication on the right.
pub open spec fn powx<C: Semiring>(k: nat, x: C::V) -> C::V
    decreases k,
{
    if k == 0 {
        C::vone()
    } else {
        C::vmul(powx::<C>((k - 1) as nat, x), x)
    }
}

/// When `x^k` may be computed.
pub open spec fn powx_ok<C: Semiring>(k: nat, x: C::V) -> bool
    decreases k,
{
    if k == 0 {
        true
    } else {
        powx_ok::<C>((k - 1) as nat, x) && C::mul_ok(powx::<C>((k - 1) as nat, x), x)
    }
}

/// The value of the term list at `x`: each term evaluates to `x^k * v`, and
/// the terms are summed in order.
pub open spec fn peval<C: Semiring>(s: Seq<(u64, C::V)>, x: C::V) -> C::V
    decreases s.len(),
{
    if s.len() == 0 {
        C::vzero()
    } else {
        C::vadd(peval::<C>(s.drop_last(), x), C::vmul(powx::<C>(s.last().0 as nat, x), s.last().1))
    }
}

/// When the evaluation may be computed.
pub open spec fn peval_ok<C: Semiring>(s: Seq<(u64, C::V)>, x: C::V) -> bool
    decreases s.len(),
{
    if s.len() == 0 {
        true
    } else {
        &&& peval_ok::<C>(s.drop_last(), x)
        &&& powx_ok::<C>(s.last().0 as nat, x)
        &&& C::mul_ok(powx::<C>(s.last().0 as nat, x), s.last().1)
        &&& C::add_ok(peval::<C>(s.drop_last(), x), C::vmul(powx::<C>(s.last().0 as nat, x), s.last().1))
    }
}

/// A sparse polynomial with coefficients in `C`: terms `(exponent,
/// coefficient)`, kept sorted by exponent.
pub struct Polynomial<C: Semiring> {
    coefficients: Vec<(u64, C)>,
}

impl<C: Semiring> View for Polynomial<C> {
    type V = Seq<(u64, C::V)>;

    closed spec fn view(&self) -> Seq<(u64, C::V)> {
        self.coefficients@.map_values(|e: (u64, C)| (e.0, e.1@))
    }
}

impl<C: Semiring> Polynomial<C> {
    /// One mirror step of [`pkeep`]: the left operand's leftover terms.
    fn keep_terms(a: &Vec<(u64, C)>, i: usize) -> (r: Vec<(u64, C)>)
        requires
            i <= a@.len(),
        ensures
            pview(r@) == pkeep::<C>(pview(a@).skip(i as int)),
        decreases a@.len() - i,
    {
        let ghost av = pview(a@).skip(i as int);
        if i == a.len() {
            let r: Vec<(u64, C)> = Vec::new();
            proof {
                assert(pview(r@) =~= pkeep::<C>(av));
            }
            r
        } else {
            proof {
                assert(av[0] == (a@[i as int].0, a@[i as int].1@));
                assert(av.skip(1) =~= pview(a@).skip(i as int + 1));
            }
            let mut r = Self::keep_terms(a, i + 1);
            if a[i].1.is_zero() {
                r
            } else {
                let ghost rv = r@;
                let key = a[i].0;
                let coeff = a[i].1.dup();
                let ghost cv = coeff@;
                r.insert(0, (key, coeff));
                proof {
                    lemma_pview_insert_front::<C>(r@, rv, key, cv);
                    assert(pview(r@) =~= seq![av[0]] + pkeep::<C>(av.skip(1)));
                }
                r
            }
        }
    }

    /// One mirror step of [`pright`]: the right operand's leftover terms,
    /// each coefficient added to zero.
    fn right_terms(b: &Vec<(u64, C)>, j: usize) -> (r: Vec<(u64, C)>)
        requires
            j <= b@.len(),
            pright_ok::<C>(pview(b@).skip(j as int)),
        ensures
            pview(r@) == pright::<C>(pview(b@).skip(j as int)),
        decreases b@.len() - j,
    {
        let ghost bv = pview(b@).skip(j as int);
        if j == b.len() {
            let r: Vec<(u64, C)> = Vec::new();
            proof {
                assert(pview(r@) =~= pright::<C>(bv));
            }
            r
        } else {
            proof {
                assert(bv[0] == (b@[j as int].0, b@[j as int].1@));
                assert(bv.skip(1) =~= pview(b@).skip(j as int + 1));
            }
            let zero = C::zero();
            let s = b[j].1.add(&zero);
            let mut r = Self::right_terms(b, j + 1);
            if s.is_zero() {
                r
            } else {
                let ghost rv = r@;
                let key = b[j].0;
                let ghost sv = s@;
                r.insert(0, (key, s));
                proof {
                    lemma_pview_insert_front::<C>(r@, rv, key, sv);
                    assert(pview(r@) =~= seq![(bv[0].0, C::vadd(bv[0].1, C::vzero()))] + pright::<
                        C,
                    >(bv.skip(1)));
                }
                r
            }
        }
    }

    /// One mirror step of [`padd`].
    fn add_terms(a: &Vec<(u64, C)>, b: &Vec<(u64, C)>, i: usize, j: usize) -> (r: Vec<(u64, C)>)
        requires
            i <= a@.len(),
            j <= b@.len(),
            padd_ok::<C>(pview(a@).skip(i as int), pview(b@).skip(j as int)),
        ensures
            pview(r@) == padd::<C>(pview(a@).skip(i as int), pview(b@).skip(j as int)),
        decreases a@.len() + b@.len() - i - j,
    {
        let ghost av = pview(a@).skip(i as int);
        let ghost bv = pview(b@).skip(j as int);
        if i == a.len() {
            Self::right_terms(b, j)
        } else if j == b.len() {
            Self::keep_terms(a, i)
        } else {
            proof {
                assert(av[0] == (a@[i as int].0, a@[i as int].1@));
                assert(bv[0] == (b@[j as int].0, b@[j as int].1@));
                assert(av.skip(1) =~= pview(a@).skip(i as int + 1));
                assert(bv.skip(1) =~= pview(b@).skip(j as int + 1));
            }
            if a[i].0 < b[j].0 {
                let mut r = Self::add_terms(a, b, i + 1, j);
                if a[i].1.is_zero() {
                    r
                } else {
                    let ghost rv = r@;
                    let key = a[i].0;
                    let coeff = a[i].1.dup();
                    let ghost cv = coeff@;
                    r.insert(0, (key, coeff));
                    proof {
                        lemma_pview_insert_front::<C>(r@, rv, key, cv);
                        assert(pview(r@) =~= seq![av[0]] + padd::<C>(av.skip(1), bv));
                    }
                    r
                }
            } else if a[i].0 > b[j].0 {
                let zero = C::zero();
                let s = b[j].1.add(&zero);
                let mut r = Self::add_terms(a, b, i, j + 1);
                if s.is_zero() {
                    r
                } else {
                    let ghost rv = r@;
                    let key = b[j].0;
                    let ghost sv = s@;
                    r.insert(0, (key, s));
                    proof {
                        lemma_pview_insert_front::<C>(r@, rv, key, sv);
                        assert(pview(r@) =~= seq![(bv[0].0, C::vadd(bv[0].1, C::vzero()))]
                            + padd::<C>(av, bv.skip(1)));
                    }
                    r
                }
            } else {
                let s = b[j].1.add(&a[i].1);
                let mut r = Self::add_terms(a, b, i + 1, j + 1);
                if s.is_zero() {
                    r
                } else {
                    let ghost rv = r@;
                    let key = a[i].0;
                    let ghost sv = s@;
                    r.insert(0, (key, s));
                    proof {
                        lemma_pview_insert_front::<C>(r@, rv, key, sv);
                        assert(pview(r@) =~= seq![(av[0].0, C::vadd(bv[0].1, av[0].1))] + padd::<
                            C,
                        >(av.skip(1), bv.skip(1)));
                    }
                    r
                }
            }
        }
    }

    /// The scaled copy of the terms from `i` on: one mirror step of
    /// [`pscale`].
    fn scale_terms(a: &Vec<(u64, C)>, i: usize, k: u64, v: &C) -> (r: Vec<(u64, C)>)
        requires
            i <= a@.len(),
            pscale_ok::<C>(pview(a@).skip(i as int), k, v@),
        ensures
            pview(r@) == pscale::<C>(pview(a@).skip(i as int), k, v@),
        decreases a@.len() - i,
    {
        let ghost av = pview(a@).skip(i as int);
        if i == a.len() {
            let r: Vec<(u64, C)> = Vec::new();
            proof {
                assert(pview(r@) =~= pscale::<C>(av, k, v@));
            }
            r
        } else {
            proof {
                assert(av[0] == (a@[i as int].0, a@[i as int].1@));
                assert(av.skip(1) =~= pview(a@).skip(i as int + 1));
            }
            let m = v.mul(&a[i].1);
            let mut r = Self::scale_terms(a, i + 1, k, v);
            if m.is_zero() {
                r
            } else {
                let key = a[i].0 + k;
                r.insert(0, (key, m));
                proof {
                    assert(pview(r@) =~= seq![(((av[0].0 + k) as u64), C::vmul(v@, av[0].1))]
                        + pscale::<C>(av.skip(1), k, v@));
                }
                r
            }
        }
    }

    /// The constant polynomial with the given value at exponent zero.
    pub fn from_coefficient(value: C) -> (r: Self)
        ensures
            r@ == seq![(0u64, value@)],
    {
        let ghost vv = value@;
        let mut coefficients: Vec<(u64, C)> = Vec::new();
        coefficients.push((0u64, value));
        let r = Polynomial { coefficients };
        proof {
            assert(r@ =~= seq![(0u64, vv)]);
        }
        r
    }

    /// Constructs the polynomial `x`.
    pub fn x() -> (r: Self)
        ensures
            r@ == seq![(1u64, C::vone())],
    {
        let mut coefficients: Vec<(u64, C)> = Vec::new();
        coefficients.push((1u64, C::one()));
        let r = Polynomial { coefficients };
        proof {
            assert(r@ =~= seq![(1u64, C::vone())]);
        }
        r
    }

    /// Evaluates the polynomial at the given value: the sum, in term order,
    /// of `value^exponent * coefficient`.
    pub fn eval(&self, value: C) -> (r: C)
        requires
            peval_ok::<C>(self@, value@),
        ensures
            r@ == peval::<C>(self@, value@),
    {
        let mut out = C::zero();
        let mut i: usize = 0;
        let n = self.coefficients.len();
        while i < n
            invariant
                n == self@.len(),
                i <= n,
                out@ == peval::<C>(self@.take(i as int), value@),
                peval_ok::<C>(self@, value@),
            decreases n - i,
        {
            proof {
                lemma_peval_ok_take::<C>(self@, value@, i as int + 1);
                assert(self@.take(i as int + 1).drop_last() =~= self@.take(i as int));
                assert(self@[i as int] == (self.coefficients@[i as int].0,
                    self.coefficients@[i as int].1@));
            }
            let k = self.coefficients[i].0;
            let mut inner = C::one();
            let mut c: u64 = 0;
            while c < k
                invariant
                    c <= k,
                    inner@ == powx::<C>(c as nat, value@),
                    powx_ok::<C>(k as nat, value@),
                    k == self.coefficients@[i as int].0,
                    i < self.coefficients@.len(),
                decreases k - c,
            {
                proof {
                    lemma_powx_ok_below::<C>(c as nat + 1, k as nat, value@);
                }
                inner = inner.mul(&value);
                c = c + 1;
            }
            inner = inner.mul(&self.coefficients[i].1);
            out = out.add(&inner);
            i = i + 1;
        }
        proof {
            assert(self@.take(n as int) =~= self@);
        }
        out
    }
}

/// The views of a term vector.
pub open spec fn pview<C: Semiring>(s: Seq<(u64, C)>) -> Seq<(u64, C::V)> {
    s.map_values(|e: (u64, C)| (e.0, e.1@))
}

/// Inserting a term at the front of a vector puts its view at the front of
/// the vector's view.
proof fn lemma_pview_insert_front<C: Semiring>(
    r: Seq<(u64, C)>,
    prev: Seq<(u64, C)>,
    key: u64,
    cv: C::V,
)
    requires
        r.len() == prev.len() + 1,
        r[0].0 == key,
        r[0].1@ == cv,
        forall|t: int| 1 <= t < r.len() ==> r[t] == prev[t - 1],
    ensures
        pview(r) == seq![(key, cv)] + pview(prev),
{
    assert forall|t: int| 0 <= t < pview(r).len() implies pview(r)[t] == (seq![(key, cv)] + pview(
        prev,
    ))[t] by {
        assert(pview(r)[t] == (r[t].0, r[t].1@));
        if t > 0 {
            assert(r[t] == prev[t - 1]);
            assert(pview(prev)[t - 1] == (prev[t - 1].0, prev[t - 1].1@));
        }
    }
    assert(pview(r).len() == r.len());
    assert(pview(prev).len() == prev.len());
    assert(pview(r) =~= seq![(key, cv)] + pview(prev));
}

/// A copy of the terms from `i` on.
fn copy_terms<C: Semiring>(a: &Vec<(u64, C)>, i: usize) -> (r: Vec<(u64, C)>)
    requires
        i <= a@.len(),
    ensures
        pview(r@) == pview(a@).skip(i as int),
    decreases a@.len() - i,
{
    if i == a.len() {
        let r: Vec<(u64, C)> = Vec::new();
        proof {
            assert(pview(r@) =~= pview(a@).skip(i as int));
        }
        r
    } else {
        let mut r = copy_terms(a, i + 1);
        let ghost rv = r@;
        let key = a[i].0;
        let coeff = a[i].1.dup();
        let ghost cv = coeff@;
        r.insert(0, (key, coeff));
        proof {
            assert(r@ == rv.insert(0, (key, coeff)));
            assert forall|t: int| 0 <= t < pview(r@).len() implies pview(r@)[t] == pview(a@).skip(
                i as int,
            )[t] by {
                assert(pview(r@).len() == r@.len());
                assert(r@.len() == rv.len() + 1);
                assert(pview(rv).len() == rv.len());
                assert(rv.len() == a@.len() - i - 1);
                assert(pview(a@).skip(i as int)[t] == pview(a@)[i + t]);
                assert(pview(r@)[t] == (r@[t].0, r@[t].1@));
                if t > 0 {
                    assert(r@[t] == rv[t - 1]);
                    assert(pview(rv)[t - 1] == pview(a@).skip(i as int + 1)[t - 1]);
                    assert(pview(a@).skip(i as int + 1)[t - 1] == pview(a@)[i + t]);
                } else {
                    assert(r@[0].1@ == cv);
                    assert(cv == a@[i as int].1@);
                }
            }
            assert(pview(r@).len() == r@.len());
            assert(pview(a@).len() == a@.len());
            assert(pview(rv).len() == rv.len());
            assert(pview(rv) == pview(a@).skip(i as int + 1));
            assert(pview(r@).len() == pview(a@).skip(i as int).len());
            assert(pview(r@) =~= pview(a@).skip(i as int));
        }
        r
    }
}

/// If an evaluation is allowed, so is each prefix's.
proof fn lemma_peval_ok_take<C: Semiring>(s: Seq<(u64, C::V)>, x: C::V, i: int)
    requires
        0 <= i <= s.len(),
        peval_ok::<C>(s, x),
    ensures
        peval_ok::<C>(s.take(i), x),
    decreases s.len(),
{
    if i < s.len() {
        assert(s.take(i) =~= s.drop_last().take(i));
        lemma_peval_ok_take::<C>(s.drop_last(), x, i);
    } else {
        assert(s.take(i) =~= s);
    }
}

/// If `x^k` may be computed, so may each lower power.
proof fn lemma_powx_ok_below<C: Semiring>(c: nat, k: nat, x: C::V)
    requires
        c <= k,
        powx_ok::<C>(k, x),
    ensures
        powx_ok::<C>(c, x),
    decreases k,
{
    if c < k {
        lemma_powx_ok_below::<C>(c, (k - 1) as nat, x);
    }
}

/// If a product is allowed, so is each prefix of the right operand's terms.
proof fn lemma_pmul_ok_take<C: Semiring>(a: Seq<(u64, C::V)>, b: Seq<(u64, C::V)>, j: int)
    requires
        0 <= j <= b.len(),
        pmul_ok::<C>(a, b),
    ensures
        pmul_ok::<C>(a, b.take(j)),
    decreases b.len(),
{
    if j < b.len() {
        assert(b.take(j) =~= b.drop_last().take(j));
        lemma_pmul_ok_take::<C>(a, b.drop_last(), j);
    } else {
        assert(b.take(j) =~= b);
    }
}

impl<C: Semiring> Semiring for Polynomial<C> {
    open spec fn vzero() -> Seq<(u64, C::V)> {
        Seq::empty()
    }

    open spec fn vone() -> Seq<(u64, C::V)> {
        seq![(0u64, C::vone())]
    }

    open spec fn vadd(a: Seq<(u64, C::V)>, b: Seq<(u64, C::V)>) -> Seq<(u64, C::V)> {
        padd::<C>(a, b)
    }

    open spec fn vmul(a: Seq<(u64, C::V)>, b: Seq<(u64, C::V)>) -> Seq<(u64, C::V)> {
        pmul::<C>(a, b)
    }

    open spec fn add_ok(a: Seq<(u64, C::V)>, b: Seq<(u64, C::V)>) -> bool {
        padd_ok::<C>(a, b)
    }

    open spec fn mul_ok(a: Seq<(u64, C::V)>, b: Seq<(u64, C::V)>) -> bool {
        pmul_ok::<C>(a, b)
    }

    fn zero() -> (r: Self) {
        let r = Polynomial { coefficients: Vec::new() };
        proof {
            assert(r@ =~= Seq::<(u64, C::V)>::empty());
        }
        r
    }

    fn one() -> (r: Self) {
        let mut coefficients: Vec<(u64, C)> = Vec::new();
        coefficients.push((0u64, C::one()));
        let r = Polynomial { coefficients };
        proof {
            assert(r@ =~= seq![(0u64, C::vone())]);
        }
        r
    }

    fn add(&self, rhs: &Self) -> (r: Self) {
        proof {
            assert(pview(self.coefficients@) =~= pview(self.coefficients@).skip(0));
            assert(pview(rhs.coefficients@) =~= pview(rhs.coefficients@).skip(0));
        }
        let terms = Self::add_terms(&self.coefficients, &rhs.coefficients, 0, 0);
        Polynomial { coefficients: terms }
    }

    fn mul(&self, rhs: &Self) -> (r: Self) {
        let mut acc: Vec<(u64, C)> = Vec::new();
        proof {
            assert(pview(acc@) =~= pmul::<C>(self@, rhs@.take(0)));
        }
        let n = rhs.coefficients.len();
        let mut j: usize = 0;
        while j < n
            invariant
                n == rhs@.len(),
                j <= n,
                pview(acc@) == pmul::<C>(self@, rhs@.take(j as int)),
                pmul_ok::<C>(self@, rhs@),
            decreases n - j,
        {
            proof {
                lemma_pmul_ok_take::<C>(self@, rhs@, j as int + 1);
                assert(rhs@.take(j as int + 1).drop_last() =~= rhs@.take(j as int));
                assert(rhs@.take(j as int + 1).last() == rhs@[j as int]);
                assert(rhs@[j as int] == (rhs.coefficients@[j as int].0,
                    rhs.coefficients@[j as int].1@));
                assert(pview(self.coefficients@).skip(0) =~= self@);
            }
            let k = rhs.coefficients[j].0;
            let scaled = Self::scale_terms(&self.coefficients, 0, k, &rhs.coefficients[j].1);
            proof {
                assert(pview(acc@).skip(0) =~= pview(acc@));
                assert(pview(scaled@).skip(0) =~= pview(scaled@));
            }
            let next = Self::add_terms(&acc, &scaled, 0, 0);
            acc = next;
            j = j + 1;
        }
        proof {
            assert(rhs@.take(n as int) =~= rhs@);
        }
        Polynomial { coefficients: acc }
    }

    fn is_zero(&self) -> (b: bool) {
        let b = self.coefficients.len() == 0;
        proof {
            assert(self@.len() == self.coefficients@.len());
            if b {
                assert(self@ =~= Seq::<(u64, C::V)>::empty());
            }
        }
        b
    }

    fn dup(&self) -> (r: Self) {
        proof {
            assert(pview(self.coefficients@).skip(0) =~= self@);
        }
        let terms = copy_terms(&self.coefficients, 0);
        Polynomial { coefficients: terms }
    }
}

} // verus!
