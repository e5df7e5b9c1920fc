//! Units as normalized products of named factors with integer exponents.
use vstd::prelude::*;
use crate::names::{
    pairs_map, distinct_names, lemma_pairs_map_dom, lemma_pairs_map_index, lemma_pairs_map_push,
};
use crate::number::fits;

verus! {

/// One named factor raised to a power.
#[derive(Debug, PartialEq, Eq)]
pub struct UnitFactor(pub String, pub i64);

/// The exponent of `k` in a unit (zero when absent).
pub open spec fn exp_in(m: Map<Seq<char>, int>, k: Seq<char>) -> int {
    if m.dom().contains(k) {
        m[k]
    } else {
        0
    }
}

/// The product of two units: exponents add, and factors that reach zero vanish.
pub open spec fn unit_product(a: Map<Seq<char>, int>, b: Map<Seq<char>, int>) -> Map<
    Seq<char>,
    int,
> {
    Map::new(|k| exp_in(a, k) + exp_in(b, k) != 0, |k| exp_in(a, k) + exp_in(b, k))
}

/// The reciprocal of a unit: every exponent negated.
pub open spec fn unit_inverse(b: Map<Seq<char>, int>) -> Map<Seq<char>, int> {
    Map::new(|k| b.dom().contains(k), |k| -b[k])
}

/// The quotient of two units.
pub open spec fn unit_quotient(a: Map<Seq<char>, int>, b: Map<Seq<char>, int>) -> Map<
    Seq<char>,
    int,
> {
    unit_product(a, unit_inverse(b))
}

/// Every exponent of the product fits in an `i64`.
pub open spec fn product_fits(a: Map<Seq<char>, int>, b: Map<Seq<char>, int>) -> bool {
    forall|k: Seq<char>| fits(#[trigger] exp_in(a, k) + exp_in(b, k))
}

/// A unit raised to an integer power: every exponent multiplied by `e`.
pub open spec fn unit_power(b: Map<Seq<char>, int>, e: int) -> Map<Seq<char>, int> {
    Map::new(|k| e != 0 && b.dom().contains(k), |k| b[k] * e)
}

/// Every exponent of the power fits in an `i64`.
pub open spec fn power_fits(b: Map<Seq<char>, int>, e: int) -> bool {
    forall|k: Seq<char>| b.dom().contains(k) ==> fits(#[trigger] b[k] * e)
}

/// Every exponent of the reciprocal fits in an `i64`.
pub open spec fn inverse_fits(b: Map<Seq<char>, int>) -> bool {
    forall|k: Seq<char>| b.dom().contains(k) ==> fits(-#[trigger] b[k])
}

/// The factors as `(name, exponent)` pairs of mathematical values.
pub open spec fn factor_seq(s: Seq<UnitFactor>) -> Seq<(Seq<char>, int)> {
    s.map_values(|f: UnitFactor| (f.0@, f.1 as int))
}

/// The factors of a product, in the order that `Unit::multiply` lays them out:
/// first those of the left operand that do not cancel, with summed exponents...
pub open spec fn list_mul_left(a: Seq<(Seq<char>, int)>, bm: Map<Seq<char>, int>) -> Seq<
    (Seq<char>, int),
>
    decreases a.len(),
{
    if a.len() == 0 {
        Seq::empty()
    } else {
        let rest = list_mul_left(a.drop_last(), bm);
        let s = a.last().1 + exp_in(bm, a.last().0);
        if s != 0 {
            rest.push((a.last().0, s))
        } else {
            rest
        }
    }
}

/// ... then those of the right operand whose names the left one lacks.
pub open spec fn list_mul_right(b: Seq<(Seq<char>, int)>, am: Map<Seq<char>, int>) -> Seq<
    (Seq<char>, int),
>
    decreases b.len(),
{
    if b.len() == 0 {
        Seq::empty()
    } else {
        let rest = list_mul_right(b.drop_last(), am);
        if am.dom().contains(b.last().0) {
            rest
        } else {
            rest.push(b.last())
        }
    }
}

pub open spec fn list_mul(a: Seq<(Seq<char>, int)>, b: Seq<(Seq<char>, int)>) -> Seq<
    (Seq<char>, int),
> {
    list_mul_left(a, pairs_map(b)) + list_mul_right(b, pairs_map(a))
}

/// The factors of a power, in the order of the base.
pub open spec fn list_power(a: Seq<(Seq<char>, int)>, e: int) -> Seq<(Seq<char>, int)> {
    if e == 0 {
        Seq::empty()
    } else {
        a.map_values(|x: (Seq<char>, int)| (x.0, x.1 * e))
    }
}

/// The factors of a reciprocal, in the order of the base.
pub open spec fn list_inverse(a: Seq<(Seq<char>, int)>) -> Seq<(Seq<char>, int)> {
    a.map_values(|x: (Seq<char>, int)| (x.0, -x.1))
}

/// A unit: factors with distinct names and nonzero exponents, in no particular order.
#[derive(Debug)]
pub struct Unit {
    factors: Vec<UnitFactor>,
}

impl View for Unit {
    type V = Map<Seq<char>, int>;

    closed spec fn view(&self) -> Map<Seq<char>, int> {
        pairs_map(factor_seq(self.factors@))
    }
}

/// A unit's exponents are nonzero and fit in an `i64`.
pub open spec fn unit_map_ok(m: Map<Seq<char>, int>) -> bool {
    forall|k: Seq<char>| #[trigger] m.dom().contains(k) ==> m[k] != 0 && fits(m[k])
}

impl Unit {
    #[verifier::type_invariant]
    pub open spec fn inv(&self) -> bool {
        self.wf()
    }

    /// The factors in storage order; the unit is the map that they denote.
    pub closed spec fn list(&self) -> Seq<(Seq<char>, int)> {
        factor_seq(self.factors@)
    }

    pub proof fn lemma_list(&self)
        requires
            self.wf(),
        ensures
            self@ == pairs_map(self.list()),
            distinct_names(self.list()),
    {
    }

    pub closed spec fn wf(&self) -> bool {
        &&& distinct_names(factor_seq(self.factors@))
        &&& forall|j: int| 0 <= j < self.factors@.len() ==> #[trigger] self.factors@[j].1 != 0
    }

    pub proof fn lemma_wf_view(&self)
        requires
            self.wf(),
        ensures
            unit_map_ok(self@),
            self@.dom().finite(),
    {
        let s = factor_seq(self.factors@);
        assert forall|k: Seq<char>| #[trigger] self@.dom().contains(k) implies self@[k] != 0 && fits(
            self@[k],
        ) by {
            lemma_pairs_map_dom(s, k);
            let j = choose|j: int| 0 <= j < s.len() && s[j].0 == k;
            lemma_pairs_map_index(s, j);
            assert(self.factors@[j].1 != 0);
        }
        lemma_pairs_map_finite(s);
    }

    /// The dimensionless unit.
    pub fn scalar() -> (r: Unit)
        ensures
            r.wf(),
            r@ == Map::<Seq<char>, int>::empty(),
            r.list() == Seq::<(Seq<char>, int)>::empty(),
    {
        let r = Unit { factors: Vec::new() };
        assert(factor_seq(r.factors@) =~= Seq::<(Seq<char>, int)>::empty());
        r
    }

    /// The unit made of one factor (dimensionless when its exponent is zero).
    pub fn from_factor(f: UnitFactor) -> (r: Unit)
        ensures
            r.wf(),
            r@ == (if f.1 == 0 {
                Map::<Seq<char>, int>::empty()
            } else {
                map![f.0@ => f.1 as int]
            }),
            f.1 != 0 ==> r.list() == seq![(f.0@, f.1 as int)],
    {
        if f.1 == 0 {
            Unit::scalar()
        } else {
            let ghost k = f.0@;
            let ghost e = f.1 as int;
            let mut v: Vec<UnitFactor> = Vec::new();
            v.push(f);
            let r = Unit { factors: v };
            assert(factor_seq(r.factors@) =~= seq![(k, e)]);
            assert(seq![(k, e)].drop_last() =~= Seq::<(Seq<char>, int)>::empty());
            assert(seq![(k, e)].last() == (k, e));
            assert(pairs_map(seq![(k, e)]) == pairs_map(Seq::<(Seq<char>, int)>::empty()).insert(k, e));
            assert(r@ =~= map![k => e]);
            r
        }
    }

    /// The factors, in storage order.
    pub fn factors(&self) -> (r: &Vec<UnitFactor>)
        ensures
            factor_seq(r@) == self.list(),
    {
        &self.factors
    }

    /// A copy of this unit.
    pub fn duplicate(&self) -> (r: Unit)
        requires
            self.wf(),
        ensures
            r.wf(),
            r@ == self@,
            r.list() == self.list(),
    {
        let mut v: Vec<UnitFactor> = Vec::new();
        let mut i: usize = 0;
        while i < self.factors.len()
            invariant
                i <= self.factors@.len(),
                v@.len() == i,
                forall|j: int| 0 <= j < i ==> #[trigger] v@[j] == self.factors@[j],
            decreases self.factors@.len() - i,
        {
            let f = UnitFactor(self.factors[i].0.clone(), self.factors[i].1);
            v.push(f);
            i = i + 1;
        }
        assert(v@ =~= self.factors@);
        Unit { factors: v }
    }

    pub fn is_dimensionless(&self) -> (r: bool)
        requires
            self.wf(),
        ensures
            r == (self@ =~= Map::<Seq<char>, int>::empty()),
    {
        proof {
            if self.factors@.len() > 0 {
                lemma_pairs_map_index(factor_seq(self.factors@), 0);
            }
        }
        self.factors.len() == 0
    }

    fn find(&self, name: &String) -> (r: Option<usize>)
        requires
            self.wf(),
        ensures
            match r {
                Some(i) => i < self.factors@.len() && self.factors@[i as int].0@ == name@
                    && self@.dom().contains(name@) && self@[name@] == self.factors@[i as int].1,
                None => !self@.dom().contains(name@),
            },
    {
        proof {
            lemma_pairs_map_dom(factor_seq(self.factors@), name@);
        }
        let mut i: usize = 0;
        while i < self.factors.len()
            invariant
                self.wf(),
                i <= self.factors@.len(),
                forall|j: int| 0 <= j < i ==> self.factors@[j].0@ != name@,
            decreases self.factors@.len() - i,
        {
            if self.factors[i].0 == *name {
                proof {
                    lemma_pairs_map_index(factor_seq(self.factors@), i as int);
                }
                return Some(i);
            }
            i = i + 1;
        }
        proof {
            if self@.dom().contains(name@) {
                let s = factor_seq(self.factors@);
                let j = choose|j: int| 0 <= j < s.len() && s[j].0 == name@;
                assert(self.factors@[j].0@ == name@);
            }
        }
        None
    }

    /// The product of two units; `None` when an exponent leaves the `i64` range.
    pub fn multiply(&self, o: &Unit) -> (r: Option<Unit>)
        requires
            self.wf(),
            o.wf(),
        ensures
            r is Some <==> product_fits(self@, o@),
            r is Some ==> r->0.wf() && r->0@ == unit_product(self@, o@) && r->0.list() == list_mul(
                self.list(),
                o.list(),
            ),
    {
        let ghost a = factor_seq(self.factors@);
        let ghost b = factor_seq(o.factors@);
        proof {
            self.lemma_wf_view();
            o.lemma_wf_view();
        }
        let mut out: Vec<UnitFactor> = Vec::new();
        assert(factor_seq(out@) =~= Seq::<(Seq<char>, int)>::empty());
        let mut i: usize = 0;
        while i < self.factors.len()
            invariant
                self.wf(),
                o.wf(),
                a == factor_seq(self.factors@),
                i <= self.factors@.len(),
                distinct_names(factor_seq(out@)),
                forall|j: int| 0 <= j < out@.len() ==> #[trigger] out@[j].1 != 0,
                pairs_map(factor_seq(out@)) =~= Map::new(
                    |k| pairs_map(a.subrange(0, i as int)).dom().contains(k) && exp_in(self@, k)
                        + exp_in(o@, k) != 0,
                    |k| exp_in(self@, k) + exp_in(o@, k),
                ),
                factor_seq(out@) == list_mul_left(a.subrange(0, i as int), o@),
                forall|k: Seq<char>|
                    pairs_map(a.subrange(0, i as int)).dom().contains(k) ==> fits(
                        #[trigger] exp_in(self@, k) + exp_in(o@, k),
                    ),
            decreases self.factors@.len() - i,
        {
            let ghost k = self.factors@[i as int].0@;
            let ghost pre = a.subrange(0, i as int);
            proof {
                lemma_pairs_map_index(a, i as int);
                assert(a.subrange(0, i + 1).drop_last() =~= pre);
                lemma_pairs_map_dom(pre, k);
                if pairs_map(pre).dom().contains(k) {
                    let j = choose|j: int| 0 <= j < pre.len() && pre[j].0 == k;
                    assert(a[j].0 == a[i as int].0);
                }
            }
            let eo = o.exponent_of(&self.factors[i].0);
            match self.factors[i].1.checked_add(eo) {
                None => {
                    assert(!fits(exp_in(self@, k) + exp_in(o@, k)));
                    return None;
                },
                Some(e) => {
                    if e != 0 {
                        let ghost so = factor_seq(out@);
                        proof {
                            lemma_pairs_map_push(so, k, e as int);
                        }
                        out.push(UnitFactor(self.factors[i].0.clone(), e));
                        assert(factor_seq(out@) =~= so.push((k, e as int)));
                    }
                },
            }
            i = i + 1;
        }
        assert(a.subrange(0, i as int) =~= a);
        assert(b.subrange(0, 0) =~= Seq::<(Seq<char>, int)>::empty());
        assert(factor_seq(out@) =~= list_mul_left(a, o@) + list_mul_right(b.subrange(0, 0), self@));
        let mut j: usize = 0;
        while j < o.factors.len()
            invariant
                self.wf(),
                o.wf(),
                a == factor_seq(self.factors@),
                b == factor_seq(o.factors@),
                unit_map_ok(o@),
                j <= o.factors@.len(),
                distinct_names(factor_seq(out@)),
                forall|m: int| 0 <= m < out@.len() ==> #[trigger] out@[m].1 != 0,
                pairs_map(factor_seq(out@)) =~= Map::new(
                    |k|
                        (self@.dom().contains(k) || pairs_map(b.subrange(0, j as int)).dom().contains(
                            k,
                        )) && exp_in(self@, k) + exp_in(o@, k) != 0,
                    |k| exp_in(self@, k) + exp_in(o@, k),
                ),
                forall|k: Seq<char>|
                    self@.dom().contains(k) ==> fits(#[trigger] exp_in(self@, k) + exp_in(o@, k)),
                factor_seq(out@) == list_mul_left(a, o@) + list_mul_right(b.subrange(0, j as int), self@),
            decreases o.factors@.len() - j,
        {
            let ghost k = o.factors@[j as int].0@;
            let ghost pre = b.subrange(0, j as int);
            proof {
                lemma_pairs_map_index(b, j as int);
                assert(b.subrange(0, j + 1).drop_last() =~= pre);
                lemma_pairs_map_dom(pre, k);
                if pairs_map(pre).dom().contains(k) {
                    let m = choose|m: int| 0 <= m < pre.len() && pre[m].0 == k;
                    assert(b[m].0 == b[j as int].0);
                }
            }
            match self.find(&o.factors[j].0) {
                Some(_) => {},
                None => {
                    let ghost so = factor_seq(out@);
                    let e = o.factors[j].1;
                    proof {
                        lemma_pairs_map_push(so, k, e as int);
                    }
                    out.push(UnitFactor(o.factors[j].0.clone(), e));
                    assert(factor_seq(out@) =~= so.push((k, e as int)));
                    assert(factor_seq(out@) =~= list_mul_left(a, o@) + list_mul_right(
                        b.subrange(0, j + 1),
                        self@,
                    ));
                },
            }
            j = j + 1;
        }
        assert(b.subrange(0, j as int) =~= b);
        let r = Unit { factors: out };
        assert(r@ =~= unit_product(self@, o@));
        Some(r)
    }

    /// The reciprocal unit; `None` when an exponent has no `i64` negation.
    pub fn inverse(&self) -> (r: Option<Unit>)
        requires
            self.wf(),
        ensures
            r is Some <==> inverse_fits(self@),
            r is Some ==> r->0.wf() && r->0@ == unit_inverse(self@) && r->0.list() == list_inverse(
                self.list(),
            ),
    {
        let ghost a = factor_seq(self.factors@);
        let mut out: Vec<UnitFactor> = Vec::new();
        let mut i: usize = 0;
        while i < self.factors.len()
            invariant
                self.wf(),
                a == factor_seq(self.factors@),
                i <= self.factors@.len(),
                out@.len() == i,
                forall|j: int|
                    0 <= j < i ==> #[trigger] out@[j].0 == self.factors@[j].0 && out@[j].1
                        == -self.factors@[j].1,
            decreases self.factors@.len() - i,
        {
            if self.factors[i].1 == i64::MIN {
                proof {
                    lemma_pairs_map_index(a, i as int);
                }
                return None;
            }
            out.push(UnitFactor(self.factors[i].0.clone(), -self.factors[i].1));
            i = i + 1;
        }
        let ghost c = factor_seq(out@);
        proof {
            assert forall|p: int, q: int| 0 <= p < q < c.len() implies c[p].0 != c[q].0 by {
                assert(a[p].0 != a[q].0);
            }
            assert forall|k: Seq<char>| #[trigger] pairs_map(c).dom().contains(k) <==> self@.dom().contains(k) by {
                lemma_pairs_map_dom(a, k);
                lemma_pairs_map_dom(c, k);
                if pairs_map(c).dom().contains(k) {
                    let m = choose|m: int| 0 <= m < c.len() && c[m].0 == k;
                    assert(a[m].0 == k);
                }
                if self@.dom().contains(k) {
                    let m = choose|m: int| 0 <= m < a.len() && a[m].0 == k;
                    assert(c[m].0 == k);
                }
            }
            assert forall|k: Seq<char>| #[trigger] self@.dom().contains(k) implies pairs_map(c)[k] == -self@[k]
                && fits(-self@[k]) by {
                lemma_pairs_map_dom(a, k);
                let m = choose|m: int| 0 <= m < a.len() && a[m].0 == k;
                lemma_pairs_map_index(a, m);
                lemma_pairs_map_index(c, m);
            }
        }
        assert forall|j: int| 0 <= j < out@.len() implies #[trigger] out@[j].1 != 0 by {
            assert(out@[j].0 == self.factors@[j].0);
            assert(self.factors@[j].1 != 0);
        }
        let r = Unit { factors: out };
        assert(r@ =~= unit_inverse(self@));
        Some(r)
    }

    /// This unit raised to the power `e`; `None` when an exponent leaves the `i64` range.
    pub fn power(&self, e: i64) -> (r: Option<Unit>)
        requires
            self.wf(),
        ensures
            r is Some <==> power_fits(self@, e as int),
            r is Some ==> r->0.wf() && r->0@ == unit_power(self@, e as int) && r->0.list()
                == list_power(self.list(), e as int),
    {
        if e == 0 {
            let r = Unit::scalar();
            assert(r@ =~= unit_power(self@, e as int));
            return Some(r);
        }
        let ghost a = factor_seq(self.factors@);
        let mut out: Vec<UnitFactor> = Vec::new();
        let mut i: usize = 0;
        while i < self.factors.len()
            invariant
                self.wf(),
                e != 0,
                a == factor_seq(self.factors@),
                i <= self.factors@.len(),
                out@.len() == i,
                forall|j: int|
                    0 <= j < i ==> #[trigger] out@[j].0 == self.factors@[j].0 && out@[j].1
                        == self.factors@[j].1 * e,
            decreases self.factors@.len() - i,
        {
            let p = match self.factors[i].1.checked_mul(e) {
                Some(p) => p,
                None => {
                    proof {
                        lemma_pairs_map_index(a, i as int);
                    }
                    return None;
                },
            };
            out.push(UnitFactor(self.factors[i].0.clone(), p));
            assert(out@[i as int].1 == self.factors@[i as int].1 * e);
            i = i + 1;
        }
        let ghost c = factor_seq(out@);
        proof {
            assert forall|p: int, q: int| 0 <= p < q < c.len() implies c[p].0 != c[q].0 by {
                assert(a[p].0 != a[q].0);
            }
            assert forall|k: Seq<char>| #[trigger] pairs_map(c).dom().contains(k) <==> self@.dom().contains(k) by {
                lemma_pairs_map_dom(a, k);
                lemma_pairs_map_dom(c, k);
                if pairs_map(c).dom().contains(k) {
                    let m = choose|m: int| 0 <= m < c.len() && c[m].0 == k;
                    assert(a[m].0 == k);
                }
                if self@.dom().contains(k) {
                    let m = choose|m: int| 0 <= m < a.len() && a[m].0 == k;
                    assert(c[m].0 == k);
                }
            }
            assert forall|k: Seq<char>| #[trigger] self@.dom().contains(k) implies pairs_map(c)[k] == self@[k] * e
                && fits(self@[k] * e) by {
                lemma_pairs_map_dom(a, k);
                let m = choose|m: int| 0 <= m < a.len() && a[m].0 == k;
                lemma_pairs_map_index(a, m);
                lemma_pairs_map_index(c, m);
            }
        }
        assert forall|j: int| 0 <= j < out@.len() implies #[trigger] out@[j].1 != 0 by {
            assert(out@[j].0 == self.factors@[j].0);
            assert(self.factors@[j].1 != 0);
            vstd::arithmetic::mul::lemma_mul_nonzero(self.factors@[j].1 as int, e as int);
        }
        let r = Unit { factors: out };
        assert(r@ =~= unit_power(self@, e as int));
        Some(r)
    }

    /// The quotient of two units; `None` when an exponent leaves the `i64` range.
    pub fn divide(&self, o: &Unit) -> (r: Option<Unit>)
        requires
            self.wf(),
            o.wf(),
        ensures
            r is Some <==> inverse_fits(o@) && product_fits(self@, pairs_map(list_inverse(o.list()))),
            r is Some ==> r->0.wf() && r->0@ == unit_quotient(self@, o@) && r->0.list() == list_mul(
                self.list(),
                list_inverse(o.list()),
            ),
    {
        match o.inverse() {
            Some(inv) => {
                proof {
                    inv.lemma_list();
                }
                self.multiply(&inv)
            },
            None => None,
        }
    }

    /// Whether the two units have the same factors and exponents.
    pub fn equals(&self, o: &Unit) -> (r: bool)
        requires
            self.wf(),
            o.wf(),
        ensures
            r == (self@ == o@),
    {
        let r1 = self.included_in(o);
        let r2 = o.included_in(self);
        proof {
            if r1 && r2 {
                assert(self@ =~= o@);
            }
        }
        r1 && r2
    }

    fn included_in(&self, o: &Unit) -> (r: bool)
        requires
            self.wf(),
            o.wf(),
        ensures
            r == forall|k: Seq<char>|
                #[trigger] self@.dom().contains(k) ==> o@.dom().contains(k) && o@[k] == self@[k],
    {
        let ghost a = factor_seq(self.factors@);
        let mut i: usize = 0;
        while i < self.factors.len()
            invariant
                self.wf(),
                o.wf(),
                a == factor_seq(self.factors@),
                i <= self.factors@.len(),
                forall|j: int|
                    0 <= j < i ==> o@.dom().contains(#[trigger] a[j].0) && o@[a[j].0] == a[j].1,
            decreases self.factors@.len() - i,
        {
            proof {
                lemma_pairs_map_index(a, i as int);
            }
            match o.find(&self.factors[i].0) {
                Some(m) => {
                    if o.factors[m].1 != self.factors[i].1 {
                        assert(self@.dom().contains(a[i as int].0));
                        return false;
                    }
                },
                None => {
                    assert(self@.dom().contains(a[i as int].0));
                    return false;
                },
            }
            i = i + 1;
        }
        proof {
            assert forall|k: Seq<char>| #[trigger] self@.dom().contains(k) implies o@.dom().contains(k)
                && o@[k] == self@[k] by {
                lemma_pairs_map_dom(a, k);
                let m = choose|m: int| 0 <= m < a.len() && a[m].0 == k;
                lemma_pairs_map_index(a, m);
            }
        }
        true
    }

    /// The exponent of `name` in this unit (zero when absent).
    pub fn exponent_of(&self, name: &String) -> (r: i64)
        requires
            self.wf(),
        ensures
            r == exp_in(self@, name@),
    {
        match self.find(name) {
            Some(i) => self.factors[i].1,
            None => 0,
        }
    }
}

impl PartialEq for Unit {
    fn eq(&self, o: &Unit) -> (r: bool) {
        proof {
            use_type_invariant(self);
            use_type_invariant(o);
        }
        self.equals(o)
    }
}

impl vstd::std_specs::cmp::PartialEqSpecImpl for Unit {
    open spec fn obeys_eq_spec() -> bool {
        true
    }

    open spec fn eq_spec(&self, o: &Unit) -> bool {
        self@ == o@
    }
}

impl Eq for Unit {
}

proof fn lemma_pairs_map_finite(s: Seq<(Seq<char>, int)>)
    ensures
        pairs_map(s).dom().finite(),
    decreases s.len(),
{
    if s.len() > 0 {
        lemma_pairs_map_finite(s.drop_last());
    }
}

} // verus!
