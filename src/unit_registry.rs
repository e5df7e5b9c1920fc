//! Declared dimensions and units, and the dimension checks built on them.
use vstd::prelude::*;
use crate::ast::{dim_models, DimensionExpression};
use crate::interpreter::InterpreterError;
use crate::model::{
    compatible, declare_dimension, declare_unit, resolve, resolve_alternatives, signature,
    ErrorModel, RegModel, UnitList,
};
use crate::names::Table;
use crate::quantity::UnitError;
use crate::unit::{Unit, UnitFactor};

verus! {

#[derive(Debug, PartialEq, Eq)]
pub enum UnitRegistryError {
    /// A dimension expression names neither a dimension nor a unit.
    UnknownDimension(String),
    /// A unit name in a quantity was never declared.
    UnknownUnit(String),
    /// A unit was declared again with a different signature.
    IncompatibleUnitDefinition(String),
}

/// The model of a result that carries a signature.
pub open spec fn sig_model(r: Result<Unit, InterpreterError>) -> Result<UnitList, ErrorModel> {
    match r {
        Ok(u) => Ok(u.list()),
        Err(e) => Err(e.model()),
    }
}

/// The model of a result that carries nothing.
pub open spec fn unit_result_model(r: Result<(), InterpreterError>) -> Result<(), ErrorModel> {
    match r {
        Ok(_) => Ok(()),
        Err(e) => Err(e.model()),
    }
}

#[derive(Debug)]
pub struct UnitRegistry {
    dimensions: Table<Unit>,
    units: Table<Unit>,
}

/// Once a prefix of the factors fails, the whole signature fails the same way.
proof fn lemma_signature_err_extends(units: Map<Seq<char>, UnitList>, l: UnitList, j: int)
    requires
        0 <= j <= l.len(),
        signature(units, l.subrange(0, j)) is Err,
    ensures
        signature(units, l) == signature(units, l.subrange(0, j)),
    decreases l.len(),
{
    if j == l.len() {
        assert(l.subrange(0, j) =~= l);
    } else {
        assert(l.drop_last().subrange(0, j) =~= l.subrange(0, j));
        lemma_signature_err_extends(units, l.drop_last(), j);
    }
}

impl UnitRegistry {
    pub closed spec fn wf(&self) -> bool {
        self.dimensions.wf() && self.units.wf()
    }

    pub closed spec fn model(&self) -> RegModel {
        RegModel {
            dimensions: self.dimensions@.map_values(|u: Unit| u.list()),
            units: self.units@.map_values(|u: Unit| u.list()),
        }
    }

    /// A registry with nothing declared.
    pub fn new() -> (r: UnitRegistry)
        ensures
            r.wf(),
            r.model().dimensions == Map::<Seq<char>, UnitList>::empty(),
            r.model().units == Map::<Seq<char>, UnitList>::empty(),
    {
        let r = UnitRegistry { dimensions: Table::new(), units: Table::new() };
        assert(r.model().dimensions =~= Map::<Seq<char>, UnitList>::empty());
        assert(r.model().units =~= Map::<Seq<char>, UnitList>::empty());
        r
    }

    /// Whether a unit of this name has been declared.
    pub fn has_unit(&self, name: &String) -> (r: bool)
        requires
            self.wf(),
        ensures
            r == self.model().units.dom().contains(name@),
    {
        self.units.get(name).is_some()
    }

    /// The base-dimension signature of a unit.
    pub fn signature(&self, u: &Unit) -> (r: Result<Unit, InterpreterError>)
        requires
            self.wf(),
        ensures
            sig_model(r) == signature(self.model().units, u.list()),
    {
        let ghost units = self.model().units;
        let ghost l = u.list();
        let fs = u.factors();
        let mut acc = Unit::scalar();
        assert(l.subrange(0, 0) =~= Seq::<(Seq<char>, int)>::empty());
        let mut i: usize = 0;
        while i < fs.len()
            invariant
                self.wf(),
                units == self.model().units,
                l == u.list(),
                crate::unit::factor_seq(fs@) == l,
                i <= fs@.len(),
                acc.wf(),
                signature(units, l.subrange(0, i as int)) == Ok::<UnitList, ErrorModel>(acc.list()),
            decreases fs@.len() - i,
        {
            let ghost pre = l.subrange(0, i as int);
            assert(l.subrange(0, i + 1).drop_last() =~= pre);
            assert(l.subrange(0, i + 1).last() == l[i as int]);
            let f = &fs[i];
            match self.units.get(&f.0) {
                None => {
                    proof {
                        lemma_signature_err_extends(units, l, i + 1);
                    }
                    return Err(InterpreterError::UnitRegistryError(UnitRegistryError::UnknownUnit(f.0.clone())));
                },
                Some(sig) => {
                    proof {
                        use_type_invariant(sig);
                        sig.lemma_list();
                        acc.lemma_list();
                    }
                    match sig.power(f.1) {
                        None => {
                            proof {
                                lemma_signature_err_extends(units, l, i + 1);
                            }
                            return Err(InterpreterError::NumericOverflow);
                        },
                        Some(p) => {
                            proof {
                                p.lemma_list();
                            }
                            match acc.multiply(&p) {
                                None => {
                                    proof {
                                        lemma_signature_err_extends(units, l, i + 1);
                                    }
                                    return Err(InterpreterError::NumericOverflow);
                                },
                                Some(n) => {
                                    acc = n;
                                },
                            }
                        },
                    }
                },
            }
            i = i + 1;
        }
        assert(l.subrange(0, i as int) =~= l);
        Ok(acc)
    }

    /// Succeeds when the two units have the same signature.
    pub fn check_compatible(&self, a: &Unit, b: &Unit) -> (r: Result<(), InterpreterError>)
        requires
            self.wf(),
        ensures
            unit_result_model(r) == compatible(self.model().units, a.list(), b.list()),
    {
        let sa = self.signature(a)?;
        let sb = self.signature(b)?;
        proof {
            use_type_invariant(&sa);
            use_type_invariant(&sb);
            sa.lemma_list();
            sb.lemma_list();
        }
        if sa.equals(&sb) {
            Ok(())
        } else {
            Err(InterpreterError::UnitError(UnitError::IncompatibleDimensions(sa, sb)))
        }
    }

    /// The signature that a dimension expression denotes.
    pub fn resolve(&self, e: &DimensionExpression) -> (r: Result<Unit, InterpreterError>)
        requires
            self.wf(),
        ensures
            sig_model(r) == resolve(self.model(), e.model()),
        decreases e,
    {
        match e {
            DimensionExpression::Dimension(n) => match self.dimensions.get(n) {
                Some(s) => {
                    proof {
                        use_type_invariant(s);
                    }
                    Ok(s.duplicate())
                },
                None => match self.units.get(n) {
                    Some(s) => {
                        proof {
                            use_type_invariant(s);
                        }
                        Ok(s.duplicate())
                    },
                    None => Err(InterpreterError::UnitRegistryError(UnitRegistryError::UnknownDimension(n.clone()))),
                },
            },
            DimensionExpression::Multiply(a, b) => {
                let sa = self.resolve(a)?;
                let sb = self.resolve(b)?;
                proof {
                    use_type_invariant(&sa);
                    use_type_invariant(&sb);
                    sa.lemma_list();
                    sb.lemma_list();
                }
                match sa.multiply(&sb) {
                    Some(s) => Ok(s),
                    None => Err(InterpreterError::NumericOverflow),
                }
            },
            DimensionExpression::Divide(a, b) => {
                let sa = self.resolve(a)?;
                let sb = self.resolve(b)?;
                proof {
                    use_type_invariant(&sa);
                    use_type_invariant(&sb);
                    sa.lemma_list();
                    sb.lemma_list();
                }
                match sa.divide(&sb) {
                    Some(s) => Ok(s),
                    None => Err(InterpreterError::NumericOverflow),
                }
            },
        }
    }
    fn resolve_alternatives(&self, name: &String, alts: &Vec<DimensionExpression>) -> (r: Result<
        Unit,
        InterpreterError,
    >)
        requires
            self.wf(),
        ensures
            sig_model(r) == resolve_alternatives(self.model(), name@, dim_models(alts@)),
    {
        if alts.len() == 0 {
            let u = Unit::from_factor(UnitFactor(name.clone(), 1));
            return Ok(u);
        }
        assert(dim_models(alts@).subrange(0, 1)[0] == alts@[0].model());
        let first = match self.resolve(&alts[0]) {
            Ok(f) => f,
            Err(e) => {
                proof {
                    lemma_alternatives_err_extends(self.model(), name@, dim_models(alts@), 1);
                }
                return Err(e);
            },
        };
        proof {
            use_type_invariant(&first);
            first.lemma_list();
        }
        let mut i: usize = 1;
        while i < alts.len()
            invariant
                self.wf(),
                1 <= i <= alts@.len(),
                first.wf(),
                resolve_alternatives(self.model(), name@, dim_models(alts@).subrange(0, i as int)) == Ok::<
                    UnitList,
                    ErrorModel,
                >(first.list()),
            decreases alts@.len() - i,
        {
            let ghost ms = dim_models(alts@);
            let ghost pre = ms.subrange(0, i as int);
            assert(ms.subrange(0, i + 1).drop_last() =~= pre);
            assert(ms.subrange(0, i + 1).last() == alts@[i as int].model());
            let t = match self.resolve(&alts[i]) {
                Ok(t) => t,
                Err(e) => {
                    proof {
                        lemma_alternatives_err_extends(self.model(), name@, dim_models(alts@), i + 1);
                    }
                    return Err(e);
                },
            };
            proof {
                use_type_invariant(&t);
                t.lemma_list();
                first.lemma_list();
            }
            if !first.equals(&t) {
                proof {
                    lemma_alternatives_err_extends(self.model(), name@, dim_models(alts@), i + 1);
                }
                return Err(InterpreterError::IncompatibleAlternativeDimensionExpression(name.clone()));
            }
            i = i + 1;
        }
        assert(dim_models(alts@).subrange(0, i as int) =~= dim_models(alts@));
        Ok(first)
    }

    /// Declares a dimension: a base one when `alternatives` is empty, else a
    /// derived one whose alternative expressions must agree. Declaring it again
    /// with the same signature changes nothing.
    pub fn declare_dimension(&mut self, name: String, alternatives: &Vec<DimensionExpression>) -> (r:
        Result<(), InterpreterError>)
        requires
            old(self).wf(),
        ensures
            final(self).wf(),
            match declare_dimension(old(self).model(), name@, dim_models(alternatives@)) {
                Ok(m) => r is Ok && final(self).model() == m,
                Err(x) => r is Err && r->Err_0.model() == x && final(self).model() == old(self).model(),
            },
    {
        let sig = self.resolve_alternatives(&name, alternatives)?;
        proof {
            use_type_invariant(&sig);
            sig.lemma_list();
        }
        match self.dimensions.get(&name) {
            Some(existing) => {
                proof {
                    use_type_invariant(existing);
                    existing.lemma_list();
                }
                if existing.equals(&sig) {
                    Ok(())
                } else {
                    Err(InterpreterError::IncompatibleAlternativeDimensionExpression(name))
                }
            },
            None => {
                let ghost m = self.model();
                let ghost l = sig.list();
                self.dimensions.insert(name, sig);
                assert(self.model().dimensions =~= m.dimensions.insert(name@, l));
                Ok(())
            },
        }
    }

    /// Declares a unit measuring the dimension that `e` denotes. Declaring it
    /// again with the same signature changes nothing.
    pub fn declare_unit(&mut self, name: String, e: &DimensionExpression) -> (r: Result<
        (),
        InterpreterError,
    >)
        requires
            old(self).wf(),
        ensures
            final(self).wf(),
            match declare_unit(old(self).model(), name@, e.model()) {
                Ok(m) => r is Ok && final(self).model() == m,
                Err(x) => r is Err && r->Err_0.model() == x && final(self).model() == old(self).model(),
            },
    {
        let sig = self.resolve(e)?;
        proof {
            use_type_invariant(&sig);
            sig.lemma_list();
        }
        match self.units.get(&name) {
            Some(existing) => {
                proof {
                    use_type_invariant(existing);
                    existing.lemma_list();
                }
                if existing.equals(&sig) {
                    Ok(())
                } else {
                    Err(InterpreterError::UnitRegistryError(UnitRegistryError::IncompatibleUnitDefinition(name)))
                }
            },
            None => {
                let ghost m = self.model();
                let ghost l = sig.list();
                self.units.insert(name, sig);
                assert(self.model().units =~= m.units.insert(name@, l));
                Ok(())
            },
        }
    }
}

/// Once a prefix of the alternatives fails, the whole declaration fails the same way.
proof fn lemma_alternatives_err_extends(
    reg: RegModel,
    name: Seq<char>,
    alts: Seq<crate::ast::DimModel>,
    j: int,
)
    requires
        1 <= j <= alts.len(),
        resolve_alternatives(reg, name, alts.subrange(0, j)) is Err,
    ensures
        resolve_alternatives(reg, name, alts) == resolve_alternatives(reg, name, alts.subrange(0, j)),
    decreases alts.len(),
{
    if j == alts.len() {
        assert(alts.subrange(0, j) =~= alts);
    } else {
        assert(alts.drop_last().subrange(0, j) =~= alts.subrange(0, j));
        lemma_alternatives_err_extends(reg, name, alts.drop_last(), j);
    }
}

} // verus!
