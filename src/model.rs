//! The mathematical model shared by the two interpreters: values, errors and
//! the operations on them, over plain sequences and maps.
use vstd::prelude::*;
use crate::names::pairs_map;
use crate::ast::{BinaryOperator, DimModel};
use crate::number::Number;
use crate::unit::{list_inverse, list_mul, list_power, product_fits, inverse_fits, power_fits};

verus! {

/// A unit as its factors in storage order.
pub type UnitList = Seq<(Seq<char>, int)>;

/// A quantity: a rational magnitude and the factors of its unit.
pub struct QValue {
    pub value: Number,
    pub unit: UnitList,
}

/// What a failed evaluation reports.
pub enum ErrorModel {
    DivisionByZero,
    UnknownVariable(Seq<char>),
    NoStatements,
    EntryExists(Seq<char>),
    UnknownDimension(Seq<char>),
    UnknownUnit(Seq<char>),
    IncompatibleUnitDefinition(Seq<char>),
    IncompatibleAlternativeDimensionExpression(Seq<char>),
    IncompatibleDimensions(UnitList, UnitList),
    NumericOverflow,
    StackUnderflow,
}

/// What a statement produces.
pub enum OutcomeModel {
    Quantity(QValue),
    Continue,
    Exit,
}

/// Declared dimensions and units, each bound to a signature over base dimensions.
pub struct RegModel {
    pub dimensions: Map<Seq<char>, UnitList>,
    pub units: Map<Seq<char>, UnitList>,
}

/// The product of two signatures, or overflow.
pub open spec fn list_product(a: UnitList, b: UnitList) -> Result<UnitList, ErrorModel> {
    if product_fits(pairs_map(a), pairs_map(b)) {
        Ok(list_mul(a, b))
    } else {
        Err(ErrorModel::NumericOverflow)
    }
}

/// The quotient of two signatures, or overflow.
pub open spec fn list_quotient(a: UnitList, b: UnitList) -> Result<UnitList, ErrorModel> {
    if inverse_fits(pairs_map(b)) && product_fits(pairs_map(a), pairs_map(list_inverse(b))) {
        Ok(list_mul(a, list_inverse(b)))
    } else {
        Err(ErrorModel::NumericOverflow)
    }
}

/// The base-dimension signature of a unit: each factor's declared signature
/// raised to the factor's exponent, multiplied together in order.
pub open spec fn signature(units: Map<Seq<char>, UnitList>, l: UnitList) -> Result<
    UnitList,
    ErrorModel,
>
    decreases l.len(),
{
    if l.len() == 0 {
        Ok(Seq::empty())
    } else {
        match signature(units, l.drop_last()) {
            Err(e) => Err(e),
            Ok(acc) => {
                let k = l.last().0;
                let e = l.last().1;
                if !units.dom().contains(k) {
                    Err(ErrorModel::UnknownUnit(k))
                } else if !power_fits(pairs_map(units[k]), e) {
                    Err(ErrorModel::NumericOverflow)
                } else {
                    list_product(acc, list_power(units[k], e))
                }
            },
        }
    }
}

pub open spec fn q_mul(a: QValue, b: QValue) -> Result<QValue, ErrorModel> {
    match a.value.spec_mul(b.value) {
        None => Err(ErrorModel::NumericOverflow),
        Some(v) => match list_product(a.unit, b.unit) {
            Err(e) => Err(e),
            Ok(u) => Ok(QValue { value: v, unit: u }),
        },
    }
}

pub open spec fn q_div(a: QValue, b: QValue) -> Result<QValue, ErrorModel> {
    if b.value.num == 0 {
        Err(ErrorModel::DivisionByZero)
    } else {
        match a.value.spec_div(b.value) {
            None => Err(ErrorModel::NumericOverflow),
            Some(v) => match list_quotient(a.unit, b.unit) {
                Err(e) => Err(e),
                Ok(u) => Ok(QValue { value: v, unit: u }),
            },
        }
    }
}

pub open spec fn q_neg(a: QValue) -> Result<QValue, ErrorModel> {
    match a.value.spec_neg() {
        None => Err(ErrorModel::NumericOverflow),
        Some(v) => Ok(QValue { value: v, unit: a.unit }),
    }
}

/// Checks that two units have the same signature.
pub open spec fn compatible(units: Map<Seq<char>, UnitList>, a: UnitList, b: UnitList) -> Result<
    (),
    ErrorModel,
> {
    match signature(units, a) {
        Err(e) => Err(e),
        Ok(sa) => match signature(units, b) {
            Err(e) => Err(e),
            Ok(sb) => if pairs_map(sa) == pairs_map(sb) {
                Ok(())
            } else {
                Err(ErrorModel::IncompatibleDimensions(sa, sb))
            },
        },
    }
}

/// Sum (or, with `minus`, difference); the left operand's unit is kept.
pub open spec fn q_add(units: Map<Seq<char>, UnitList>, a: QValue, b: QValue, minus: bool) -> Result<
    QValue,
    ErrorModel,
> {
    match compatible(units, a.unit, b.unit) {
        Err(e) => Err(e),
        Ok(_) => {
            let v = if minus {
                a.value.spec_sub(b.value)
            } else {
                a.value.spec_add(b.value)
            };
            match v {
                None => Err(ErrorModel::NumericOverflow),
                Some(v) => Ok(QValue { value: v, unit: a.unit }),
            }
        },
    }
}

/// The signature that a dimension expression denotes: a name is looked up
/// among the dimensions first, then among the units.
pub open spec fn resolve(reg: RegModel, e: DimModel) -> Result<UnitList, ErrorModel>
    decreases e,
{
    match e {
        DimModel::Dimension(n) => if reg.dimensions.dom().contains(n) {
            Ok(reg.dimensions[n])
        } else if reg.units.dom().contains(n) {
            Ok(reg.units[n])
        } else {
            Err(ErrorModel::UnknownDimension(n))
        },
        DimModel::Multiply(a, b) => match resolve(reg, *a) {
            Err(x) => Err(x),
            Ok(sa) => match resolve(reg, *b) {
                Err(x) => Err(x),
                Ok(sb) => list_product(sa, sb),
            },
        },
        DimModel::Divide(a, b) => match resolve(reg, *a) {
            Err(x) => Err(x),
            Ok(sa) => match resolve(reg, *b) {
                Err(x) => Err(x),
                Ok(sb) => list_quotient(sa, sb),
            },
        },
    }
}

/// The signature of a dimension declared with the given alternatives: a base
/// dimension (no alternative) is its own signature; alternatives must agree.
pub open spec fn resolve_alternatives(
    reg: RegModel,
    name: Seq<char>,
    alts: Seq<DimModel>,
) -> Result<UnitList, ErrorModel>
    decreases alts.len(),
{
    if alts.len() == 0 {
        Ok(seq![(name, 1int)])
    } else if alts.len() == 1 {
        resolve(reg, alts[0])
    } else {
        match resolve_alternatives(reg, name, alts.drop_last()) {
            Err(x) => Err(x),
            Ok(s) => match resolve(reg, alts.last()) {
                Err(x) => Err(x),
                Ok(t) => if pairs_map(s) == pairs_map(t) {
                    Ok(s)
                } else {
                    Err(ErrorModel::IncompatibleAlternativeDimensionExpression(name))
                },
            },
        }
    }
}

/// The registry after `dimension name [= alternatives]`.
pub open spec fn declare_dimension(reg: RegModel, name: Seq<char>, alts: Seq<DimModel>) -> Result<
    RegModel,
    ErrorModel,
> {
    match resolve_alternatives(reg, name, alts) {
        Err(x) => Err(x),
        Ok(s) => if reg.dimensions.dom().contains(name) {
            if pairs_map(reg.dimensions[name]) == pairs_map(s) {
                Ok(reg)
            } else {
                Err(ErrorModel::IncompatibleAlternativeDimensionExpression(name))
            }
        } else {
            Ok(RegModel { dimensions: reg.dimensions.insert(name, s), units: reg.units })
        },
    }
}

/// The registry after `unit name : e`.
pub open spec fn declare_unit(reg: RegModel, name: Seq<char>, e: DimModel) -> Result<
    RegModel,
    ErrorModel,
> {
    match resolve(reg, e) {
        Err(x) => Err(x),
        Ok(s) => if reg.units.dom().contains(name) {
            if pairs_map(reg.units[name]) == pairs_map(s) {
                Ok(reg)
            } else {
                Err(ErrorModel::IncompatibleUnitDefinition(name))
            }
        } else {
            Ok(RegModel { dimensions: reg.dimensions, units: reg.units.insert(name, s) })
        },
    }
}

/// What an interpreter holds between statements: variables and declarations.
pub struct StateModel {
    pub env: Map<Seq<char>, QValue>,
    pub reg: RegModel,
}

/// The state of a fresh interpreter.
pub open spec fn initial_state() -> StateModel {
    StateModel {
        env: Map::empty(),
        reg: RegModel { dimensions: Map::empty(), units: Map::empty() },
    }
}

/// The value of a numeric literal; a zero denominator is a division by zero.
pub open spec fn literal(n: Number) -> Result<QValue, ErrorModel> {
    match n.spec_normalize() {
        Some(v) => Ok(QValue { value: v, unit: Seq::empty() }),
        None => if n.den == 0 {
            Err(ErrorModel::DivisionByZero)
        } else {
            Err(ErrorModel::NumericOverflow)
        },
    }
}

/// The value of a variable reference.
pub open spec fn lookup(st: StateModel, name: Seq<char>) -> Result<QValue, ErrorModel> {
    if st.env.dom().contains(name) {
        Ok(st.env[name])
    } else {
        Err(ErrorModel::UnknownVariable(name))
    }
}

pub open spec fn apply_binary(st: StateModel, op: BinaryOperator, a: QValue, b: QValue) -> Result<
    QValue,
    ErrorModel,
> {
    match op {
        BinaryOperator::Add => q_add(st.reg.units, a, b, false),
        BinaryOperator::Sub => q_add(st.reg.units, a, b, true),
        BinaryOperator::Mul => q_mul(a, b),
        BinaryOperator::Div => q_div(a, b),
    }
}

/// The variable that `unit name : ...` binds: one of the new unit.
pub open spec fn unit_value(name: Seq<char>) -> QValue {
    QValue { value: Number { num: 1, den: 1 }, unit: seq![(name, 1int)] }
}

/// The state and result after `dimension name ...`.
pub open spec fn dimension_step(st: StateModel, name: Seq<char>, alts: Seq<DimModel>) -> (
    StateModel,
    Result<OutcomeModel, ErrorModel>,
) {
    match declare_dimension(st.reg, name, alts) {
        Ok(reg) => (StateModel { env: st.env, reg }, Ok(OutcomeModel::Continue)),
        Err(x) => (st, Err(x)),
    }
}

/// The state and result after `unit name : e`. A new unit also binds `name`
/// to one of the unit; repeating a declaration changes nothing.
pub open spec fn unit_step(st: StateModel, name: Seq<char>, e: DimModel) -> (
    StateModel,
    Result<OutcomeModel, ErrorModel>,
) {
    match declare_unit(st.reg, name, e) {
        Ok(reg) => if st.reg.units.dom().contains(name) {
            (StateModel { env: st.env, reg }, Ok(OutcomeModel::Continue))
        } else {
            (StateModel { env: st.env.insert(name, unit_value(name)), reg }, Ok(OutcomeModel::Continue))
        },
        Err(x) => (st, Err(x)),
    }
}

} // verus!
