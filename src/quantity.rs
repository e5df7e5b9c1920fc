//! Quantities: a rational magnitude tagged with a unit.
use vstd::prelude::*;
use crate::interpreter::InterpreterError;
use crate::model::{q_add, q_div, q_mul, q_neg, ErrorModel, QValue};
use crate::names::pairs_map;
use crate::number::Number;
use crate::unit::{Unit, UnitFactor};
use crate::unit_registry::UnitRegistry;

verus! {

/// Arithmetic between quantities whose units measure different dimensions.
#[derive(Debug, PartialEq, Eq)]
pub enum UnitError {
    /// The signatures of the left and the right operand.
    IncompatibleDimensions(Unit, Unit),
}

#[derive(Debug)]
pub struct Quantity {
    value: Number,
    unit: Unit,
}

/// The model of a quantity operation's result.
pub open spec fn qres_model(r: Result<Quantity, InterpreterError>) -> Result<QValue, ErrorModel> {
    match r {
        Ok(q) => Ok(q.model()),
        Err(e) => Err(e.model()),
    }
}

impl Quantity {
    #[verifier::type_invariant]
    pub open spec fn inv(&self) -> bool {
        self.spec_value().wf()
    }

    pub closed spec fn model(&self) -> QValue {
        QValue { value: self.value, unit: self.unit.list() }
    }

    /// The magnitude.
    pub closed spec fn spec_value(&self) -> Number {
        self.value
    }

    /// The unit.
    pub closed spec fn spec_unit(&self) -> Unit {
        self.unit
    }

    /// The model's unit is the unit's factor list, and its magnitude the magnitude.
    pub proof fn lemma_model_view(&self)
        ensures
            self.model().value == self.spec_value(),
            self.model().unit == self.spec_unit().list(),
    {
    }

    /// A dimensionless quantity.
    pub fn scalar(value: Number) -> (r: Quantity)
        requires
            value.wf(),
        ensures
            r.spec_value() == value,
            r.spec_unit()@ == Map::<Seq<char>, int>::empty(),
            r.model() == (QValue { value, unit: Seq::empty() }),
    {
        Quantity { value, unit: Unit::scalar() }
    }

    /// One of the given unit.
    pub fn unit(unit: Unit) -> (r: Quantity)
        ensures
            r.spec_value() == (Number { num: 1, den: 1 }),
            r.spec_unit() == unit,
    {
        Quantity { value: Number::from_integer(1), unit }
    }

    /// One of the unit `name^exponent`.
    pub fn from_unit_factor(name: String, exponent: i64) -> (r: Quantity)
        ensures
            r.spec_value() == (Number { num: 1, den: 1 }),
            r.spec_unit()@ == (if exponent == 0 {
                Map::<Seq<char>, int>::empty()
            } else {
                map![name@ => exponent as int]
            }),
            exponent != 0 ==> r.model() == (QValue {
                value: Number { num: 1, den: 1 },
                unit: seq![(name@, exponent as int)],
            }),
    {
        Quantity::unit(Unit::from_factor(UnitFactor(name, exponent)))
    }

    pub fn value(&self) -> (r: Number)
        ensures
            r == self.spec_value(),
            r.wf(),
    {
        proof {
            use_type_invariant(self);
        }
        self.value
    }

    pub fn get_unit(&self) -> (r: &Unit)
        ensures
            *r == self.spec_unit(),
    {
        &self.unit
    }

    pub fn duplicate(&self) -> (r: Quantity)
        ensures
            r.model() == self.model(),
            r.spec_value() == self.spec_value(),
            r.spec_unit()@ == self.spec_unit()@,
    {
        proof {
            use_type_invariant(self);
            use_type_invariant(&self.unit);
        }
        Quantity { value: self.value, unit: self.unit.duplicate() }
    }

    /// Whether the magnitudes are equal as rationals and the units are equal.
    pub fn equals(&self, o: &Quantity) -> (r: bool)
        ensures
            r == (self.spec_value().same_value(o.spec_value()) && self.spec_unit()@ == o.spec_unit()@),
            r == (self.model().value.same_value(o.model().value) && pairs_map(self.model().unit)
                == pairs_map(o.model().unit)),
    {
        proof {
            use_type_invariant(&self.unit);
            use_type_invariant(&o.unit);
            self.unit.lemma_list();
            o.unit.lemma_list();
        }
        self.value.equals(&o.value) && self.unit.equals(&o.unit)
    }

    pub fn multiply(&self, o: &Quantity) -> (r: Result<Quantity, InterpreterError>)
        ensures
            qres_model(r) == q_mul(self.model(), o.model()),
    {
        proof {
            use_type_invariant(self);
            use_type_invariant(o);
            use_type_invariant(&self.unit);
            use_type_invariant(&o.unit);
            self.unit.lemma_list();
            o.unit.lemma_list();
        }
        match self.value.mul(&o.value) {
            None => Err(InterpreterError::NumericOverflow),
            Some(v) => match self.unit.multiply(&o.unit) {
                None => Err(InterpreterError::NumericOverflow),
                Some(u) => Ok(Quantity { value: v, unit: u }),
            },
        }
    }

    pub fn divide(&self, o: &Quantity) -> (r: Result<Quantity, InterpreterError>)
        ensures
            qres_model(r) == q_div(self.model(), o.model()),
    {
        proof {
            use_type_invariant(self);
            use_type_invariant(o);
            use_type_invariant(&self.unit);
            use_type_invariant(&o.unit);
            self.unit.lemma_list();
            o.unit.lemma_list();
        }
        if o.value.is_zero() {
            return Err(InterpreterError::DivisionByZero);
        }
        match self.value.div(&o.value) {
            None => Err(InterpreterError::NumericOverflow),
            Some(v) => match self.unit.divide(&o.unit) {
                None => Err(InterpreterError::NumericOverflow),
                Some(u) => Ok(Quantity { value: v, unit: u }),
            },
        }
    }

    pub fn negate(&self) -> (r: Result<Quantity, InterpreterError>)
        ensures
            qres_model(r) == q_neg(self.model()),
    {
        proof {
            use_type_invariant(self);
            use_type_invariant(&self.unit);
        }
        match self.value.neg() {
            None => Err(InterpreterError::NumericOverflow),
            Some(v) => Ok(Quantity { value: v, unit: self.unit.duplicate() }),
        }
    }

    fn add_or_subtract(&self, o: &Quantity, registry: &UnitRegistry, minus: bool) -> (r: Result<
        Quantity,
        InterpreterError,
    >)
        requires
            registry.wf(),
        ensures
            qres_model(r) == q_add(registry.model().units, self.model(), o.model(), minus),
    {
        proof {
            use_type_invariant(self);
            use_type_invariant(o);
            use_type_invariant(&self.unit);
            use_type_invariant(&o.unit);
            self.unit.lemma_list();
            o.unit.lemma_list();
        }
        registry.check_compatible(&self.unit, &o.unit)?;
        let v = if minus {
            self.value.sub(&o.value)
        } else {
            self.value.add(&o.value)
        };
        match v {
            None => Err(InterpreterError::NumericOverflow),
            Some(v) => Ok(Quantity { value: v, unit: self.unit.duplicate() }),
        }
    }

    /// Sum; the units must have the same signature, and the left one is kept.
    pub fn add(&self, o: &Quantity, registry: &UnitRegistry) -> (r: Result<Quantity, InterpreterError>)
        requires
            registry.wf(),
        ensures
            qres_model(r) == q_add(registry.model().units, self.model(), o.model(), false),
    {
        self.add_or_subtract(o, registry, false)
    }

    /// Difference; the units must have the same signature, and the left one is kept.
    pub fn subtract(&self, o: &Quantity, registry: &UnitRegistry) -> (r: Result<
        Quantity,
        InterpreterError,
    >)
        requires
            registry.wf(),
        ensures
            qres_model(r) == q_add(registry.model().units, self.model(), o.model(), true),
    {
        self.add_or_subtract(o, registry, true)
    }
}

impl PartialEq for Quantity {
    fn eq(&self, o: &Quantity) -> (r: bool) {
        self.equals(o)
    }
}

impl vstd::std_specs::cmp::PartialEqSpecImpl for Quantity {
    open spec fn obeys_eq_spec() -> bool {
        true
    }

    open spec fn eq_spec(&self, o: &Quantity) -> bool {
        self.spec_value().same_value(o.spec_value()) && self.spec_unit()@ == o.spec_unit()@
    }
}

} // verus!
