//! An interpreter that evaluates the syntax tree directly.
use vstd::prelude::*;
use crate::ast::{BinaryOperator, ExprModel, Expression, Statement, StmtModel};
use crate::interpreter::{Interpreter, InterpreterError, InterpreterResult, Result};
use crate::model::{
    apply_binary, dimension_step, initial_state, literal, lookup, q_neg, unit_step, ErrorModel,
    OutcomeModel, QValue, StateModel,
};
use crate::names::Table;
use crate::quantity::{qres_model, Quantity};
use crate::unit_registry::UnitRegistry;

verus! {

/// The value of an expression: operands first, left before right.
pub open spec fn eval(st: StateModel, e: ExprModel) -> core::result::Result<QValue, ErrorModel>
    decreases e,
{
    match e {
        ExprModel::Scalar(n) => literal(n),
        ExprModel::Identifier(n) => lookup(st, n),
        ExprModel::Negate(a) => match eval(st, *a) {
            Err(x) => Err(x),
            Ok(v) => q_neg(v),
        },
        ExprModel::Binary(op, a, b) => match eval(st, *a) {
            Err(x) => Err(x),
            Ok(va) => match eval(st, *b) {
                Err(x) => Err(x),
                Ok(vb) => apply_binary(st, op, va, vb),
            },
        },
    }
}

/// What one statement does under direct evaluation.
pub open spec fn treewalk_step(st: StateModel, s: StmtModel) -> (
    StateModel,
    core::result::Result<OutcomeModel, ErrorModel>,
) {
    match s {
        StmtModel::Expression(e) => (
            st,
            match eval(st, e) {
                Ok(v) => Ok(OutcomeModel::Quantity(v)),
                Err(x) => Err(x),
            },
        ),
        StmtModel::DeclareVariable(n, e) => match eval(st, e) {
            Ok(v) => (StateModel { env: st.env.insert(n, v), reg: st.reg }, Ok(OutcomeModel::Continue)),
            Err(x) => (st, Err(x)),
        },
        StmtModel::DeclareDimension(n, alts) => dimension_step(st, n, alts),
        StmtModel::DeclareUnit(n, e) => unit_step(st, n, e),
    }
}

pub struct TreewalkInterpreter {
    environment: Table<Quantity>,
    registry: UnitRegistry,
}

impl TreewalkInterpreter {
    fn eval(&self, e: &Expression) -> (r: core::result::Result<Quantity, InterpreterError>)
        requires
            self.wf(),
        ensures
            qres_model(r) == eval(self.state(), e.model()),
        decreases e,
    {
        match e {
            Expression::Scalar(n) => match n.normalize() {
                Some(v) => Ok(Quantity::scalar(v)),
                None => if n.den == 0 {
                    Err(InterpreterError::DivisionByZero)
                } else {
                    Err(InterpreterError::NumericOverflow)
                },
            },
            Expression::Identifier(n) => match self.environment.get(n) {
                Some(q) => Ok(q.duplicate()),
                None => Err(InterpreterError::UnknownVariable(n.clone())),
            },
            Expression::Negate(a) => {
                let v = self.eval(a)?;
                v.negate()
            },
            Expression::BinaryOperator(op, a, b) => {
                let va = self.eval(a)?;
                let vb = self.eval(b)?;
                match op {
                    BinaryOperator::Add => va.add(&vb, &self.registry),
                    BinaryOperator::Sub => va.subtract(&vb, &self.registry),
                    BinaryOperator::Mul => va.multiply(&vb),
                    BinaryOperator::Div => va.divide(&vb),
                }
            },
        }
    }
}

impl Interpreter for TreewalkInterpreter {
    closed spec fn wf(&self) -> bool {
        self.environment.wf() && self.registry.wf()
    }

    closed spec fn state(&self) -> StateModel {
        StateModel {
            env: self.environment@.map_values(|q: Quantity| q.model()),
            reg: self.registry.model(),
        }
    }

    open spec fn step() -> spec_fn(StateModel, StmtModel) -> (
        StateModel,
        core::result::Result<OutcomeModel, ErrorModel>,
    ) {
        |st: StateModel, s: StmtModel| treewalk_step(st, s)
    }

    fn new() -> (r: Self) {
        let r = TreewalkInterpreter { environment: Table::new(), registry: UnitRegistry::new() };
        assert(r.state().env =~= initial_state().env);
        assert(r.state().reg.dimensions =~= initial_state().reg.dimensions);
        assert(r.state().reg.units =~= initial_state().reg.units);
        r
    }

    fn interpret_statement(&mut self, statement: &Statement) -> (r: Result<InterpreterResult>) {
        let ghost env0 = self.environment@;
        match statement {
            Statement::Expression(e) => match self.eval(e) {
                Ok(q) => Ok(InterpreterResult::Quantity(q)),
                Err(x) => Err(x),
            },
            Statement::DeclareVariable(n, e) => {
                let q = self.eval(e)?;
                self.environment.insert(n.clone(), q);
                assert(self.state().env =~= old(self).state().env.insert(n@, q.model()));
                Ok(InterpreterResult::Continue)
            },
            Statement::DeclareDimension(n, alts) => {
                self.registry.declare_dimension(n.clone(), alts)?;
                assert(self.state().env =~= old(self).state().env);
                Ok(InterpreterResult::Continue)
            },
            Statement::DeclareUnit(n, e) => {
                let existed = self.registry.has_unit(n);
                self.registry.declare_unit(n.clone(), e)?;
                if existed {
                    assert(self.state().env =~= old(self).state().env);
                    return Ok(InterpreterResult::Continue);
                }
                let q = Quantity::from_unit_factor(n.clone(), 1);
                self.environment.insert(n.clone(), q);
                assert(self.state().env =~= old(self).state().env.insert(
                    n@,
                    crate::model::unit_value(n@),
                ));
                Ok(InterpreterResult::Continue)
            },
        }
    }
}

} // verus!
