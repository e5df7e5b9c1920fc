//! An interpreter that compiles each statement to stack-machine code and runs it.
use vstd::prelude::*;
use crate::ast::{
    dim_models, duplicate_all, BinaryOperator, DimModel, DimensionExpression, ExprModel, Expression,
    Statement, StmtModel,
};
use crate::interpreter::{Interpreter, InterpreterError, InterpreterResult, Result, result_model};
use crate::model::{
    apply_binary, dimension_step, initial_state, literal, lookup, q_neg, unit_step, ErrorModel,
    OutcomeModel, QValue, StateModel,
};
use crate::names::Table;
use crate::number::Number;
use crate::quantity::{qres_model, Quantity};
use crate::unit_registry::UnitRegistry;

verus! {

/// One instruction of the stack machine.
#[derive(Debug)]
pub enum Op {
    PushQuantity(Number),
    LoadVariable(String),
    /// Pops the top of the stack into a variable.
    StoreVariable(String),
    Negate,
    Add,
    Subtract,
    Multiply,
    Divide,
    DeclareDimension(String, Vec<DimensionExpression>),
    DeclareUnit(String, DimensionExpression),
    /// Ends the statement with the top of the stack as its value.
    Return,
}

/// An instruction as a mathematical value.
pub enum OpModel {
    PushQuantity(Number),
    LoadVariable(Seq<char>),
    StoreVariable(Seq<char>),
    Negate,
    Binary(BinaryOperator),
    DeclareDimension(Seq<char>, Seq<DimModel>),
    DeclareUnit(Seq<char>, DimModel),
    Return,
}

impl Op {
    pub open spec fn model(&self) -> OpModel {
        match self {
            Op::PushQuantity(n) => OpModel::PushQuantity(*n),
            Op::LoadVariable(s) => OpModel::LoadVariable(s@),
            Op::StoreVariable(s) => OpModel::StoreVariable(s@),
            Op::Negate => OpModel::Negate,
            Op::Add => OpModel::Binary(BinaryOperator::Add),
            Op::Subtract => OpModel::Binary(BinaryOperator::Sub),
            Op::Multiply => OpModel::Binary(BinaryOperator::Mul),
            Op::Divide => OpModel::Binary(BinaryOperator::Div),
            Op::DeclareDimension(s, alts) => OpModel::DeclareDimension(s@, dim_models(alts@)),
            Op::DeclareUnit(s, e) => OpModel::DeclareUnit(s@, e.model()),
            Op::Return => OpModel::Return,
        }
    }
}

pub open spec fn code_model(code: Seq<Op>) -> Seq<OpModel> {
    code.map_values(|o: Op| o.model())
}

/// Code for an expression, in post-order: operands before their operator.
pub open spec fn compile_expression(e: ExprModel) -> Seq<OpModel>
    decreases e,
{
    match e {
        ExprModel::Scalar(n) => seq![OpModel::PushQuantity(n)],
        ExprModel::Identifier(n) => seq![OpModel::LoadVariable(n)],
        ExprModel::Negate(a) => compile_expression(*a).push(OpModel::Negate),
        ExprModel::Binary(op, a, b) => (compile_expression(*a) + compile_expression(*b)).push(
            OpModel::Binary(op),
        ),
    }
}

/// Code for a statement.
pub open spec fn compile_statement(s: StmtModel) -> Seq<OpModel> {
    match s {
        StmtModel::Expression(e) => compile_expression(e).push(OpModel::Return),
        StmtModel::DeclareVariable(n, e) => compile_expression(e).push(OpModel::StoreVariable(n)),
        StmtModel::DeclareDimension(n, alts) => seq![OpModel::DeclareDimension(n, alts)],
        StmtModel::DeclareUnit(n, e) => seq![OpModel::DeclareUnit(n, e)],
    }
}

/// What running out of operands yields; compiled code never does (see
/// `lemma_compile_expression`).
pub open spec fn underflow(st: StateModel) -> (StateModel, core::result::Result<OutcomeModel, ErrorModel>) {
    (st, Err(ErrorModel::StackUnderflow))
}

/// What the stack machine does with `code`, starting from `stack`. Without a
/// `Return` the result is `Continue`.
pub open spec fn run(st: StateModel, code: Seq<OpModel>, stack: Seq<QValue>) -> (
    StateModel,
    core::result::Result<OutcomeModel, ErrorModel>,
)
    decreases code.len(),
{
    if code.len() == 0 {
        (st, Ok(OutcomeModel::Continue))
    } else {
        let rest = code.drop_first();
        match code[0] {
            OpModel::PushQuantity(n) => match literal(n) {
                Err(x) => (st, Err(x)),
                Ok(v) => run(st, rest, stack.push(v)),
            },
            OpModel::LoadVariable(n) => match lookup(st, n) {
                Err(x) => (st, Err(x)),
                Ok(v) => run(st, rest, stack.push(v)),
            },
            OpModel::StoreVariable(n) => if stack.len() == 0 {
                underflow(st)
            } else {
                run(
                    StateModel { env: st.env.insert(n, stack.last()), reg: st.reg },
                    rest,
                    stack.drop_last(),
                )
            },
            OpModel::Negate => if stack.len() == 0 {
                underflow(st)
            } else {
                match q_neg(stack.last()) {
                    Err(x) => (st, Err(x)),
                    Ok(v) => run(st, rest, stack.drop_last().push(v)),
                }
            },
            OpModel::Binary(op) => if stack.len() < 2 {
                underflow(st)
            } else {
                match apply_binary(st, op, stack.drop_last().last(), stack.last()) {
                    Err(x) => (st, Err(x)),
                    Ok(v) => run(st, rest, stack.drop_last().drop_last().push(v)),
                }
            },
            OpModel::DeclareDimension(n, alts) => {
                let (st1, r1) = dimension_step(st, n, alts);
                if r1 is Err {
                    (st1, r1)
                } else {
                    run(st1, rest, stack)
                }
            },
            OpModel::DeclareUnit(n, e) => {
                let (st1, r1) = unit_step(st, n, e);
                if r1 is Err {
                    (st1, r1)
                } else {
                    run(st1, rest, stack)
                }
            },
            OpModel::Return => if stack.len() == 0 {
                underflow(st)
            } else {
                (st, Ok(OutcomeModel::Quantity(stack.last())))
            },
        }
    }
}

/// What one statement does under compilation: its code run on an empty stack.
pub open spec fn bytecode_step(st: StateModel, s: StmtModel) -> (
    StateModel,
    core::result::Result<OutcomeModel, ErrorModel>,
) {
    run(st, compile_statement(s), Seq::empty())
}

pub open spec fn stack_model(s: Seq<Quantity>) -> Seq<QValue> {
    s.map_values(|q: Quantity| q.model())
}

/// Appends the code for `e` to `code`.
pub fn compile_expression_into(e: &Expression, code: &mut Vec<Op>)
    ensures
        code_model(final(code)@) == code_model(old(code)@) + compile_expression(e.model()),
    decreases e,
{
    let ghost c0 = code_model(code@);
    match e {
        Expression::Scalar(n) => {
            code.push(Op::PushQuantity(*n));
            assert(code_model(code@) =~= c0.push(OpModel::PushQuantity(*n)));
        },
        Expression::Identifier(n) => {
            code.push(Op::LoadVariable(n.clone()));
            assert(code_model(code@) =~= c0.push(OpModel::LoadVariable(n@)));
        },
        Expression::Negate(a) => {
            compile_expression_into(a, code);
            let ghost c1 = code_model(code@);
            code.push(Op::Negate);
            assert(code_model(code@) =~= c1.push(OpModel::Negate));
        },
        Expression::BinaryOperator(op, a, b) => {
            compile_expression_into(a, code);
            compile_expression_into(b, code);
            let ghost c2 = code_model(code@);
            let o = match op {
                BinaryOperator::Add => Op::Add,
                BinaryOperator::Sub => Op::Subtract,
                BinaryOperator::Mul => Op::Multiply,
                BinaryOperator::Div => Op::Divide,
            };
            code.push(o);
            assert(code_model(code@) =~= c2.push(OpModel::Binary(*op)));
            assert(c2 =~= c0 + compile_expression(a.model()) + compile_expression(b.model()));
        },
    }
    assert(code_model(code@) =~= c0 + compile_expression(e.model()));
}

/// The code for a statement.
pub fn compile(s: &Statement) -> (r: Vec<Op>)
    ensures
        code_model(r@) == compile_statement(s.model()),
{
    let mut code: Vec<Op> = Vec::new();
    assert(code_model(code@) =~= Seq::<OpModel>::empty());
    match s {
        Statement::Expression(e) => {
            compile_expression_into(e, &mut code);
            let ghost c = code_model(code@);
            code.push(Op::Return);
            assert(code_model(code@) =~= c.push(OpModel::Return));
        },
        Statement::DeclareVariable(n, e) => {
            compile_expression_into(e, &mut code);
            let ghost c = code_model(code@);
            code.push(Op::StoreVariable(n.clone()));
            assert(code_model(code@) =~= c.push(OpModel::StoreVariable(n@)));
        },
        Statement::DeclareDimension(n, alts) => {
            code.push(Op::DeclareDimension(n.clone(), duplicate_all(alts)));
        },
        Statement::DeclareUnit(n, e) => {
            code.push(Op::DeclareUnit(n.clone(), e.duplicate()));
        },
    }
    assert(code_model(code@) =~= compile_statement(s.model()));
    code
}

pub struct BytecodeInterpreter {
    environment: Table<Quantity>,
    registry: UnitRegistry,
}

impl BytecodeInterpreter {
    fn binary(&self, op: BinaryOperator, a: &Quantity, b: &Quantity) -> (r: core::result::Result<
        Quantity,
        InterpreterError,
    >)
        requires
            self.wf(),
        ensures
            qres_model(r) == apply_binary(self.state(), op, a.model(), b.model()),
    {
        match op {
            BinaryOperator::Add => a.add(b, &self.registry),
            BinaryOperator::Sub => a.subtract(b, &self.registry),
            BinaryOperator::Mul => a.multiply(b),
            BinaryOperator::Div => a.divide(b),
        }
    }

    /// Runs compiled code on an empty operand stack.
    pub fn execute(&mut self, code: &Vec<Op>) -> (r: Result<InterpreterResult>)
        requires
            old(self).wf(),
        ensures
            final(self).wf(),
            (final(self).state(), result_model(r)) == run(
                old(self).state(),
                code_model(code@),
                Seq::empty(),
            ),
    {
        let ghost cm = code_model(code@);
        let ghost st0 = self.state();
        let mut stack: Vec<Quantity> = Vec::new();
        assert(cm.skip(0) =~= cm);
        assert(stack_model(stack@) =~= Seq::<QValue>::empty());
        let mut i: usize = 0;
        while i < code.len()
            invariant
                self.wf(),
                i <= code@.len(),
                cm == code_model(code@),
                st0 == old(self).state(),
                run(st0, cm, Seq::empty()) == run(self.state(), cm.skip(i as int), stack_model(stack@)),
            decreases code@.len() - i,
        {
            let ghost rest = cm.skip(i as int);
            let ghost sm = stack_model(stack@);
            let ghost st = self.state();
            assert(rest[0] == code@[i as int].model());
            assert(rest.drop_first() =~= cm.skip(i + 1));
            match &code[i] {
                Op::PushQuantity(n) => match n.normalize() {
                    Some(v) => {
                        let q = Quantity::scalar(v);
                        stack.push(q);
                        assert(stack_model(stack@) =~= sm.push(q.model()));
                    },
                    None => {
                        if n.den == 0 {
                            return Err(InterpreterError::DivisionByZero);
                        } else {
                            return Err(InterpreterError::NumericOverflow);
                        }
                    },
                },
                Op::LoadVariable(n) => match self.environment.get(n) {
                    Some(q) => {
                        let q2 = q.duplicate();
                        stack.push(q2);
                        assert(stack_model(stack@) =~= sm.push(q2.model()));
                    },
                    None => {
                        return Err(InterpreterError::UnknownVariable(n.clone()));
                    },
                },
                Op::StoreVariable(n) => match stack.pop() {
                    None => {
                        return Err(InterpreterError::StackUnderflow);
                    },
                    Some(q) => {
                        assert(stack_model(stack@) =~= sm.drop_last());
                        let ghost qm = q.model();
                        self.environment.insert(n.clone(), q);
                        assert(self.state().env =~= st.env.insert(n@, qm));
                    },
                },
                Op::Negate => match stack.pop() {
                    None => {
                        return Err(InterpreterError::StackUnderflow);
                    },
                    Some(q) => {
                        assert(stack_model(stack@) =~= sm.drop_last());
                        match q.negate() {
                            Ok(v) => {
                                let ghost sm1 = stack_model(stack@);
                                stack.push(v);
                                assert(stack_model(stack@) =~= sm1.push(v.model()));
                            },
                            Err(x) => {
                                return Err(x);
                            },
                        }
                    },
                },
                Op::Add | Op::Subtract | Op::Multiply | Op::Divide => {
                    let op = match &code[i] {
                        Op::Add => BinaryOperator::Add,
                        Op::Subtract => BinaryOperator::Sub,
                        Op::Multiply => BinaryOperator::Mul,
                        _ => BinaryOperator::Div,
                    };
                    if stack.len() < 2 {
                        return Err(InterpreterError::StackUnderflow);
                    }
                    let b = stack.pop().unwrap();
                    let a = stack.pop().unwrap();
                    assert(stack_model(stack@) =~= sm.drop_last().drop_last());
                    match self.binary(op, &a, &b) {
                        Ok(v) => {
                            let ghost sm2 = stack_model(stack@);
                            stack.push(v);
                            assert(stack_model(stack@) =~= sm2.push(v.model()));
                        },
                        Err(x) => {
                            return Err(x);
                        },
                    }
                },
                Op::DeclareDimension(n, alts) => {
                    match self.registry.declare_dimension(n.clone(), alts) {
                        Ok(_) => {},
                        Err(x) => {
                            assert(self.state() =~= st);
                            return Err(x);
                        },
                    }
                },
                Op::DeclareUnit(n, e) => {
                    let existed = self.registry.has_unit(n);
                    match self.registry.declare_unit(n.clone(), e) {
                        Ok(_) => {},
                        Err(x) => {
                            assert(self.state() =~= st);
                            return Err(x);
                        },
                    }
                    if existed {
                        assert(self.state().env =~= st.env);
                    } else {
                        let q = Quantity::from_unit_factor(n.clone(), 1);
                        self.environment.insert(n.clone(), q);
                        assert(self.state().env =~= st.env.insert(n@, crate::model::unit_value(n@)));
                    }
                },
                Op::Return => match stack.pop() {
                    None => {
                        return Err(InterpreterError::StackUnderflow);
                    },
                    Some(q) => {
                        return Ok(InterpreterResult::Quantity(q));
                    },
                },
            }
            i = i + 1;
        }
        Ok(InterpreterResult::Continue)
    }
}

impl Interpreter for BytecodeInterpreter {
    closed spec fn wf(&self) -> bool {
        self.environment.wf() && self.registry.wf()
    }

    closed spec fn state(&self) -> StateModel {
        StateModel {
            env: self.environment@.map_values(|q: Quantity| q.model()),
            reg: self.registry.model(),
        }
    }

    open spec fn step() -> spec_fn(StateModel, StmtModel) -> (
        StateModel,
        core::result::Result<OutcomeModel, ErrorModel>,
    ) {
        |st: StateModel, s: StmtModel| bytecode_step(st, s)
    }

    fn new() -> (r: Self) {
        let r = BytecodeInterpreter { environment: Table::new(), registry: UnitRegistry::new() };
        assert(r.state().env =~= initial_state().env);
        assert(r.state().reg.dimensions =~= initial_state().reg.dimensions);
        assert(r.state().reg.units =~= initial_state().reg.units);
        r
    }

    fn interpret_statement(&mut self, statement: &Statement) -> (r: Result<InterpreterResult>) {
        let code = compile(statement);
        self.execute(&code)
    }
}

} // verus!
