//! The contract shared by both interpreters, and the errors they report.
use vstd::prelude::*;
use crate::ast::{stmt_models, Statement, StmtModel};
use crate::names::pairs_map;
use crate::number::Number;
use crate::parser::{parse, program_of, ParseError};
use vstd::string::StringExecFns;
use crate::model::{initial_state, ErrorModel, OutcomeModel, StateModel};
use crate::quantity::{Quantity, UnitError};
use crate::registry::RegistryError;
use crate::unit_registry::UnitRegistryError;

verus! {

#[derive(Debug, PartialEq, Eq)]
pub enum InterpreterError {
    DivisionByZero,
    UnknownVariable(String),
    NoStatements,
    RegistryError(RegistryError),
    UnitRegistryError(UnitRegistryError),
    IncompatibleAlternativeDimensionExpression(String),
    UnitError(UnitError),
    /// A magnitude or an exponent left the 64-bit range.
    NumericOverflow,
    /// The stack machine ran out of operands: an internal fault that code
    /// produced by the compiler never meets.
    StackUnderflow,
}

impl InterpreterError {
    pub open spec fn model(&self) -> ErrorModel {
        match self {
            InterpreterError::DivisionByZero => ErrorModel::DivisionByZero,
            InterpreterError::UnknownVariable(s) => ErrorModel::UnknownVariable(s@),
            InterpreterError::NoStatements => ErrorModel::NoStatements,
            InterpreterError::RegistryError(RegistryError::EntryExists(s)) => ErrorModel::EntryExists(
                s@,
            ),
            InterpreterError::UnitRegistryError(e) => match e {
                UnitRegistryError::UnknownDimension(s) => ErrorModel::UnknownDimension(s@),
                UnitRegistryError::UnknownUnit(s) => ErrorModel::UnknownUnit(s@),
                UnitRegistryError::IncompatibleUnitDefinition(s) => ErrorModel::IncompatibleUnitDefinition(
                    s@,
                ),
            },
            InterpreterError::IncompatibleAlternativeDimensionExpression(s) => ErrorModel::IncompatibleAlternativeDimensionExpression(
                s@,
            ),
            InterpreterError::UnitError(UnitError::IncompatibleDimensions(a, b)) => ErrorModel::IncompatibleDimensions(
                a.list(),
                b.list(),
            ),
            InterpreterError::NumericOverflow => ErrorModel::NumericOverflow,
            InterpreterError::StackUnderflow => ErrorModel::StackUnderflow,
        }
    }
}

#[derive(Debug, PartialEq)]
pub enum InterpreterResult {
    Quantity(Quantity),
    Continue,
    Exit,
}

impl InterpreterResult {
    pub open spec fn model(&self) -> OutcomeModel {
        match self {
            InterpreterResult::Quantity(q) => OutcomeModel::Quantity(q.model()),
            InterpreterResult::Continue => OutcomeModel::Continue,
            InterpreterResult::Exit => OutcomeModel::Exit,
        }
    }
}

pub type Result<T> = core::result::Result<T, InterpreterError>;

/// The model of a statement's result.
pub open spec fn result_model(r: Result<InterpreterResult>) -> core::result::Result<
    OutcomeModel,
    ErrorModel,
> {
    match r {
        Ok(o) => Ok(o.model()),
        Err(e) => Err(e.model()),
    }
}

/// What running a program does: statements run in order, the first error
/// stops the run, and the result is that of the last statement run. An empty
/// program fails with `NoStatements`.
pub open spec fn run_program(
    step: spec_fn(StateModel, StmtModel) -> (StateModel, core::result::Result<OutcomeModel, ErrorModel>),
    st: StateModel,
    stmts: Seq<StmtModel>,
) -> (
    StateModel,
    core::result::Result<OutcomeModel, ErrorModel>,
)
    decreases stmts.len(),
{
    if stmts.len() == 0 {
        (st, Err(ErrorModel::NoStatements))
    } else {
        let (st1, r1) = step(st, stmts[0]);
        if stmts.len() == 1 || r1 is Err {
            (st1, r1)
        } else {
            run_program(step, st1, stmts.drop_first())
        }
    }
}

/// An evaluator of statements that keeps variables and declarations between calls.
pub trait Interpreter: Sized {
    spec fn wf(&self) -> bool;

    /// The variables and declarations held.
    spec fn state(&self) -> StateModel;

    /// What one statement does to the state, and its result.
    spec fn step() -> spec_fn(StateModel, StmtModel) -> (
        StateModel,
        core::result::Result<OutcomeModel, ErrorModel>,
    );

    fn new() -> (r: Self)
        ensures
            r.wf(),
            r.state() == initial_state(),
    ;

    fn interpret_statement(&mut self, statement: &Statement) -> (r: Result<InterpreterResult>)
        requires
            old(self).wf(),
        ensures
            final(self).wf(),
            (final(self).state(), result_model(r)) == (Self::step())(old(self).state(), statement.model()),
    ;

    fn interpret_statements(&mut self, statements: &[Statement]) -> (r: Result<InterpreterResult>)
        requires
            old(self).wf(),
        ensures
            final(self).wf(),
            (final(self).state(), result_model(r)) == run_program(Self::step(), 
                old(self).state(),
                stmt_models(statements@),
            ),
    {
        if statements.len() == 0 {
            return Err(InterpreterError::NoStatements);
        }
        let ghost st0 = self.state();
        let ghost ms = stmt_models(statements@);
        assert(ms.skip(0) =~= ms);
        let mut i: usize = 0;
        loop
            invariant
                self.wf(),
                st0 == old(self).state(),
                i < statements@.len(),
                ms == stmt_models(statements@),
                run_program(Self::step(), st0, ms) == run_program(Self::step(), 
                    self.state(),
                    ms.skip(i as int),
                ),
            decreases statements@.len() - i,
        {
            let ghost rest = ms.skip(i as int);
            assert(rest[0] == statements@[i as int].model());
            assert(rest.drop_first() =~= ms.skip(i + 1));
            let ghost sti = self.state();
            let r = self.interpret_statement(&statements[i]);
            if r.is_err() || i + 1 == statements.len() {
                assert(rest.len() == 1 || result_model(r) is Err);
                assert(run_program(Self::step(), sti, rest) == (Self::step())(sti, rest[0]));
                return r;
            }
            i = i + 1;
        }
    }
}

/// Equality of error reports, where signatures compare as units.
pub open spec fn same_error(a: ErrorModel, b: ErrorModel) -> bool {
    match (a, b) {
        (ErrorModel::IncompatibleDimensions(l1, r1), ErrorModel::IncompatibleDimensions(l2, r2)) => pairs_map(l1)
            == pairs_map(l2) && pairs_map(r1) == pairs_map(r2),
        _ => a == b,
    }
}

impl InterpreterError {
    /// Whether two errors report the same thing.
    pub fn equals(&self, o: &InterpreterError) -> (r: bool)
        ensures
            r == same_error(self.model(), o.model()),
    {
        match (self, o) {
            (InterpreterError::DivisionByZero, InterpreterError::DivisionByZero) => true,
            (InterpreterError::UnknownVariable(a), InterpreterError::UnknownVariable(b)) => *a == *b,
            (InterpreterError::NoStatements, InterpreterError::NoStatements) => true,
            (
                InterpreterError::RegistryError(RegistryError::EntryExists(a)),
                InterpreterError::RegistryError(RegistryError::EntryExists(b)),
            ) => *a == *b,
            (InterpreterError::UnitRegistryError(a), InterpreterError::UnitRegistryError(b)) => match (
                a,
                b,
            ) {
                (UnitRegistryError::UnknownDimension(x), UnitRegistryError::UnknownDimension(y)) => *x == *y,
                (UnitRegistryError::UnknownUnit(x), UnitRegistryError::UnknownUnit(y)) => *x == *y,
                (
                    UnitRegistryError::IncompatibleUnitDefinition(x),
                    UnitRegistryError::IncompatibleUnitDefinition(y),
                ) => *x == *y,
                _ => false,
            },
            (
                InterpreterError::IncompatibleAlternativeDimensionExpression(a),
                InterpreterError::IncompatibleAlternativeDimensionExpression(b),
            ) => *a == *b,
            (
                InterpreterError::UnitError(UnitError::IncompatibleDimensions(l1, r1)),
                InterpreterError::UnitError(UnitError::IncompatibleDimensions(l2, r2)),
            ) => {
                proof {
                    use_type_invariant(l1);
                    use_type_invariant(r1);
                    use_type_invariant(l2);
                    use_type_invariant(r2);
                    l1.lemma_list();
                    r1.lemma_list();
                    l2.lemma_list();
                    r2.lemma_list();
                }
                l1.equals(l2) && r1.equals(r2)
            },
            (InterpreterError::NumericOverflow, InterpreterError::NumericOverflow) => true,
            (InterpreterError::StackUnderflow, InterpreterError::StackUnderflow) => true,
            _ => false,
        }
    }
}

/// What running the text `text` from a fresh state gives, when it parses.
pub open spec fn text_result(
    step: spec_fn(StateModel, StmtModel) -> (StateModel, core::result::Result<OutcomeModel, ErrorModel>),
    text: Seq<char>,
) -> Option<core::result::Result<OutcomeModel, ErrorModel>> {
    match program_of(text) {
        Some(p) => Some(run_program(step, initial_state(), p).1),
        None => None,
    }
}

/// The text parses and evaluates to `value` in the unit `unit`.
pub open spec fn evaluates_to(
    step: spec_fn(StateModel, StmtModel) -> (StateModel, core::result::Result<OutcomeModel, ErrorModel>),
    text: Seq<char>,
    value: Number,
    unit: Map<Seq<char>, int>,
) -> bool {
    text_result(step, text) matches Some(Ok(OutcomeModel::Quantity(q))) && q.value.same_value(value)
        && pairs_map(q.unit) == unit
}

/// The text parses and fails with an error that reports the same as `e`.
pub open spec fn fails_with(
    step: spec_fn(StateModel, StmtModel) -> (StateModel, core::result::Result<OutcomeModel, ErrorModel>),
    text: Seq<char>,
    e: ErrorModel,
) -> bool {
    text_result(step, text) matches Some(Err(x)) && same_error(x, e)
}

/// The scalar programs that every interpreter must get right, with their results.
pub open spec fn suite_holds(
    step: spec_fn(StateModel, StmtModel) -> (StateModel, core::result::Result<OutcomeModel, ErrorModel>),
) -> bool {
    let none = Map::<Seq<char>, int>::empty();
    &&& evaluates_to(step, "0"@, Number { num: 0, den: 1 }, none)
    &&& evaluates_to(step, "1"@, Number { num: 1, den: 1 }, none)
    &&& evaluates_to(step, "1+2"@, Number { num: 3, den: 1 }, none)
    &&& evaluates_to(step, "-1"@, Number { num: -1i64, den: 1 }, none)
    &&& evaluates_to(step, "2+3*4"@, Number { num: 14, den: 1 }, none)
    &&& evaluates_to(step, "2*3+4"@, Number { num: 10, den: 1 }, none)
    &&& evaluates_to(step, "(2+3)*4"@, Number { num: 20, den: 1 }, none)
    &&& evaluates_to(step, "(2/3)*4"@, Number { num: 8, den: 3 }, none)
    &&& evaluates_to(step, "-2 * 3"@, Number { num: -6i64, den: 1 }, none)
    &&& evaluates_to(step, "2 * -3"@, Number { num: -6i64, den: 1 }, none)
    &&& evaluates_to(step, "2 - 3 - 4"@, Number { num: -5i64, den: 1 }, none)
    &&& evaluates_to(step, "2 - -3"@, Number { num: 5, den: 1 }, none)
    &&& evaluates_to(step, "2\n3"@, Number { num: 3, den: 1 }, none)
    &&& evaluates_to(step, "let x = 2\nlet y = 3\nx + y"@, Number { num: 5, den: 1 }, none)
    &&& fails_with(step, ""@, ErrorModel::NoStatements)
    &&& fails_with(step, "1/0"@, ErrorModel::DivisionByZero)
    &&& fails_with(step, "foo"@, ErrorModel::UnknownVariable("foo"@))
}

/// Parses `input` and runs it on a fresh interpreter.
pub fn get_interpreter_result<I: Interpreter>(input: &str) -> (r: core::result::Result<
    Result<InterpreterResult>,
    ParseError,
>)
    ensures
        match text_result(I::step(), input@) {
            None => r is Err,
            Some(res) => r matches Ok(x) && result_model(x) == res,
        },
{
    let statements = parse(input)?;
    let mut interpreter = I::new();
    let res = interpreter.interpret_statements(statements.as_slice());
    Ok(res)
}

/// Whether `input` parses and evaluates to a quantity equal to `expected`.
pub fn assert_evaluates_to<I: Interpreter>(input: &str, expected: Quantity) -> (r: bool)
    ensures
        r == evaluates_to(I::step(), input@, expected.model().value, pairs_map(expected.model().unit)),
{
    let res = get_interpreter_result::<I>(input);
    match res {
        Ok(Ok(InterpreterResult::Quantity(actual))) => actual.equals(&expected),
        _ => false,
    }
}

/// Whether `input` parses and evaluates to a dimensionless `expected`.
pub fn assert_evaluates_to_scalar<I: Interpreter>(input: &str, expected: Number) -> (r: bool)
    requires
        expected.wf(),
    ensures
        r == evaluates_to(I::step(), input@, expected, Map::<Seq<char>, int>::empty()),
{
    let q = Quantity::scalar(expected);
    proof {
        q.lemma_model_view();
        assert(pairs_map(Seq::<(Seq<char>, int)>::empty()) == Map::<Seq<char>, int>::empty());
    }
    assert_evaluates_to::<I>(input, q)
}

/// Whether `input` parses and fails with an error equal to `err_expected`.
pub fn assert_interpreter_error<I: Interpreter>(input: &str, err_expected: InterpreterError) -> (r:
    bool)
    ensures
        r == fails_with(I::step(), input@, err_expected.model()),
{
    let res = get_interpreter_result::<I>(input);
    match res {
        Ok(Err(err_actual)) => err_actual.equals(&err_expected),
        _ => false,
    }
}

/// Runs the scalar programs that every interpreter must get right, and
/// reports whether all of them gave the expected result.
pub fn test_interpreter<I: Interpreter>() -> (r: bool)
    ensures
        r == suite_holds(I::step()),
{
    let mut ok = true;
    ok = ok && assert_evaluates_to_scalar::<I>("0", Number { num: 0, den: 1 });
    ok = ok && assert_evaluates_to_scalar::<I>("1", Number { num: 1, den: 1 });
    ok = ok && assert_evaluates_to_scalar::<I>("1+2", Number { num: 3, den: 1 });
    ok = ok && assert_evaluates_to_scalar::<I>("-1", Number { num: -1, den: 1 });
    ok = ok && assert_evaluates_to_scalar::<I>("2+3*4", Number { num: 14, den: 1 });
    ok = ok && assert_evaluates_to_scalar::<I>("2*3+4", Number { num: 10, den: 1 });
    ok = ok && assert_evaluates_to_scalar::<I>("(2+3)*4", Number { num: 20, den: 1 });
    ok = ok && assert_evaluates_to_scalar::<I>("(2/3)*4", Number { num: 8, den: 3 });
    ok = ok && assert_evaluates_to_scalar::<I>("-2 * 3", Number { num: -6, den: 1 });
    ok = ok && assert_evaluates_to_scalar::<I>("2 * -3", Number { num: -6, den: 1 });
    ok = ok && assert_evaluates_to_scalar::<I>("2 - 3 - 4", Number { num: -5, den: 1 });
    ok = ok && assert_evaluates_to_scalar::<I>("2 - -3", Number { num: 5, den: 1 });
    ok = ok && assert_evaluates_to_scalar::<I>("2\n3", Number { num: 3, den: 1 });
    ok = ok && assert_evaluates_to_scalar::<I>("let x = 2\nlet y = 3\nx + y", Number { num: 5, den: 1 });
    ok = ok && assert_interpreter_error::<I>("", InterpreterError::NoStatements);
    ok = ok && assert_interpreter_error::<I>("1/0", InterpreterError::DivisionByZero);
    let foo = String::from_str("foo");
    ok = ok && assert_interpreter_error::<I>("foo", InterpreterError::UnknownVariable(foo));
    ok
}

} // verus!
