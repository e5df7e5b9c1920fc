use numbat::bytecode_interpreter::BytecodeInterpreter;
use numbat::interpreter::{
    assert_evaluates_to, assert_interpreter_error, get_interpreter_result, test_interpreter,
    InterpreterError, InterpreterResult,
};
use numbat::number::Number;
use numbat::quantity::Quantity;
use numbat::treewalk_interpreter::TreewalkInterpreter;
use numbat::unit::{Unit, UnitFactor};

#[test]
fn test_bytecode_interpreter() {
    assert!(test_interpreter::<BytecodeInterpreter>());
    let scalar = |input: &str, expected: f64| match get_interpreter_result::<BytecodeInterpreter>(input) {
        Ok(Ok(InterpreterResult::Quantity(q))) => {
            let v = q.value();
            assert!(q.get_unit().is_dimensionless());
            assert_eq!(v.num as f64 / v.den as f64, expected, "{}", input);
        }
        other => panic!("{}: {:?}", input, other),
    };
    scalar("0", 0.0);
    scalar("1", 1.0);
    scalar("1+2", 1.0 + 2.0);
    scalar("-1", -1.0);
    scalar("2+3*4", 2.0 + 3.0 * 4.0);
    scalar("2*3+4", 2.0 * 3.0 + 4.0);
    scalar("(2+3)*4", (2.0 + 3.0) * 4.0);
    scalar("(2/3)*4", (2.0 / 3.0) * 4.0);
    scalar("-2 * 3", -2.0 * 3.0);
    scalar("2 * -3", 2.0 * -3.0);
    scalar("2 - 3 - 4", 2.0 - 3.0 - 4.0);
    scalar("2 - -3", 2.0 - -3.0);
    scalar("2\n3", 3.0);
    scalar("let x = 2\nlet y = 3\nx + y", 2.0 + 3.0);
    assert!(assert_interpreter_error::<BytecodeInterpreter>("", InterpreterError::NoStatements));
    assert!(assert_interpreter_error::<BytecodeInterpreter>("1/0", InterpreterError::DivisionByZero));
    assert!(assert_interpreter_error::<BytecodeInterpreter>(
        "foo",
        InterpreterError::UnknownVariable("foo".into())
    ));
}

#[test]
fn test_treewalk_interpreter() {
    assert!(test_interpreter::<TreewalkInterpreter>());
    let scalar = |input: &str, expected: f64| match get_interpreter_result::<TreewalkInterpreter>(input) {
        Ok(Ok(InterpreterResult::Quantity(q))) => {
            let v = q.value();
            assert!(q.get_unit().is_dimensionless());
            assert_eq!(v.num as f64 / v.den as f64, expected, "{}", input);
        }
        other => panic!("{}: {:?}", input, other),
    };
    scalar("0", 0.0);
    scalar("1", 1.0);
    scalar("1+2", 1.0 + 2.0);
    scalar("-1", -1.0);
    scalar("2+3*4", 2.0 + 3.0 * 4.0);
    scalar("2*3+4", 2.0 * 3.0 + 4.0);
    scalar("(2+3)*4", (2.0 + 3.0) * 4.0);
    scalar("(2/3)*4", (2.0 / 3.0) * 4.0);
    scalar("-2 * 3", -2.0 * 3.0);
    scalar("2 * -3", 2.0 * -3.0);
    scalar("2 - 3 - 4", 2.0 - 3.0 - 4.0);
    scalar("2 - -3", 2.0 - -3.0);
    scalar("2\n3", 3.0);
    scalar("let x = 2\nlet y = 3\nx + y", 2.0 + 3.0);
    assert!(assert_interpreter_error::<TreewalkInterpreter>("", InterpreterError::NoStatements));
    assert!(assert_interpreter_error::<TreewalkInterpreter>("1/0", InterpreterError::DivisionByZero));
    assert!(assert_interpreter_error::<TreewalkInterpreter>(
        "foo",
        InterpreterError::UnknownVariable("foo".into())
    ));
}

#[test]
fn test_advanced_bytecode_interpreter() {
    assert!(assert_evaluates_to::<BytecodeInterpreter>(
        "dimension length\nunit meter : length\n2 * meter",
        Quantity::scalar(Number::from_integer(2))
            .multiply(&Quantity::unit(Unit::from_factor(UnitFactor("meter".into(), 1))))
            .unwrap(),
    ));
}
