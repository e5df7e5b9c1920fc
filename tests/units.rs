use numbat::bytecode_interpreter::BytecodeInterpreter;
use numbat::interpreter::{
    assert_evaluates_to, get_interpreter_result, Interpreter, InterpreterError, InterpreterResult,
};
use numbat::number::Number;
use numbat::parser::parse;
use numbat::quantity::{Quantity, UnitError};
use numbat::treewalk_interpreter::TreewalkInterpreter;
use numbat::unit::{Unit, UnitFactor};
use numbat::unit_registry::{UnitRegistry, UnitRegistryError};

fn meter() -> Quantity {
    Quantity::from_unit_factor("meter".into(), 1)
}

#[test]
fn unit_construction_treewalk() {
    let expected = Quantity::scalar(Number::from_integer(2)).multiply(&meter()).unwrap();
    assert!(assert_evaluates_to::<TreewalkInterpreter>(
        "dimension length\nunit meter : length\n2 * meter",
        expected,
    ));
    let r = get_interpreter_result::<TreewalkInterpreter>("dimension length\nunit meter : length\n2 * meter");
    match r {
        Ok(Ok(InterpreterResult::Quantity(q))) => {
            assert_eq!(q.value(), Number::from_integer(2));
            assert_eq!(q.get_unit().factors(), &vec![UnitFactor("meter".into(), 1)]);
        }
        other => panic!("{:?}", other),
    }
}

#[test]
fn unit_cancels_with_its_reciprocal() {
    let a = Unit::from_factor(UnitFactor("a".into(), 1));
    let a_inv = Unit::from_factor(UnitFactor("a".into(), -1));
    let p = a.multiply(&a_inv).unwrap();
    assert!(p.is_dimensionless());
    assert_eq!(p, Unit::scalar());
}

#[test]
fn unit_product_is_order_independent() {
    let a = Unit::from_factor(UnitFactor("a".into(), 1));
    let b = Unit::from_factor(UnitFactor("b".into(), 1));
    let ab = a.multiply(&b).unwrap();
    let ba = b.multiply(&a).unwrap();
    assert_eq!(ab, ba);
    assert_eq!(ab.factors().len(), 2);
    assert_eq!(ab.exponent_of(&"a".to_string()), 1);
    assert_eq!(ab.exponent_of(&"b".to_string()), 1);
    assert_ne!(ab, a);
}

#[test]
fn unit_division_and_power() {
    let a = Unit::from_factor(UnitFactor("a".into(), 2));
    let b = Unit::from_factor(UnitFactor("b".into(), 1));
    let q = a.divide(&b).unwrap();
    assert_eq!(q.exponent_of(&"a".to_string()), 2);
    assert_eq!(q.exponent_of(&"b".to_string()), -1);
    let p = q.power(3).unwrap();
    assert_eq!(p.exponent_of(&"a".to_string()), 6);
    assert_eq!(p.exponent_of(&"b".to_string()), -3);
    assert!(q.power(0).unwrap().is_dimensionless());
    let big = Unit::from_factor(UnitFactor("a".into(), i64::MAX));
    assert!(big.multiply(&big).is_none());
    assert!(Unit::from_factor(UnitFactor("a".into(), i64::MIN)).inverse().is_none());
}

#[test]
fn adding_different_dimensions_fails() {
    for input in [
        "dimension length\ndimension time\nunit meter : length\nunit second : time\nmeter + second",
        "dimension length\ndimension time\nunit meter : length\nunit second : time\nmeter - second",
    ] {
        let t = get_interpreter_result::<TreewalkInterpreter>(input).unwrap();
        let b = get_interpreter_result::<BytecodeInterpreter>(input).unwrap();
        match &t {
            Err(InterpreterError::UnitError(UnitError::IncompatibleDimensions(l, r))) => {
                assert_eq!(l, &Unit::from_factor(UnitFactor("length".into(), 1)));
                assert_eq!(r, &Unit::from_factor(UnitFactor("time".into(), 1)));
            }
            other => panic!("{:?}", other),
        }
        assert_eq!(t, b);
    }
}

#[test]
fn adding_same_dimension_adds_unscaled() {
    let input = "dimension length\nunit meter : length\nunit foot : length\n2 * meter + 3 * foot";
    let expected = Quantity::scalar(Number::from_integer(5)).multiply(&meter()).unwrap();
    assert!(assert_evaluates_to::<TreewalkInterpreter>(input, expected.duplicate()));
    assert!(assert_evaluates_to::<BytecodeInterpreter>(input, expected));
}

#[test]
fn derived_dimensions_are_compatible() {
    let input = "dimension length\ndimension time\ndimension speed = length / time\nunit meter : length\nunit second : time\nunit knot : speed\nmeter / second + knot";
    let r = get_interpreter_result::<BytecodeInterpreter>(input).unwrap();
    assert!(matches!(r, Ok(InterpreterResult::Quantity(_))));
    assert_eq!(r, get_interpreter_result::<TreewalkInterpreter>(input).unwrap());
}

#[test]
fn redeclaring_equivalently_succeeds() {
    for input in [
        "dimension length\ndimension length\n1",
        "dimension length\nunit meter : length\nunit meter : length\nmeter",
        "dimension length\ndimension area = length * length\ndimension area = length * length = (length * length)\n1",
    ] {
        let r = get_interpreter_result::<TreewalkInterpreter>(input).unwrap();
        assert!(matches!(r, Ok(InterpreterResult::Quantity(_))), "{}: {:?}", input, r);
        assert_eq!(r, get_interpreter_result::<BytecodeInterpreter>(input).unwrap());
    }
}

#[test]
fn redeclaring_differently_fails() {
    let d = "dimension length\ndimension time\ndimension speed = length / time\ndimension speed = length * time";
    let e = InterpreterError::IncompatibleAlternativeDimensionExpression("speed".into());
    assert_eq!(get_interpreter_result::<TreewalkInterpreter>(d).unwrap(), Err(e));
    let d2 = "dimension length\ndimension time\ndimension speed = length / time = length * time";
    let e2 = InterpreterError::IncompatibleAlternativeDimensionExpression("speed".into());
    assert_eq!(get_interpreter_result::<BytecodeInterpreter>(d2).unwrap(), Err(e2));
    let u = "dimension length\ndimension time\nunit meter : length\nunit meter : time";
    let ue = InterpreterError::UnitRegistryError(UnitRegistryError::IncompatibleUnitDefinition("meter".into()));
    assert_eq!(get_interpreter_result::<BytecodeInterpreter>(u).unwrap(), Err(ue));
}

#[test]
fn unknown_dimension_in_declaration() {
    let r = get_interpreter_result::<TreewalkInterpreter>("unit meter : length").unwrap();
    assert_eq!(
        r,
        Err(InterpreterError::UnitRegistryError(UnitRegistryError::UnknownDimension("length".into())))
    );
}

#[test]
fn undeclared_unit_fails_only_when_compared() {
    let registry = UnitRegistry::new();
    let a = Quantity::from_unit_factor("meter".into(), 1);
    let b = Quantity::from_unit_factor("meter".into(), 1);
    assert!(a.multiply(&b).is_ok());
    assert_eq!(
        a.add(&b, &registry).unwrap_err(),
        InterpreterError::UnitRegistryError(UnitRegistryError::UnknownUnit("meter".into()))
    );
}

#[test]
fn division_by_zero_quantity() {
    let a = Quantity::from_unit_factor("meter".into(), 1);
    let z = Quantity::scalar(Number::from_integer(0));
    assert_eq!(a.divide(&z).unwrap_err(), InterpreterError::DivisionByZero);
    let r = get_interpreter_result::<TreewalkInterpreter>("dimension length\nunit meter : length\nmeter / (0 * meter)");
    assert_eq!(r.unwrap(), Err(InterpreterError::DivisionByZero));
}

#[test]
fn overflow_is_reported() {
    let input = "9223372036854775807 * 2";
    assert_eq!(
        get_interpreter_result::<TreewalkInterpreter>(input).unwrap(),
        Err(InterpreterError::NumericOverflow)
    );
    assert_eq!(
        get_interpreter_result::<BytecodeInterpreter>(input).unwrap(),
        Err(InterpreterError::NumericOverflow)
    );
}

#[test]
fn first_error_stops_the_program() {
    let input = "let x = 1\nfoo\nbar";
    let e = InterpreterError::UnknownVariable("foo".into());
    assert_eq!(get_interpreter_result::<TreewalkInterpreter>(input).unwrap(), Err(e));
    let e2 = InterpreterError::UnknownVariable("foo".into());
    assert_eq!(get_interpreter_result::<BytecodeInterpreter>(input).unwrap(), Err(e2));
}

#[test]
fn both_backends_agree() {
    for input in [
        "1.5 * 4",
        "let x = 2\nlet x = x * x\nx - 1",
        "dimension length\nunit meter : length\nlet d = 3 * meter\nd / meter",
        "-(2 - 5) / 4",
        "1 / (2 - 2)",
        "dimension mass\nunit gram : mass\ngram + 1",
        "unit x : y",
        "dimension length\n",
    ] {
        let t = get_interpreter_result::<TreewalkInterpreter>(input).unwrap();
        let b = get_interpreter_result::<BytecodeInterpreter>(input).unwrap();
        assert_eq!(t, b, "{}", input);
    }
}

#[test]
fn interpreter_state_persists_across_calls() {
    let mut i = TreewalkInterpreter::new();
    let s1 = parse("let x = 7").unwrap();
    let s2 = parse("x * 2").unwrap();
    assert_eq!(i.interpret_statements(&s1), Ok(InterpreterResult::Continue));
    let r = i.interpret_statements(&s2).unwrap();
    assert_eq!(r, InterpreterResult::Quantity(Quantity::scalar(Number::from_integer(14))));
    let mut b = BytecodeInterpreter::new();
    assert_eq!(b.interpret_statement(&s1[0]), Ok(InterpreterResult::Continue));
    assert_eq!(
        b.interpret_statement(&s2[0]),
        Ok(InterpreterResult::Quantity(Quantity::scalar(Number::from_integer(14))))
    );
}

#[test]
fn numbers_compare_as_rationals() {
    assert_eq!(Number::ratio(1, 2).unwrap(), Number::ratio(2, 4).unwrap());
    assert!(Number::ratio(1, 0).is_none());
    let s = Number::ratio(1, 2).unwrap().add(&Number::ratio(1, 3).unwrap()).unwrap();
    assert_eq!(s, Number::ratio(5, 6).unwrap());
    assert_eq!(Number::from_integer(i64::MIN).neg(), None);
}

#[test]
fn parse_errors() {
    assert!(parse("1 +").is_err());
    assert!(parse("(1").is_err());
    assert!(parse("1 2").is_err());
    assert_eq!(parse("").unwrap().len(), 0);
    assert_eq!(parse("\n\n1\n\n2\n").unwrap().len(), 2);
}

#[test]
fn repeated_unit_declaration_keeps_bindings() {
    let input = "dimension length\nunit meter : length\nlet meter = 5\nunit meter : length\nmeter";
    let expected = Quantity::scalar(Number::from_integer(5));
    assert!(assert_evaluates_to::<TreewalkInterpreter>(input, expected.duplicate()));
    assert!(assert_evaluates_to::<BytecodeInterpreter>(input, expected));
}

#[test]
fn more_programs_on_both_backends() {
    let prefix = "dimension length\nunit meter : length\n";
    let cancel = format!("{}meter * (1 / meter)", prefix);
    let neg = format!("{}-(2 * meter)", prefix);
    let minus_two = Quantity::scalar(Number::from_integer(-2)).multiply(&meter()).unwrap();
    let one = Quantity::scalar(Number::from_integer(1));
    assert!(assert_evaluates_to::<TreewalkInterpreter>(&cancel, one.duplicate()));
    assert!(assert_evaluates_to::<BytecodeInterpreter>(&cancel, one));
    assert!(assert_evaluates_to::<TreewalkInterpreter>(&neg, minus_two.duplicate()));
    assert!(assert_evaluates_to::<BytecodeInterpreter>(&neg, minus_two));
    let e = get_interpreter_result::<BytecodeInterpreter>("let x = 1\nx + y").unwrap();
    assert_eq!(e, Err(InterpreterError::UnknownVariable("y".into())));
    assert_eq!(
        get_interpreter_result::<TreewalkInterpreter>("dimension length\ndimension length").unwrap(),
        Ok(InterpreterResult::Continue)
    );
}
