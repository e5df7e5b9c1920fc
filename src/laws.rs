//! Properties that relate several operations, proved over the model.
use vstd::prelude::*;
use crate::ast::{DimModel, ExprModel, StmtModel};
use crate::bytecode_interpreter::{
    bytecode_step, compile_expression, compile_statement, run, BytecodeInterpreter, OpModel,
};
use crate::interpreter::{run_program, Interpreter};
use crate::model::{
    declare_dimension, declare_unit, q_add, resolve, resolve_alternatives, signature,
    ErrorModel, OutcomeModel, QValue, RegModel, StateModel,
};
use crate::names::pairs_map;
use crate::treewalk_interpreter::{eval, treewalk_step, TreewalkInterpreter};
use crate::unit::{unit_inverse, unit_product};

verus! {

/// Running the code of an expression pushes its value, or stops with the
/// error that direct evaluation reports, leaving the state as it was.
pub proof fn lemma_compile_expression(
    st: StateModel,
    e: ExprModel,
    rest: Seq<OpModel>,
    stack: Seq<QValue>,
)
    ensures
        run(st, compile_expression(e) + rest, stack) == (match eval(st, e) {
            Ok(v) => run(st, rest, stack.push(v)),
            Err(x) => (st, Err(x)),
        }),
    decreases e,
{
    match e {
        ExprModel::Scalar(n) => {
            let c = seq![OpModel::PushQuantity(n)] + rest;
            assert(c.drop_first() =~= rest);
        },
        ExprModel::Identifier(n) => {
            let c = seq![OpModel::LoadVariable(n)] + rest;
            assert(c.drop_first() =~= rest);
        },
        ExprModel::Negate(a) => {
            let tail = seq![OpModel::Negate] + rest;
            assert(compile_expression(e) + rest =~= compile_expression(*a) + tail);
            lemma_compile_expression(st, *a, tail, stack);
            assert(tail.drop_first() =~= rest);
            match eval(st, *a) {
                Ok(v) => {
                    assert(stack.push(v).drop_last() =~= stack);
                },
                Err(_) => {},
            }
        },
        ExprModel::Binary(op, a, b) => {
            let tail = seq![OpModel::Binary(op)] + rest;
            let mid = compile_expression(*b) + tail;
            assert(compile_expression(e) + rest =~= compile_expression(*a) + mid);
            lemma_compile_expression(st, *a, mid, stack);
            assert(tail.drop_first() =~= rest);
            match eval(st, *a) {
                Ok(va) => {
                    lemma_compile_expression(st, *b, tail, stack.push(va));
                    match eval(st, *b) {
                        Ok(vb) => {
                            let s2 = stack.push(va).push(vb);
                            assert(s2.drop_last() =~= stack.push(va));
                            assert(s2.drop_last().drop_last() =~= stack);
                        },
                        Err(_) => {},
                    }
                },
                Err(_) => {},
            }
        },
    }
}

/// For every statement and state, the compiled code does what direct evaluation does.
pub proof fn lemma_statement_equivalence(st: StateModel, s: StmtModel)
    ensures
        bytecode_step(st, s) == treewalk_step(st, s),
{
    let empty = Seq::<QValue>::empty();
    match s {
        StmtModel::Expression(e) => {
            let r = seq![OpModel::Return];
            assert(compile_statement(s) =~= compile_expression(e) + r);
            lemma_compile_expression(st, e, r, empty);
            assert(r[0] == OpModel::Return);
            match eval(st, e) {
                Ok(v) => {
                    assert(empty.push(v).last() == v);
                    assert(run(st, r, empty.push(v)) == (st, Ok::<OutcomeModel, ErrorModel>(
                        OutcomeModel::Quantity(v),
                    )));
                },
                Err(_) => {},
            }
        },
        StmtModel::DeclareVariable(n, e) => {
            let r = seq![OpModel::StoreVariable(n)];
            assert(compile_statement(s) =~= compile_expression(e) + r);
            lemma_compile_expression(st, e, r, empty);
            match eval(st, e) {
                Ok(v) => {
                    assert(empty.push(v).drop_last() =~= empty);
                    assert(r.drop_first() =~= Seq::<OpModel>::empty());
                    assert(r[0] == OpModel::StoreVariable(n));
                    let st1 = StateModel { env: st.env.insert(n, v), reg: st.reg };
                    assert(run(st1, Seq::empty(), empty) == (st1, Ok::<OutcomeModel, ErrorModel>(OutcomeModel::Continue)));
                    assert(bytecode_step(st, s) == treewalk_step(st, s));
                },
                Err(_) => {
                    assert(bytecode_step(st, s) == treewalk_step(st, s));
                },
            }
        },
        StmtModel::DeclareDimension(n, alts) => {
            assert(compile_statement(s).drop_first() =~= Seq::<OpModel>::empty());
            let st1 = crate::model::dimension_step(st, n, alts).0;
            assert(run(st1, Seq::empty(), empty) == (st1, Ok::<OutcomeModel, ErrorModel>(OutcomeModel::Continue)));
            assert(bytecode_step(st, s) == treewalk_step(st, s));
        },
        StmtModel::DeclareUnit(n, e) => {
            assert(compile_statement(s).drop_first() =~= Seq::<OpModel>::empty());
            let st1 = crate::model::unit_step(st, n, e).0;
            assert(run(st1, Seq::empty(), empty) == (st1, Ok::<OutcomeModel, ErrorModel>(OutcomeModel::Continue)));
            assert(bytecode_step(st, s) == treewalk_step(st, s));
        },
    }
}

/// Backend equivalence: from any state, both interpreters give every program
/// the same result, errors included, and leave the same state behind.
pub proof fn lemma_backend_equivalence(st: StateModel, program: Seq<StmtModel>)
    ensures
        run_program(<TreewalkInterpreter as Interpreter>::step(), st, program) == run_program(
            <BytecodeInterpreter as Interpreter>::step(),
            st,
            program,
        ),
    decreases program.len(),
{
    if program.len() > 0 {
        lemma_statement_equivalence(st, program[0]);
        let (st1, _) = treewalk_step(st, program[0]);
        lemma_backend_equivalence(st1, program.drop_first());
    }
}

/// An empty program fails with `NoStatements` and changes nothing, whatever
/// the interpreter.
pub proof fn lemma_empty_program<I: Interpreter>(st: StateModel)
    ensures
        run_program(I::step(), st, Seq::empty()) == (st, Err::<OutcomeModel, ErrorModel>(
            ErrorModel::NoStatements,
        )),
{
}

/// A unit times its reciprocal is dimensionless; in particular `a^1 * a^-1`.
pub proof fn lemma_unit_cancellation(u: Map<Seq<char>, int>)
    ensures
        unit_product(u, unit_inverse(u)) == Map::<Seq<char>, int>::empty(),
{
    assert(unit_product(u, unit_inverse(u)) =~= Map::<Seq<char>, int>::empty());
}

/// The product of units does not depend on the order of the operands.
pub proof fn lemma_unit_product_commutes(u: Map<Seq<char>, int>, v: Map<Seq<char>, int>)
    ensures
        unit_product(u, v) == unit_product(v, u),
{
    assert(unit_product(u, v) =~= unit_product(v, u));
}

/// Two distinct factors multiply to a two-factor unit, in either order.
pub proof fn lemma_two_factors(a: Seq<char>, b: Seq<char>)
    requires
        a != b,
    ensures
        unit_product(map![a => 1int], map![b => 1int]) == map![a => 1int, b => 1int],
        unit_product(map![b => 1int], map![a => 1int]) == map![a => 1int, b => 1int],
{
    assert(unit_product(map![a => 1int], map![b => 1int]) =~= map![a => 1int, b => 1int]);
    assert(unit_product(map![b => 1int], map![a => 1int]) =~= map![a => 1int, b => 1int]);
}

/// Adding quantities whose units have different signatures fails with the two
/// signatures; with equal signatures the magnitudes add unscaled, under the
/// left unit.
pub proof fn lemma_dimension_check(
    units: Map<Seq<char>, Seq<(Seq<char>, int)>>,
    a: QValue,
    b: QValue,
    sa: Seq<(Seq<char>, int)>,
    sb: Seq<(Seq<char>, int)>,
)
    requires
        signature(units, a.unit) == Ok::<Seq<(Seq<char>, int)>, ErrorModel>(sa),
        signature(units, b.unit) == Ok::<Seq<(Seq<char>, int)>, ErrorModel>(sb),
    ensures
        pairs_map(sa) != pairs_map(sb) ==> q_add(units, a, b, false) == Err::<QValue, ErrorModel>(
            ErrorModel::IncompatibleDimensions(sa, sb),
        ),
        pairs_map(sa) == pairs_map(sb) && a.value.spec_add(b.value) is Some ==> q_add(
            units,
            a,
            b,
            false,
        ) == Ok::<QValue, ErrorModel>(QValue { value: a.value.spec_add(b.value)->0, unit: a.unit }),
{
}

/// Resolving succeeds the same way in a registry that only adds a unit.
proof fn lemma_resolve_add_unit(reg: RegModel, n: Seq<char>, s: Seq<(Seq<char>, int)>, e: DimModel)
    requires
        !reg.units.dom().contains(n),
        resolve(reg, e) is Ok,
    ensures
        resolve(RegModel { dimensions: reg.dimensions, units: reg.units.insert(n, s) }, e) == resolve(reg, e),
    decreases e,
{
    match e {
        DimModel::Dimension(_) => {},
        DimModel::Multiply(a, b) => {
            lemma_resolve_add_unit(reg, n, s, *a);
            lemma_resolve_add_unit(reg, n, s, *b);
        },
        DimModel::Divide(a, b) => {
            lemma_resolve_add_unit(reg, n, s, *a);
            lemma_resolve_add_unit(reg, n, s, *b);
        },
    }
}

/// Resolving succeeds the same way in a registry that only adds a dimension
/// whose name no unit has.
proof fn lemma_resolve_add_dimension(
    reg: RegModel,
    n: Seq<char>,
    s: Seq<(Seq<char>, int)>,
    e: DimModel,
)
    requires
        !reg.units.dom().contains(n),
        !reg.dimensions.dom().contains(n),
        resolve(reg, e) is Ok,
    ensures
        resolve(RegModel { dimensions: reg.dimensions.insert(n, s), units: reg.units }, e) == resolve(reg, e),
    decreases e,
{
    match e {
        DimModel::Dimension(_) => {},
        DimModel::Multiply(a, b) => {
            lemma_resolve_add_dimension(reg, n, s, *a);
            lemma_resolve_add_dimension(reg, n, s, *b);
        },
        DimModel::Divide(a, b) => {
            lemma_resolve_add_dimension(reg, n, s, *a);
            lemma_resolve_add_dimension(reg, n, s, *b);
        },
    }
}

proof fn lemma_alternatives_add_dimension(
    reg: RegModel,
    n: Seq<char>,
    s: Seq<(Seq<char>, int)>,
    alts: Seq<DimModel>,
)
    requires
        !reg.units.dom().contains(n),
        !reg.dimensions.dom().contains(n),
        resolve_alternatives(reg, n, alts) is Ok,
    ensures
        resolve_alternatives(
            RegModel { dimensions: reg.dimensions.insert(n, s), units: reg.units },
            n,
            alts,
        ) == resolve_alternatives(reg, n, alts),
    decreases alts.len(),
{
    if alts.len() == 1 {
        lemma_resolve_add_dimension(reg, n, s, alts[0]);
    } else if alts.len() > 1 {
        lemma_alternatives_add_dimension(reg, n, s, alts.drop_last());
        lemma_resolve_add_dimension(reg, n, s, alts.last());
    }
}

/// Declaring a unit a second time with the same definition succeeds and
/// changes nothing; with a definition of another signature it fails.
pub proof fn lemma_unit_redeclaration(
    reg: RegModel,
    name: Seq<char>,
    e: DimModel,
    e2: DimModel,
)
    requires
        declare_unit(reg, name, e) is Ok,
    ensures
        declare_unit(declare_unit(reg, name, e)->Ok_0, name, e) == declare_unit(reg, name, e),
        ({
            let reg1 = declare_unit(reg, name, e)->Ok_0;
            resolve(reg1, e2) is Ok && pairs_map(resolve(reg1, e2)->Ok_0) != pairs_map(
                reg1.units[name],
            ) ==> declare_unit(reg1, name, e2) == Err::<RegModel, ErrorModel>(
                ErrorModel::IncompatibleUnitDefinition(name),
            )
        }),
{
    if !reg.units.dom().contains(name) {
        let s = resolve(reg, e)->Ok_0;
        lemma_resolve_add_unit(reg, name, s, e);
        let reg1 = declare_unit(reg, name, e)->Ok_0;
        assert(reg1 == RegModel { dimensions: reg.dimensions, units: reg.units.insert(name, s) });
    }
}

/// Declaring a dimension a second time with the same definition succeeds and
/// changes nothing; with alternatives of another signature it fails. (A name
/// already taken by a unit is left out: there the name's meaning changes.)
pub proof fn lemma_dimension_redeclaration(
    reg: RegModel,
    name: Seq<char>,
    alts: Seq<DimModel>,
    alts2: Seq<DimModel>,
)
    requires
        declare_dimension(reg, name, alts) is Ok,
        !reg.units.dom().contains(name),
    ensures
        declare_dimension(declare_dimension(reg, name, alts)->Ok_0, name, alts) == declare_dimension(
            reg,
            name,
            alts,
        ),
        ({
            let reg1 = declare_dimension(reg, name, alts)->Ok_0;
            resolve_alternatives(reg1, name, alts2) is Ok && pairs_map(
                resolve_alternatives(reg1, name, alts2)->Ok_0,
            ) != pairs_map(reg1.dimensions[name]) ==> declare_dimension(reg1, name, alts2) == Err::<
                RegModel,
                ErrorModel,
            >(ErrorModel::IncompatibleAlternativeDimensionExpression(name))
        }),
{
    if !reg.dimensions.dom().contains(name) {
        let s = resolve_alternatives(reg, name, alts)->Ok_0;
        lemma_alternatives_add_dimension(reg, name, s, alts);
    }
}

} // verus!
