//! A parser from source text to statements.
//!
//! Statements are separated by newlines. Expressions use `+ - * /` with the
//! usual precedence, left associativity, unary minus and parentheses.
use vstd::prelude::*;
use vstd::string::StrSliceExecFns;
use crate::ast::{
    stmt_models, BinaryOperator, DimModel, DimensionExpression, ExprModel, Expression, Statement,
    StmtModel,
};
use crate::number::fits;
use crate::number::Number;

verus! {

/// Where the text stopped making sense, as a character index.
#[derive(Debug, PartialEq, Eq)]
pub struct ParseError {
    pub position: usize,
}

pub open spec fn is_space(c: char) -> bool {
    c == ' ' || c == '\t' || c == '\r'
}

pub open spec fn is_digit(c: char) -> bool {
    '0' <= c <= '9'
}

pub open spec fn is_ident_start(c: char) -> bool {
    ('a' <= c <= 'z') || ('A' <= c <= 'Z') || c == '_'
}

pub open spec fn is_ident_char(c: char) -> bool {
    is_ident_start(c) || is_digit(c)
}

/// The first position at or after `p` that is not a space.
pub open spec fn skip_sp(cs: Seq<char>, p: int) -> int
    decreases cs.len() - p,
{
    if 0 <= p < cs.len() && is_space(cs[p]) {
        skip_sp(cs, p + 1)
    } else {
        p
    }
}

/// The end of the run of identifier characters that starts at `p`.
pub open spec fn ident_end(cs: Seq<char>, p: int) -> int
    decreases cs.len() - p,
{
    if 0 <= p < cs.len() && is_ident_char(cs[p]) {
        ident_end(cs, p + 1)
    } else {
        p
    }
}

/// An identifier at `p`: a letter or `_`, then letters, digits and `_`.
pub open spec fn identifier_spec(cs: Seq<char>, p: int) -> Option<(Seq<char>, int)> {
    if 0 <= p < cs.len() && is_ident_start(cs[p]) {
        Some((cs.subrange(p, ident_end(cs, p + 1)), ident_end(cs, p + 1)))
    } else {
        None
    }
}

pub open spec fn digit_of(c: char) -> int {
    (c as u32) as int - ('0' as u32) as int
}

/// Reads a decimal literal from `p` on, with the digits read so far as
/// `num / den`; fails when a component leaves the `i64` range.
pub open spec fn number_scan(cs: Seq<char>, p: int, num: int, den: int, seen: bool, digits: int) -> Option<
    (Number, int),
>
    decreases cs.len() - p,
{
    if 0 <= p < cs.len() && ((cs[p] == '.' && !seen) || is_digit(cs[p])) {
        if cs[p] == '.' {
            number_scan(cs, p + 1, num, den, true, digits)
        } else {
            let n2 = num * 10 + digit_of(cs[p]);
            let d2 = if seen {
                den * 10
            } else {
                den
            };
            if !fits(num * 10) || !fits(n2) || !fits(d2) {
                None
            } else {
                number_scan(cs, p + 1, n2, d2, seen, digits + 1)
            }
        }
    } else if digits == 0 {
        None
    } else {
        Some((Number { num: num as i64, den: den as i64 }, p))
    }
}

/// A decimal literal at `p`: digits, optionally a point and more digits.
pub open spec fn number_spec(cs: Seq<char>, p: int) -> Option<(Number, int)> {
    number_scan(cs, p, 0, 1, false, 0)
}

/// `factor := '-' factor | '(' expression ')' | number | identifier`
pub open spec fn factor_spec(cs: Seq<char>, pos: int) -> Option<(ExprModel, int)>
    decreases cs.len() - pos, 0int,
{
    let p = skip_sp(cs, pos);
    if pos < 0 || pos > cs.len() || p < pos || p >= cs.len() {
        None
    } else if cs[p] == '-' {
        match factor_spec(cs, p + 1) {
            Some((e, q)) => Some((ExprModel::Negate(Box::new(e)), q)),
            None => None,
        }
    } else if cs[p] == '(' {
        match expr_spec(cs, p + 1) {
            Some((e, q)) => {
                let q2 = skip_sp(cs, q);
                if 0 <= q2 < cs.len() && cs[q2] == ')' {
                    Some((e, q2 + 1))
                } else {
                    None
                }
            },
            None => None,
        }
    } else if is_digit(cs[p]) {
        match number_spec(cs, p) {
            Some((n, q)) => Some((ExprModel::Scalar(n), q)),
            None => None,
        }
    } else {
        match identifier_spec(cs, p) {
            Some((n, q)) => Some((ExprModel::Identifier(n), q)),
            None => None,
        }
    }
}

/// `term := factor (('*' | '/') factor)*`, grouping to the left.
pub open spec fn term_spec(cs: Seq<char>, pos: int) -> Option<(ExprModel, int)>
    decreases cs.len() - pos, 1int,
{
    if pos < 0 || pos > cs.len() {
        None
    } else {
        match factor_spec(cs, pos) {
            None => None,
            Some((l, p)) => if p <= pos || p > cs.len() {
                None
            } else {
                term_rest(cs, l, p)
            },
        }
    }
}

pub open spec fn term_rest(cs: Seq<char>, l: ExprModel, p: int) -> Option<(ExprModel, int)>
    decreases cs.len() - p, 1int,
{
    let q = skip_sp(cs, p);
    if p < 0 || p > cs.len() || q < p {
        None
    } else if !(0 <= q < cs.len() && (cs[q] == '*' || cs[q] == '/')) {
        Some((l, p))
    } else {
        let op = if cs[q] == '*' {
            BinaryOperator::Mul
        } else {
            BinaryOperator::Div
        };
        match factor_spec(cs, q + 1) {
            None => None,
            Some((rhs, r)) => if r <= p || r > cs.len() {
                None
            } else {
                term_rest(cs, ExprModel::Binary(op, Box::new(l), Box::new(rhs)), r)
            },
        }
    }
}

/// `expression := term (('+' | '-') term)*`, grouping to the left.
pub open spec fn expr_spec(cs: Seq<char>, pos: int) -> Option<(ExprModel, int)>
    decreases cs.len() - pos, 2int,
{
    if pos < 0 || pos > cs.len() {
        None
    } else {
        match term_spec(cs, pos) {
            None => None,
            Some((l, p)) => if p <= pos || p > cs.len() {
                None
            } else {
                expr_rest(cs, l, p)
            },
        }
    }
}

pub open spec fn expr_rest(cs: Seq<char>, l: ExprModel, p: int) -> Option<(ExprModel, int)>
    decreases cs.len() - p, 2int,
{
    let q = skip_sp(cs, p);
    if p < 0 || p > cs.len() || q < p {
        None
    } else if !(0 <= q < cs.len() && (cs[q] == '+' || cs[q] == '-')) {
        Some((l, p))
    } else {
        let op = if cs[q] == '+' {
            BinaryOperator::Add
        } else {
            BinaryOperator::Sub
        };
        match term_spec(cs, q + 1) {
            None => None,
            Some((rhs, r)) => if r <= p || r > cs.len() {
                None
            } else {
                expr_rest(cs, ExprModel::Binary(op, Box::new(l), Box::new(rhs)), r)
            },
        }
    }
}

/// `dimension-factor := '(' dimension-expression ')' | identifier`
pub open spec fn dim_factor_spec(cs: Seq<char>, pos: int) -> Option<(DimModel, int)>
    decreases cs.len() - pos, 0int,
{
    let p = skip_sp(cs, pos);
    if pos < 0 || pos > cs.len() || p < pos {
        None
    } else if 0 <= p < cs.len() && cs[p] == '(' {
        match dim_expr_spec(cs, p + 1) {
            Some((e, q)) => {
                let q2 = skip_sp(cs, q);
                if 0 <= q2 < cs.len() && cs[q2] == ')' {
                    Some((e, q2 + 1))
                } else {
                    None
                }
            },
            None => None,
        }
    } else {
        match identifier_spec(cs, p) {
            Some((n, q)) => Some((DimModel::Dimension(n), q)),
            None => None,
        }
    }
}

/// `dimension-expression := dimension-factor (('*' | '/') dimension-factor)*`
pub open spec fn dim_expr_spec(cs: Seq<char>, pos: int) -> Option<(DimModel, int)>
    decreases cs.len() - pos, 1int,
{
    if pos < 0 || pos > cs.len() {
        None
    } else {
        match dim_factor_spec(cs, pos) {
            None => None,
            Some((l, p)) => if p <= pos || p > cs.len() {
                None
            } else {
                dim_rest(cs, l, p)
            },
        }
    }
}

pub open spec fn dim_rest(cs: Seq<char>, l: DimModel, p: int) -> Option<(DimModel, int)>
    decreases cs.len() - p, 1int,
{
    let q = skip_sp(cs, p);
    if p < 0 || p > cs.len() || q < p {
        None
    } else if !(0 <= q < cs.len() && (cs[q] == '*' || cs[q] == '/')) {
        Some((l, p))
    } else {
        match dim_factor_spec(cs, q + 1) {
            None => None,
            Some((rhs, r)) => if r <= p || r > cs.len() {
                None
            } else if cs[q] == '*' {
                dim_rest(cs, DimModel::Multiply(Box::new(l), Box::new(rhs)), r)
            } else {
                dim_rest(cs, DimModel::Divide(Box::new(l), Box::new(rhs)), r)
            },
        }
    }
}

/// The position after the word `kw` at `pos`, when a space or tab follows it.
pub open spec fn keyword_spec(cs: Seq<char>, pos: int, kw: Seq<char>) -> Option<int> {
    let n = kw.len() as int;
    if n == 0 || pos < 0 || n >= cs.len() - pos {
        None
    } else if cs.subrange(pos, pos + n) == kw && (cs[pos + n] == ' ' || cs[pos + n] == '\t') {
        Some(pos + n)
    } else {
        None
    }
}

/// The position after the character `c`, spaces before it skipped.
pub open spec fn expect_spec(cs: Seq<char>, p: int, c: char) -> Option<int> {
    let q = skip_sp(cs, p);
    if 0 <= q < cs.len() && cs[q] == c {
        Some(q + 1)
    } else {
        None
    }
}

/// Further `= dimension-expression` alternatives of a dimension declaration.
pub open spec fn alts_rest(cs: Seq<char>, acc: Seq<DimModel>, p: int) -> Option<(Seq<DimModel>, int)>
    decreases cs.len() - p,
{
    let q = skip_sp(cs, p);
    if p < 0 || p > cs.len() || q < p {
        None
    } else if !(0 <= q < cs.len() && cs[q] == '=') {
        Some((acc, p))
    } else {
        match dim_expr_spec(cs, q + 1) {
            None => None,
            Some((e, r)) => if r <= p || r > cs.len() {
                None
            } else {
                alts_rest(cs, acc.push(e), r)
            },
        }
    }
}

pub open spec fn kw_let() -> Seq<char> {
    seq!['l', 'e', 't']
}

pub open spec fn kw_dimension() -> Seq<char> {
    seq!['d', 'i', 'm', 'e', 'n', 's', 'i', 'o', 'n']
}

pub open spec fn kw_unit() -> Seq<char> {
    seq!['u', 'n', 'i', 't']
}

/// `let x = e`, `dimension d (= e)*`, `unit u : e`, or an expression.
pub open spec fn stmt_spec(cs: Seq<char>, pos: int) -> Option<(StmtModel, int)> {
    match keyword_spec(cs, pos, kw_let()) {
        Some(k) => match identifier_spec(cs, skip_sp(cs, k)) {
            None => None,
            Some((name, p)) => match expect_spec(cs, p, '=') {
                None => None,
                Some(p2) => match expr_spec(cs, p2) {
                    None => None,
                    Some((e, p3)) => Some((StmtModel::DeclareVariable(name, e), p3)),
                },
            },
        },
        None => match keyword_spec(cs, pos, kw_dimension()) {
            Some(k) => match identifier_spec(cs, skip_sp(cs, k)) {
                None => None,
                Some((name, p)) => match alts_rest(cs, Seq::empty(), p) {
                    None => None,
                    Some((alts, p2)) => Some((StmtModel::DeclareDimension(name, alts), p2)),
                },
            },
            None => match keyword_spec(cs, pos, kw_unit()) {
                Some(k) => match identifier_spec(cs, skip_sp(cs, k)) {
                    None => None,
                    Some((name, p)) => match expect_spec(cs, p, ':') {
                        None => None,
                        Some(p2) => match dim_expr_spec(cs, p2) {
                            None => None,
                            Some((e, p3)) => Some((StmtModel::DeclareUnit(name, e), p3)),
                        },
                    },
                },
                None => match expr_spec(cs, pos) {
                    None => None,
                    Some((e, p)) => Some((StmtModel::Expression(e), p)),
                },
            },
        },
    }
}

/// The first position at or after `q` that is neither a space nor a line break.
pub open spec fn skip_blank(cs: Seq<char>, q: int) -> int
    decreases cs.len() - q,
{
    if 0 <= q < cs.len() && cs[q] == '\n' && q < skip_sp(cs, q + 1) <= cs.len() {
        skip_blank(cs, skip_sp(cs, q + 1))
    } else {
        q
    }
}

/// The statements from `p` on, after those in `acc`; each statement ends at a
/// line break or at the end of the text.
pub open spec fn program_rest(cs: Seq<char>, acc: Seq<StmtModel>, p: int) -> Option<Seq<StmtModel>>
    decreases cs.len() - p,
{
    let q = skip_blank(cs, skip_sp(cs, p));
    if p < 0 || p > cs.len() {
        None
    } else if q >= cs.len() {
        Some(acc)
    } else {
        match stmt_spec(cs, q) {
            None => None,
            Some((s, r)) => {
                let r2 = skip_sp(cs, r);
                if r2 <= p || r2 > cs.len() || (r2 < cs.len() && cs[r2] != '\n') {
                    None
                } else {
                    program_rest(cs, acc.push(s), r2)
                }
            },
        }
    }
}

/// The program that a text denotes, if it is well formed.
pub open spec fn program_of(s: Seq<char>) -> Option<Seq<StmtModel>> {
    if s.len() >= usize::MAX {
        None
    } else {
        program_rest(s, Seq::empty(), 0)
    }
}

struct Source<'a> {
    text: &'a str,
    chars: Vec<char>,
}

type Parsed<T> = Result<(T, usize), ParseError>;

impl<'a> Source<'a> {
    spec fn wf(&self) -> bool {
        self.chars@ == self.text@ && self.chars@.len() < usize::MAX
    }

    fn new(text: &'a str) -> (r: Option<Source<'a>>)
        ensures
            r matches Some(s) ==> s.wf() && s.text == text,
            text@.len() < usize::MAX ==> r is Some,
    {
        let n = text.unicode_len();
        if n == usize::MAX {
            return None;
        }
        let mut chars: Vec<char> = Vec::new();
        let mut i: usize = 0;
        while i < n
            invariant
                n == text@.len(),
                i <= n,
                chars@ == text@.subrange(0, i as int),
            decreases n - i,
        {
            chars.push(text.get_char(i));
            assert(chars@ =~= text@.subrange(0, i + 1));
            i = i + 1;
        }
        assert(text@.subrange(0, n as int) =~= text@);
        Some(Source { text, chars })
    }

    fn len(&self) -> (r: usize)
        requires
            self.wf(),
        ensures
            r == self.chars@.len(),
    {
        self.chars.len()
    }

    fn at(&self, pos: usize, c: char) -> (r: bool)
        ensures
            r == (pos < self.chars@.len() && self.chars@[pos as int] == c),
    {
        pos < self.chars.len() && self.chars[pos] == c
    }

    /// The first position at or after `pos` that is not a space.
    fn skip_spaces(&self, pos: usize) -> (r: usize)
        requires
            self.wf(),
            pos <= self.chars@.len(),
        ensures
            pos <= r <= self.chars@.len(),
            r == skip_sp(self.chars@, pos as int),
    {
        let mut p = pos;
        while p < self.chars.len() && (self.chars[p] == ' ' || self.chars[p] == '\t' || self.chars[p]
            == '\r')
            invariant
                self.wf(),
                pos <= p <= self.chars@.len(),
                skip_sp(self.chars@, pos as int) == skip_sp(self.chars@, p as int),
            decreases self.chars@.len() - p,
        {
            p = p + 1;
        }
        p
    }

    fn identifier(&self, pos: usize) -> (r: Parsed<String>)
        requires
            self.wf(),
            pos <= self.chars@.len(),
        ensures
            r is Ok ==> pos < r->Ok_0.1 <= self.chars@.len(),
            r is Err ==> identifier_spec(self.chars@, pos as int) is None,
            r matches Ok((name, q)) ==> identifier_spec(self.chars@, pos as int) == Some(
                (name@, q as int),
            ),
    {
        let c = if pos < self.chars.len() { self.chars[pos] } else { ' ' };
        if !(('a' <= c && c <= 'z') || ('A' <= c && c <= 'Z') || c == '_') {
            return Err(ParseError { position: pos });
        }
        let mut p = pos + 1;
        while p < self.chars.len() && (('a' <= self.chars[p] && self.chars[p] <= 'z') || ('A'
            <= self.chars[p] && self.chars[p] <= 'Z') || self.chars[p] == '_' || ('0'
            <= self.chars[p] && self.chars[p] <= '9'))
            invariant
                self.wf(),
                pos < p <= self.chars@.len(),
                ident_end(self.chars@, pos + 1) == ident_end(self.chars@, p as int),
            decreases self.chars@.len() - p,
        {
            p = p + 1;
        }
        let name = self.text.substring_char(pos, p).to_owned();
        Ok((name, p))
    }

    /// A decimal literal: digits, optionally a point and more digits.
    fn number(&self, pos: usize) -> (r: Parsed<Number>)
        requires
            self.wf(),
            pos <= self.chars@.len(),
        ensures
            r is Ok ==> pos < r->Ok_0.1 <= self.chars@.len() && r->Ok_0.0.wf(),
            r is Err ==> number_spec(self.chars@, pos as int) is None,
            r matches Ok((n, q)) ==> number_spec(self.chars@, pos as int) == Some((n, q as int)),
    {
        let mut num: i64 = 0;
        let mut den: i64 = 1;
        let mut p = pos;
        let mut seen_point = false;
        let mut digits: usize = 0;
        while p < self.chars.len() && ((self.chars[p] == '.' && !seen_point) || ('0' <= self.chars[p]
            && self.chars[p] <= '9'))
            invariant
                self.wf(),
                pos <= p <= self.chars@.len(),
                den >= 1,
                digits <= p - pos,
                p > pos ==> digits > 0 || seen_point,
                number_spec(self.chars@, pos as int) == number_scan(
                    self.chars@,
                    p as int,
                    num as int,
                    den as int,
                    seen_point,
                    digits as int,
                ),
            decreases self.chars@.len() - p,
        {
            let c = self.chars[p];
            if c == '.' {
                seen_point = true;
            } else {
                let d = (c as u32 - '0' as u32) as i64;
                assert(d == digit_of(c));
                num = match num.checked_mul(10) {
                    Some(m) => match m.checked_add(d) {
                        Some(v) => v,
                        None => return Err(ParseError { position: p }),
                    },
                    None => return Err(ParseError { position: p }),
                };
                if seen_point {
                    den = match den.checked_mul(10) {
                        Some(v) => v,
                        None => return Err(ParseError { position: p }),
                    };
                }
                digits = digits + 1;
            }
            p = p + 1;
        }
        if digits == 0 {
            return Err(ParseError { position: pos });
        }
        Ok((Number { num, den }, p))
    }

    /// factor := '-' factor | '(' expression ')' | number | identifier
    fn factor(&self, pos: usize) -> (r: Parsed<Expression>)
        requires
            self.wf(),
            pos <= self.chars@.len(),
        ensures
            r is Ok ==> pos < r->Ok_0.1 <= self.chars@.len(),
            r is Err ==> factor_spec(self.chars@, pos as int) is None,
            r matches Ok((e, q)) ==> factor_spec(self.chars@, pos as int) == Some((e.model(), q as int)),
        decreases self.chars@.len() - pos, 0nat,
    {
        let p = self.skip_spaces(pos);
        if p >= self.chars.len() {
            return Err(ParseError { position: p });
        }
        let c = self.chars[p];
        if c == '-' {
            let (e, q) = self.factor(p + 1)?;
            Ok((Expression::Negate(Box::new(e)), q))
        } else if c == '(' {
            let (e, q) = self.expression(p + 1)?;
            let q = self.skip_spaces(q);
            if !self.at(q, ')') {
                return Err(ParseError { position: q });
            }
            Ok((e, q + 1))
        } else if '0' <= c && c <= '9' {
            let (n, q) = self.number(p)?;
            Ok((Expression::Scalar(n), q))
        } else {
            let (name, q) = self.identifier(p)?;
            Ok((Expression::Identifier(name), q))
        }
    }

    /// term := factor (('*' | '/') factor)*
    fn term(&self, pos: usize) -> (r: Parsed<Expression>)
        requires
            self.wf(),
            pos <= self.chars@.len(),
        ensures
            r is Ok ==> pos < r->Ok_0.1 <= self.chars@.len(),
            r is Err ==> term_spec(self.chars@, pos as int) is None,
            r matches Ok((e, q)) ==> term_spec(self.chars@, pos as int) == Some((e.model(), q as int)),
        decreases self.chars@.len() - pos, 1nat,
    {
        let (mut lhs, mut p) = self.factor(pos)?;
        loop
            invariant
                self.wf(),
                pos < p <= self.chars@.len(),
                term_spec(self.chars@, pos as int) == term_rest(self.chars@, lhs.model(), p as int),
            decreases self.chars@.len() - p,
        {
            let q = self.skip_spaces(p);
            let op = if self.at(q, '*') {
                BinaryOperator::Mul
            } else if self.at(q, '/') {
                BinaryOperator::Div
            } else {
                return Ok((lhs, p));
            };
            let (rhs, r) = self.factor(q + 1)?;
            lhs = Expression::BinaryOperator(op, Box::new(lhs), Box::new(rhs));
            p = r;
        }
    }

    /// expression := term (('+' | '-') term)*
    fn expression(&self, pos: usize) -> (r: Parsed<Expression>)
        requires
            self.wf(),
            pos <= self.chars@.len(),
        ensures
            r is Ok ==> pos < r->Ok_0.1 <= self.chars@.len(),
            r is Err ==> expr_spec(self.chars@, pos as int) is None,
            r matches Ok((e, q)) ==> expr_spec(self.chars@, pos as int) == Some((e.model(), q as int)),
        decreases self.chars@.len() - pos, 2nat,
    {
        let (mut lhs, mut p) = self.term(pos)?;
        loop
            invariant
                self.wf(),
                pos < p <= self.chars@.len(),
                expr_spec(self.chars@, pos as int) == expr_rest(self.chars@, lhs.model(), p as int),
            decreases self.chars@.len() - p,
        {
            let q = self.skip_spaces(p);
            let op = if self.at(q, '+') {
                BinaryOperator::Add
            } else if self.at(q, '-') {
                BinaryOperator::Sub
            } else {
                return Ok((lhs, p));
            };
            let (rhs, r) = self.term(q + 1)?;
            lhs = Expression::BinaryOperator(op, Box::new(lhs), Box::new(rhs));
            p = r;
        }
    }

    /// dimension-factor := '(' dimension-expression ')' | identifier
    fn dimension_factor(&self, pos: usize) -> (r: Parsed<DimensionExpression>)
        requires
            self.wf(),
            pos <= self.chars@.len(),
        ensures
            r is Ok ==> pos < r->Ok_0.1 <= self.chars@.len(),
            r is Err ==> dim_factor_spec(self.chars@, pos as int) is None,
            r matches Ok((e, q)) ==> dim_factor_spec(self.chars@, pos as int) == Some(
                (e.model(), q as int),
            ),
        decreases self.chars@.len() - pos, 0nat,
    {
        let p = self.skip_spaces(pos);
        if self.at(p, '(') {
            let (e, q) = self.dimension_expression(p + 1)?;
            let q = self.skip_spaces(q);
            if !self.at(q, ')') {
                return Err(ParseError { position: q });
            }
            Ok((e, q + 1))
        } else {
            let (name, q) = self.identifier(p)?;
            Ok((DimensionExpression::Dimension(name), q))
        }
    }

    /// dimension-expression := dimension-factor (('*' | '/') dimension-factor)*
    fn dimension_expression(&self, pos: usize) -> (r: Parsed<DimensionExpression>)
        requires
            self.wf(),
            pos <= self.chars@.len(),
        ensures
            r is Ok ==> pos < r->Ok_0.1 <= self.chars@.len(),
            r is Err ==> dim_expr_spec(self.chars@, pos as int) is None,
            r matches Ok((e, q)) ==> dim_expr_spec(self.chars@, pos as int) == Some(
                (e.model(), q as int),
            ),
        decreases self.chars@.len() - pos, 1nat,
    {
        let (mut lhs, mut p) = self.dimension_factor(pos)?;
        loop
            invariant
                self.wf(),
                pos < p <= self.chars@.len(),
                dim_expr_spec(self.chars@, pos as int) == dim_rest(self.chars@, lhs.model(), p as int),
            decreases self.chars@.len() - p,
        {
            let q = self.skip_spaces(p);
            let mul = self.at(q, '*');
            if !mul && !self.at(q, '/') {
                return Ok((lhs, p));
            }
            let (rhs, r) = self.dimension_factor(q + 1)?;
            lhs = if mul {
                DimensionExpression::Multiply(Box::new(lhs), Box::new(rhs))
            } else {
                DimensionExpression::Divide(Box::new(lhs), Box::new(rhs))
            };
            p = r;
        }
    }

    /// The position after the word `kw` at `pos`, when a space or tab follows it.
    fn keyword(&self, pos: usize, kw: &str) -> (r: Option<usize>)
        requires
            self.wf(),
            pos <= self.chars@.len(),
        ensures
            r matches Some(q) ==> pos < q < self.chars@.len(),
            r is None ==> keyword_spec(self.chars@, pos as int, kw@) is None,
            r matches Some(q) ==> keyword_spec(self.chars@, pos as int, kw@) == Some(q as int),
    {
        let n = kw.unicode_len();
        if n == 0 || n >= self.chars.len() - pos {
            return None;
        }
        let mut i: usize = 0;
        while i < n
            invariant
                self.wf(),
                n == kw@.len(),
                pos + n < self.chars@.len(),
                pos <= self.chars@.len(),
                i <= n,
                forall|j: int| 0 <= j < i ==> self.chars@[pos + j] == kw@[j],
            decreases n - i,
        {
            if self.chars[pos + i] != kw.get_char(i) {
                assert(self.chars@.subrange(pos as int, pos + n)[i as int] != kw@[i as int]);
                return None;
            }
            i = i + 1;
        }
        assert(self.chars@.subrange(pos as int, pos + n) =~= kw@);
        let d = self.chars[pos + n];
        if d == ' ' || d == '\t' {
            Some(pos + n)
        } else {
            None
        }
    }

    fn expect(&self, pos: usize, c: char) -> (r: Result<usize, ParseError>)
        requires
            self.wf(),
            pos <= self.chars@.len(),
        ensures
            r is Ok ==> pos < r->Ok_0 <= self.chars@.len(),
            r is Err ==> expect_spec(self.chars@, pos as int, c) is None,
            r matches Ok(q) ==> expect_spec(self.chars@, pos as int, c) == Some(q as int),
    {
        let p = self.skip_spaces(pos);
        if self.at(p, c) {
            Ok(p + 1)
        } else {
            Err(ParseError { position: p })
        }
    }

    fn statement(&self, pos: usize) -> (r: Parsed<Statement>)
        requires
            self.wf(),
            pos <= self.chars@.len(),
        ensures
            r is Ok ==> pos < r->Ok_0.1 <= self.chars@.len(),
            r is Err ==> stmt_spec(self.chars@, pos as int) is None,
            r matches Ok((st, q)) ==> stmt_spec(self.chars@, pos as int) == Some((st.model(), q as int)),
    {
        proof {
            reveal_strlit("let");
            reveal_strlit("dimension");
            reveal_strlit("unit");
            assert("let"@ =~= kw_let());
            assert("dimension"@ =~= kw_dimension());
            assert("unit"@ =~= kw_unit());
        }
        if let Some(k) = self.keyword(pos, "let") {
            let (name, p) = self.identifier(self.skip_spaces(k))?;
            let p = self.expect(p, '=')?;
            let (e, p) = self.expression(p)?;
            Ok((Statement::DeclareVariable(name, e), p))
        } else if let Some(k) = self.keyword(pos, "dimension") {
            let (name, mut p) = self.identifier(self.skip_spaces(k))?;
            let p0 = p;
            let mut alternatives: Vec<DimensionExpression> = Vec::new();
            assert(crate::ast::dim_models(alternatives@) =~= Seq::<DimModel>::empty());
            loop
                invariant
                    self.wf(),
                    pos < p0 <= p <= self.chars@.len(),
                    keyword_spec(self.chars@, pos as int, kw_let()) is None,
                    keyword_spec(self.chars@, pos as int, kw_dimension()) == Some(k as int),
                    identifier_spec(self.chars@, skip_sp(self.chars@, k as int)) == Some(
                        (name@, p0 as int),
                    ),
                    alts_rest(self.chars@, Seq::empty(), p0 as int) == alts_rest(
                        self.chars@,
                        crate::ast::dim_models(alternatives@),
                        p as int,
                    ),
                decreases self.chars@.len() - p,
            {
                let q = self.skip_spaces(p);
                if !self.at(q, '=') {
                    return Ok((Statement::DeclareDimension(name, alternatives), p));
                }
                let (e, r) = self.dimension_expression(q + 1)?;
                let ghost before = crate::ast::dim_models(alternatives@);
                let ghost em = e.model();
                alternatives.push(e);
                assert(crate::ast::dim_models(alternatives@) =~= before.push(em));
                p = r;
            }
        } else if let Some(k) = self.keyword(pos, "unit") {
            let (name, p) = self.identifier(self.skip_spaces(k))?;
            let p = self.expect(p, ':')?;
            let (e, p) = self.dimension_expression(p)?;
            Ok((Statement::DeclareUnit(name, e), p))
        } else {
            let (e, p) = self.expression(pos)?;
            Ok((Statement::Expression(e), p))
        }
    }
}

/// Parses a program: statements separated by line breaks; blank lines are
/// skipped. Succeeds exactly on well-formed text, with the program it denotes.
pub fn parse(input: &str) -> (r: Result<Vec<Statement>, ParseError>)
    ensures
        r is Ok <==> program_of(input@) is Some,
        r matches Ok(v) ==> stmt_models(v@) == program_of(input@)->0,
{
    let src = match Source::new(input) {
        Some(s) => s,
        None => {
            return Err(ParseError { position: usize::MAX });
        },
    };
    let ghost cs = src.chars@;
    let mut statements: Vec<Statement> = Vec::new();
    assert(stmt_models(statements@) =~= Seq::<StmtModel>::empty());
    let mut p: usize = 0;
    loop
        invariant
            src.wf(),
            cs == src.chars@,
            cs == input@,
            p <= cs.len(),
            program_of(input@) == program_rest(cs, stmt_models(statements@), p as int),
        decreases cs.len() - p,
    {
        let q0 = src.skip_spaces(p);
        let mut q = q0;
        while q < src.len() && src.at(q, '\n')
            invariant
                src.wf(),
                cs == src.chars@,
                p <= q <= cs.len(),
                skip_blank(cs, q0 as int) == skip_blank(cs, q as int),
            decreases cs.len() - q,
        {
            q = src.skip_spaces(q + 1);
        }
        if q >= src.len() {
            return Ok(statements);
        }
        let (s, r) = src.statement(q)?;
        let ghost before = stmt_models(statements@);
        let ghost sm = s.model();
        statements.push(s);
        assert(stmt_models(statements@) =~= before.push(sm));
        let r = src.skip_spaces(r);
        if r < src.len() && !src.at(r, '\n') {
            return Err(ParseError { position: r });
        }
        p = r;
    }
}

} // verus!
