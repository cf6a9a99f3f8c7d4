//! The rule language: expressions over a cell's aliveness and its number of
//! live neighbours, statements that set the cell's next state, their meaning
//! on the 0/1 integer domain, and their lowering to kernel source text.
use crate::text::{decimal, push_decimal};
use vstd::prelude::*;

verus! {

/// An expression of the rule language. Every expression denotes an unsigned
/// 32-bit value; comparisons denote 0 or 1, and `And` / `Or` are bitwise.
#[derive(Debug)]
pub enum Expr {
    U32(u32),
    Alive,
    Neighbors,
    Gt(Box<Expr>, Box<Expr>),
    Gte(Box<Expr>, Box<Expr>),
    Lt(Box<Expr>, Box<Expr>),
    Lte(Box<Expr>, Box<Expr>),
    And(Box<Expr>, Box<Expr>),
    Or(Box<Expr>, Box<Expr>),
    Equal(Box<Expr>, Box<Expr>),
}

/// A statement of the rule language: it may assign the output variable.
#[derive(Debug)]
pub enum Statement {
    Void,
    SetResult(Expr),
    IfThenElse { condition: Expr, if_true_then: Box<Statement>, if_false_then: Box<Statement> },
}

/// 1 when `b` holds, else 0.
pub open spec fn flag(b: bool) -> u32 {
    if b {
        1
    } else {
        0
    }
}

/// The value of `e` for a cell whose own state is `alive` and which has
/// `neighbors` live neighbours.
pub open spec fn eval_expr(e: Expr, alive: u32, neighbors: u32) -> u32
    decreases e,
{
    match e {
        Expr::U32(v) => v,
        Expr::Alive => alive,
        Expr::Neighbors => neighbors,
        Expr::Gt(l, r) => flag(eval_expr(*l, alive, neighbors) > eval_expr(*r, alive, neighbors)),
        Expr::Gte(l, r) => flag(eval_expr(*l, alive, neighbors) >= eval_expr(*r, alive, neighbors)),
        Expr::Lt(l, r) => flag(eval_expr(*l, alive, neighbors) < eval_expr(*r, alive, neighbors)),
        Expr::Lte(l, r) => flag(eval_expr(*l, alive, neighbors) <= eval_expr(*r, alive, neighbors)),
        Expr::And(l, r) => eval_expr(*l, alive, neighbors) & eval_expr(*r, alive, neighbors),
        Expr::Or(l, r) => eval_expr(*l, alive, neighbors) | eval_expr(*r, alive, neighbors),
        Expr::Equal(l, r) => flag(eval_expr(*l, alive, neighbors) == eval_expr(*r, alive, neighbors)),
    }
}

/// The value of the output variable after running `s` from the value
/// `result`. A condition holds when its value is not 0.
pub open spec fn eval_statement(s: Statement, alive: u32, neighbors: u32, result: u32) -> u32
    decreases s,
{
    match s {
        Statement::Void => result,
        Statement::SetResult(e) => eval_expr(e, alive, neighbors),
        Statement::IfThenElse { condition, if_true_then, if_false_then } => {
            if eval_expr(condition, alive, neighbors) != 0 {
                eval_statement(*if_true_then, alive, neighbors, result)
            } else {
                eval_statement(*if_false_then, alive, neighbors, result)
            }
        },
    }
}

/// Whether every path through `s` assigns the output variable.
pub open spec fn sets_result_on_every_path(s: Statement) -> bool
    decreases s,
{
    match s {
        Statement::Void => false,
        Statement::SetResult(_) => true,
        Statement::IfThenElse { condition: _, if_true_then, if_false_then } => {
            sets_result_on_every_path(*if_true_then) && sets_result_on_every_path(*if_false_then)
        },
    }
}

/// The height of an expression tree.
pub open spec fn depth(e: Expr) -> nat
    decreases e,
{
    match e {
        Expr::Gt(l, r) | Expr::Gte(l, r) | Expr::Lt(l, r) | Expr::Lte(l, r) | Expr::And(l, r)
        | Expr::Or(l, r) | Expr::Equal(l, r) => 1 + max_nat(depth(*l), depth(*r)),
        _ => 0,
    }
}

pub open spec fn max_nat(a: nat, b: nat) -> nat {
    if a >= b {
        a
    } else {
        b
    }
}

/// The text of a binary comparison: `u32((l) op (r))`.
pub open spec fn comparison_text(op: Seq<char>, l: Seq<char>, r: Seq<char>) -> Seq<char> {
    "u32(("@ + l + op + r + "))"@
}

/// The text of a bitwise operation: `((l) op (r))`.
pub open spec fn bitwise_text(op: Seq<char>, l: Seq<char>, r: Seq<char>) -> Seq<char> {
    "(("@ + l + op + r + "))"@
}

/// The kernel source text of an expression.
pub open spec fn expr_text(e: Expr) -> Seq<char>
    decreases e,
{
    match e {
        Expr::U32(v) => decimal(v as nat) + "u"@,
        Expr::Alive => "is_alive"@,
        Expr::Neighbors => "num_neighbors"@,
        Expr::Gt(l, r) => comparison_text(") > ("@, expr_text(*l), expr_text(*r)),
        Expr::Gte(l, r) => comparison_text(") >= ("@, expr_text(*l), expr_text(*r)),
        Expr::Lt(l, r) => comparison_text(") < ("@, expr_text(*l), expr_text(*r)),
        Expr::Lte(l, r) => comparison_text(") <= ("@, expr_text(*l), expr_text(*r)),
        Expr::And(l, r) => bitwise_text(") & ("@, expr_text(*l), expr_text(*r)),
        Expr::Or(l, r) => bitwise_text(") | ("@, expr_text(*l), expr_text(*r)),
        Expr::Equal(l, r) => comparison_text(") == ("@, expr_text(*l), expr_text(*r)),
    }
}

/// The kernel source text of a statement.
pub open spec fn statement_text(s: Statement) -> Seq<char>
    decreases s,
{
    match s {
        Statement::Void => Seq::empty(),
        Statement::SetResult(e) => "result = "@ + expr_text(e) + ";"@,
        Statement::IfThenElse { condition, if_true_then, if_false_then } => "if (("@ + expr_text(
            condition,
        ) + ") != 0u) { "@ + statement_text(*if_true_then) + " } else { "@ + statement_text(
            *if_false_then,
        ) + " }"@,
    }
}

fn push_comparison(out: &mut String, op: &str, l: &Expr, r: &Expr)
    ensures
        final(out)@ == old(out)@ + comparison_text(op@, expr_text(*l), expr_text(*r)),
    decreases 1 + max_nat(depth(*l), depth(*r)), 0nat,
{
    out.append("u32((");
    l.push_shader(out);
    out.append(op);
    r.push_shader(out);
    out.append("))");
    assert(out@ =~= old(out)@ + comparison_text(op@, expr_text(*l), expr_text(*r)));
}

fn push_bitwise(out: &mut String, op: &str, l: &Expr, r: &Expr)
    ensures
        final(out)@ == old(out)@ + bitwise_text(op@, expr_text(*l), expr_text(*r)),
    decreases 1 + max_nat(depth(*l), depth(*r)), 0nat,
{
    out.append("((");
    l.push_shader(out);
    out.append(op);
    r.push_shader(out);
    out.append("))");
    assert(out@ =~= old(out)@ + bitwise_text(op@, expr_text(*l), expr_text(*r)));
}

impl Clone for Expr {
    fn clone(&self) -> (r: Self)
        ensures
            r == *self,
        decreases self,
    {
        match self {
            Expr::U32(v) => Expr::U32(*v),
            Expr::Alive => Expr::Alive,
            Expr::Neighbors => Expr::Neighbors,
            Expr::Gt(l, r) => Expr::Gt(Box::new((**l).clone()), Box::new((**r).clone())),
            Expr::Gte(l, r) => Expr::Gte(Box::new((**l).clone()), Box::new((**r).clone())),
            Expr::Lt(l, r) => Expr::Lt(Box::new((**l).clone()), Box::new((**r).clone())),
            Expr::Lte(l, r) => Expr::Lte(Box::new((**l).clone()), Box::new((**r).clone())),
            Expr::And(l, r) => Expr::And(Box::new((**l).clone()), Box::new((**r).clone())),
            Expr::Or(l, r) => Expr::Or(Box::new((**l).clone()), Box::new((**r).clone())),
            Expr::Equal(l, r) => Expr::Equal(Box::new((**l).clone()), Box::new((**r).clone())),
        }
    }
}

impl Expr {
    /// Appends the kernel source text of this expression to `out`.
    pub fn push_shader(&self, out: &mut String)
        ensures
            final(out)@ == old(out)@ + expr_text(*self),
        decreases depth(*self), 1nat,
    {
        match self {
            Expr::U32(v) => {
                push_decimal(out, *v);
                out.append("u");
            },
            Expr::Alive => out.append("is_alive"),
            Expr::Neighbors => out.append("num_neighbors"),
            Expr::Gt(l, r) => push_comparison(out, ") > (", l, r),
            Expr::Gte(l, r) => push_comparison(out, ") >= (", l, r),
            Expr::Lt(l, r) => push_comparison(out, ") < (", l, r),
            Expr::Lte(l, r) => push_comparison(out, ") <= (", l, r),
            Expr::And(l, r) => push_bitwise(out, ") & (", l, r),
            Expr::Or(l, r) => push_bitwise(out, ") | (", l, r),
            Expr::Equal(l, r) => push_comparison(out, ") == (", l, r),
        }
    }

    /// The kernel source text of this expression: operators in prefix
    /// order of the tree, every operand parenthesised, comparisons wrapped
    /// to yield 0 or 1.
    pub fn to_shader(&self) -> (r: String)
        ensures
            r@ == expr_text(*self),
    {
        let mut out = String::new();
        self.push_shader(&mut out);
        assert(out@ =~= expr_text(*self));
        out
    }

    /// The value of this expression for a cell with state `alive` and
    /// `neighbors` live neighbours.
    pub fn eval(&self, alive: u32, neighbors: u32) -> (r: u32)
        ensures
            r == eval_expr(*self, alive, neighbors),
        decreases self,
    {
        match self {
            Expr::U32(v) => *v,
            Expr::Alive => alive,
            Expr::Neighbors => neighbors,
            Expr::Gt(l, r) => if l.eval(alive, neighbors) > r.eval(alive, neighbors) {
                1
            } else {
                0
            },
            Expr::Gte(l, r) => if l.eval(alive, neighbors) >= r.eval(alive, neighbors) {
                1
            } else {
                0
            },
            Expr::Lt(l, r) => if l.eval(alive, neighbors) < r.eval(alive, neighbors) {
                1
            } else {
                0
            },
            Expr::Lte(l, r) => if l.eval(alive, neighbors) <= r.eval(alive, neighbors) {
                1
            } else {
                0
            },
            Expr::And(l, r) => l.eval(alive, neighbors) & r.eval(alive, neighbors),
            Expr::Or(l, r) => l.eval(alive, neighbors) | r.eval(alive, neighbors),
            Expr::Equal(l, r) => if l.eval(alive, neighbors) == r.eval(alive, neighbors) {
                1
            } else {
                0
            },
        }
    }
}

/// The literal `value`.
pub fn const_u32(value: u32) -> (r: Expr)
    ensures
        r == Expr::U32(value),
{
    Expr::U32(value)
}

/// The state of the cell itself: 1 when alive, 0 when dead.
pub fn alive() -> (r: Expr)
    ensures
        r == Expr::Alive,
{
    Expr::Alive
}

/// The number of live cells around the cell.
pub fn neighbors() -> (r: Expr)
    ensures
        r == Expr::Neighbors,
{
    Expr::Neighbors
}

/// `lhs > rhs`, as 0 or 1.
pub fn gt(lhs: Expr, rhs: Expr) -> (r: Expr)
    ensures
        r == Expr::Gt(Box::new(lhs), Box::new(rhs)),
{
    Expr::Gt(Box::new(lhs), Box::new(rhs))
}

/// `lhs >= rhs`, as 0 or 1.
pub fn gte(lhs: Expr, rhs: Expr) -> (r: Expr)
    ensures
        r == Expr::Gte(Box::new(lhs), Box::new(rhs)),
{
    Expr::Gte(Box::new(lhs), Box::new(rhs))
}

/// `lhs < rhs`, as 0 or 1.
pub fn lt(lhs: Expr, rhs: Expr) -> (r: Expr)
    ensures
        r == Expr::Lt(Box::new(lhs), Box::new(rhs)),
{
    Expr::Lt(Box::new(lhs), Box::new(rhs))
}

/// `lhs <= rhs`, as 0 or 1.
pub fn lte(lhs: Expr, rhs: Expr) -> (r: Expr)
    ensures
        r == Expr::Lte(Box::new(lhs), Box::new(rhs)),
{
    Expr::Lte(Box::new(lhs), Box::new(rhs))
}

/// Bitwise and of the two values.
pub fn and(lhs: Expr, rhs: Expr) -> (r: Expr)
    ensures
        r == Expr::And(Box::new(lhs), Box::new(rhs)),
{
    Expr::And(Box::new(lhs), Box::new(rhs))
}

/// Bitwise or of the two values.
pub fn or(lhs: Expr, rhs: Expr) -> (r: Expr)
    ensures
        r == Expr::Or(Box::new(lhs), Box::new(rhs)),
{
    Expr::Or(Box::new(lhs), Box::new(rhs))
}

/// `lhs == rhs`, as 0 or 1.
pub fn equal(lhs: Expr, rhs: Expr) -> (r: Expr)
    ensures
        r == Expr::Equal(Box::new(lhs), Box::new(rhs)),
{
    Expr::Equal(Box::new(lhs), Box::new(rhs))
}

impl Clone for Statement {
    fn clone(&self) -> (r: Self)
        ensures
            r == *self,
        decreases self,
    {
        match self {
            Statement::Void => Statement::Void,
            Statement::SetResult(e) => Statement::SetResult(e.clone()),
            Statement::IfThenElse { condition, if_true_then, if_false_then } => {
                Statement::IfThenElse {
                    condition: condition.clone(),
                    if_true_then: Box::new((**if_true_then).clone()),
                    if_false_then: Box::new((**if_false_then).clone()),
                }
            },
        }
    }
}

impl Statement {
    /// Appends the kernel source text of this statement to `out`.
    pub fn push_shader(&self, out: &mut String)
        ensures
            final(out)@ == old(out)@ + statement_text(*self),
        decreases self,
    {
        match self {
            Statement::Void => {
                assert(out@ =~= old(out)@ + statement_text(*self));
            },
            Statement::SetResult(e) => {
                out.append("result = ");
                e.push_shader(out);
                out.append(";");
                assert(out@ =~= old(out)@ + statement_text(*self));
            },
            Statement::IfThenElse { condition, if_true_then, if_false_then } => {
                out.append("if ((");
                condition.push_shader(out);
                out.append(") != 0u) { ");
                if_true_then.push_shader(out);
                out.append(" } else { ");
                if_false_then.push_shader(out);
                out.append(" }");
                assert(out@ =~= old(out)@ + statement_text(*self));
            },
        }
    }

    /// The kernel source text of this statement: an assignment to `result`,
    /// a conditional with both branches written out, or nothing.
    pub fn to_shader(&self) -> (r: String)
        ensures
            r@ == statement_text(*self),
    {
        let mut out = String::new();
        self.push_shader(&mut out);
        assert(out@ =~= statement_text(*self));
        out
    }

    /// The value of the output variable after running this statement from
    /// the value `result`.
    pub fn run(&self, alive: u32, neighbors: u32, result: u32) -> (r: u32)
        ensures
            r == eval_statement(*self, alive, neighbors, result),
        decreases self,
    {
        match self {
            Statement::Void => result,
            Statement::SetResult(e) => e.eval(alive, neighbors),
            Statement::IfThenElse { condition, if_true_then, if_false_then } => {
                if condition.eval(alive, neighbors) != 0 {
                    if_true_then.run(alive, neighbors, result)
                } else {
                    if_false_then.run(alive, neighbors, result)
                }
            },
        }
    }

    /// Whether every path through this statement assigns the output
    /// variable, so that the kernel never keeps the default value.
    pub fn sets_result_on_every_path(&self) -> (r: bool)
        ensures
            r == sets_result_on_every_path(*self),
        decreases self,
    {
        match self {
            Statement::Void => false,
            Statement::SetResult(_) => true,
            Statement::IfThenElse { condition: _, if_true_then, if_false_then } => {
                if_true_then.sets_result_on_every_path()
                    && if_false_then.sets_result_on_every_path()
            },
        }
    }
}

/// The statement that does nothing.
pub fn void() -> (r: Statement)
    ensures
        r == Statement::Void,
{
    Statement::Void
}

/// The statement that assigns the value of `expr` to the output.
pub fn set_result(expr: Expr) -> (r: Statement)
    ensures
        r == Statement::SetResult(expr),
{
    Statement::SetResult(expr)
}

/// The conditional that runs `if_true_then` when `condition` is not 0 and
/// `if_false_then` otherwise.
pub fn if_then_else(condition: Expr, if_true_then: Statement, if_false_then: Statement) -> (r:
    Statement)
    ensures
        r == (Statement::IfThenElse {
            condition,
            if_true_then: Box::new(if_true_then),
            if_false_then: Box::new(if_false_then),
        }),
{
    Statement::IfThenElse {
        condition,
        if_true_then: Box::new(if_true_then),
        if_false_then: Box::new(if_false_then),
    }
}

/// A statement that assigns the output on every path leaves nothing of the
/// value the output held before: its outcome depends on the cell alone.
pub proof fn lemma_complete_rule_ignores_default(s: Statement, alive: u32, neighbors: u32, a: u32, b: u32)
    requires
        sets_result_on_every_path(s),
    ensures
        eval_statement(s, alive, neighbors, a) == eval_statement(s, alive, neighbors, b),
    decreases s,
{
    if let Statement::IfThenElse { condition: _, if_true_then, if_false_then } = s {
        lemma_complete_rule_ignores_default(*if_true_then, alive, neighbors, a, b);
        lemma_complete_rule_ignores_default(*if_false_then, alive, neighbors, a, b);
    }
}

/// Compiling one expression or one statement twice gives the same text.
pub proof fn lemma_rule_text_stable(
    e: Expr,
    s: Statement,
    e_first: Seq<char>,
    e_second: Seq<char>,
    s_first: Seq<char>,
    s_second: Seq<char>,
)
    requires
        e_first == expr_text(e),
        e_second == expr_text(e),
        s_first == statement_text(s),
        s_second == statement_text(s),
    ensures
        e_first == e_second,
        s_first == s_second,
{
}

} // verus!
