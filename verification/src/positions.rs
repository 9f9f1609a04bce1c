//! What a parse gives does not depend on where in the file the text stands: two token
//! trees that differ only in their lines and columns give the same results, apart from
//! the areas that those results carry.

use vstd::prelude::*;
use crate::ast::{
    AssignmentView, CallView, Either, ExpressionInnerView, ExpressionView, MatchArmView,
    MatchView, SingleExpressionInnerView, SingleExpressionView, StatementView, TypeAliasView,
};
use crate::error::RichErrorView;
use crate::parse::{
    call_name_spec, call_spec,
    expression_kind_spec, expression_spec, expressions_spec, match_arm_spec,
    match_pattern_spec, match_spec, pattern_spec, patterns_spec, single_spec, statement_spec,
    statements_spec, type_item_spec, type_items_spec, type_spec,
};
use crate::span::{Position, Span};
use crate::tree::{first_non_statement, Pair, Rule};

verus! {

/// The pairs `a` and `b` match the same text with the same rules, nested alike; only
/// their lines and columns may differ.
pub open spec fn same_but_positions(a: Pair, b: Pair) -> bool
    decreases a,
{
    &&& a.rule == b.rule
    &&& a.text@ == b.text@
    &&& a.inner.len() == b.inner.len()
    &&& forall|i: int|
        0 <= i < a.inner.len() ==> same_but_positions(#[trigger] a.inner[i], b.inner[i])
}

/// The pairs `s` and `t` are, one by one, the same but for their positions.
pub open spec fn all_same_but_positions(s: Seq<Pair>, t: Seq<Pair>) -> bool {
    &&& s.len() == t.len()
    &&& forall|i: int| 0 <= i < s.len() ==> same_but_positions(#[trigger] s[i], t[i])
}

/// The area that a value carries once positions are set aside.
pub open spec fn no_span() -> Span {
    Span { start: Position { line: 1, col: 1 }, end: Position { line: 1, col: 1 } }
}

/// Two results that both succeed with equal values, or both fail.
pub open spec fn same_outcome<T>(r: Result<T, RichErrorView>, q: Result<T, RichErrorView>) -> bool {
    match (r, q) {
        (Ok(x), Ok(y)) => x == y,
        (Err(_), Err(_)) => true,
        _ => false,
    }
}

/// The expression `e` with the areas it carries, at every depth, set aside.
pub open spec fn erase_expression(e: ExpressionView) -> ExpressionView
    decreases e,
{
    ExpressionView {
        inner: match e.inner {
            ExpressionInnerView::Block(stmts, last) => ExpressionInnerView::Block(
                erase_statements(stmts),
                Box::new(erase_expression(*last)),
            ),
            ExpressionInnerView::Single(s) => ExpressionInnerView::Single(erase_single(s)),
        },
        span: no_span(),
    }
}

/// The single expression `s` with the areas it carries set aside.
pub open spec fn erase_single(s: SingleExpressionView) -> SingleExpressionView
    decreases s,
{
    SingleExpressionView {
        inner: match s.inner {
            SingleExpressionInnerView::Either(Either::Left(e)) => SingleExpressionInnerView::Either(
                Either::Left(Box::new(erase_expression(*e))),
            ),
            SingleExpressionInnerView::Either(Either::Right(e)) => SingleExpressionInnerView::Either(
                Either::Right(Box::new(erase_expression(*e))),
            ),
            SingleExpressionInnerView::Option(Some(e)) => SingleExpressionInnerView::Option(
                Some(Box::new(erase_expression(*e))),
            ),
            SingleExpressionInnerView::Call(c) => SingleExpressionInnerView::Call(erase_call(c)),
            SingleExpressionInnerView::Expression(e) => SingleExpressionInnerView::Expression(
                Box::new(erase_expression(*e)),
            ),
            SingleExpressionInnerView::Match(m) => SingleExpressionInnerView::Match(erase_match(m)),
            SingleExpressionInnerView::Tuple(es) => SingleExpressionInnerView::Tuple(
                erase_expressions(es),
            ),
            SingleExpressionInnerView::Array(es) => SingleExpressionInnerView::Array(
                erase_expressions(es),
            ),
            SingleExpressionInnerView::List(es) => SingleExpressionInnerView::List(
                erase_expressions(es),
            ),
            other => other,
        },
        span: no_span(),
    }
}

/// The call `c` with the areas it carries set aside.
pub open spec fn erase_call(c: CallView) -> CallView
    decreases c,
{
    CallView { name: c.name, args: erase_expressions(c.args), span: no_span() }
}

/// The match `m` with the areas it carries set aside.
pub open spec fn erase_match(m: MatchView) -> MatchView
    decreases m,
{
    MatchView {
        scrutinee: Box::new(erase_expression(*m.scrutinee)),
        left: erase_arm(m.left),
        right: erase_arm(m.right),
        span: no_span(),
    }
}

/// The match arm `a` with the areas it carries set aside.
pub open spec fn erase_arm(a: MatchArmView) -> MatchArmView
    decreases a,
{
    MatchArmView { pattern: a.pattern, expression: Box::new(erase_expression(*a.expression)) }
}

/// The statement `s` with the areas it carries set aside.
pub open spec fn erase_statement(s: StatementView) -> StatementView
    decreases s,
{
    match s {
        StatementView::Assignment(a) => StatementView::Assignment(
            AssignmentView {
                pattern: a.pattern,
                ty: a.ty,
                expression: erase_expression(a.expression),
                span: no_span(),
            },
        ),
        StatementView::Expression(e) => StatementView::Expression(erase_expression(e)),
        StatementView::TypeAlias(t) => StatementView::TypeAlias(
            TypeAliasView { name: t.name, ty: t.ty, span: no_span() },
        ),
    }
}

/// The expressions `s`, in order, with the areas they carry set aside.
pub open spec fn erase_expressions(s: Seq<ExpressionView>) -> Seq<ExpressionView>
    decreases s,
{
    if s.len() == 0 {
        s
    } else {
        erase_expressions(s.drop_last()).push(erase_expression(s.last()))
    }
}

/// The statements `s`, in order, with the areas they carry set aside.
pub open spec fn erase_statements(s: Seq<StatementView>) -> Seq<StatementView>
    decreases s,
{
    if s.len() == 0 {
        s
    } else {
        erase_statements(s.drop_last()).push(erase_statement(s.last()))
    }
}

/// A type item gives the same wherever its text stands.
proof fn lemma_type_item_same(a: Pair, b: Pair)
    requires
        same_but_positions(a, b),
    ensures
        same_outcome(type_item_spec(a), type_item_spec(b)),
    decreases a, 0int,
{
    reveal_with_fuel(same_but_positions, 2);
    let n = a.inner.len() as int;
    if n >= 1 {
        lemma_type_item_same(a.inner[0], b.inner[0]);
    }
    if n >= 2 {
        lemma_type_item_same(a.inner[1], b.inner[1]);
    }
    lemma_type_items_same(a.inner@, b.inner@, n);
}

/// The first `k` items of a tuple type give the same wherever their text stands.
proof fn lemma_type_items_same(s: Seq<Pair>, t: Seq<Pair>, k: int)
    requires
        all_same_but_positions(s, t),
    ensures
        same_outcome(type_items_spec(s, k), type_items_spec(t, k)),
    decreases s, k,
{
    if 0 < k <= s.len() {
        lemma_type_items_same(s, t, k - 1);
        lemma_type_item_same(s[k - 1], t[k - 1]);
    }
}

/// A type expression gives the same wherever its text stands.
proof fn lemma_type_same(a: Pair, b: Pair)
    requires
        same_but_positions(a, b),
    ensures
        same_outcome(type_spec(a), type_spec(b)),
{
    lemma_type_item_same(a, b);
}

/// A pattern gives the same wherever its text stands.
proof fn lemma_pattern_same(a: Pair, b: Pair)
    requires
        same_but_positions(a, b),
    ensures
        pattern_spec(a) == pattern_spec(b),
    decreases a, 0int,
{
    if a.inner.len() >= 1 {
        lemma_pattern_same(a.inner[0], b.inner[0]);
    }
    lemma_patterns_same(a.inner@, b.inner@, a.inner.len() as int);
}

/// The first `k` patterns give the same wherever their text stands.
proof fn lemma_patterns_same(s: Seq<Pair>, t: Seq<Pair>, k: int)
    requires
        all_same_but_positions(s, t),
    ensures
        patterns_spec(s, k) == patterns_spec(t, k),
    decreases s, k,
{
    if 0 < k <= s.len() {
        lemma_patterns_same(s, t, k - 1);
        lemma_pattern_same(s[k - 1], t[k - 1]);
    }
}


/// Two results of parsing expressions that both succeed with the same expression up to the
/// areas it carries, or both fail.
pub open spec fn expression_agrees(
    r: Result<ExpressionView, RichErrorView>,
    q: Result<ExpressionView, RichErrorView>,
) -> bool {
    match (r, q) {
        (Ok(x), Ok(y)) => erase_expression(x) == erase_expression(y),
        (Err(_), Err(_)) => true,
        _ => false,
    }
}

/// Two results of parsing single expressions that agree up to areas.
pub open spec fn single_agrees(
    r: Result<SingleExpressionView, RichErrorView>,
    q: Result<SingleExpressionView, RichErrorView>,
) -> bool {
    match (r, q) {
        (Ok(x), Ok(y)) => erase_single(x) == erase_single(y),
        (Err(_), Err(_)) => true,
        _ => false,
    }
}

/// Two results of parsing calls that agree up to areas.
pub open spec fn call_agrees(r: Result<CallView, RichErrorView>, q: Result<CallView, RichErrorView>) -> bool {
    match (r, q) {
        (Ok(x), Ok(y)) => erase_call(x) == erase_call(y),
        (Err(_), Err(_)) => true,
        _ => false,
    }
}

/// Two results of parsing matches that agree up to areas.
pub open spec fn match_agrees(r: Result<MatchView, RichErrorView>, q: Result<MatchView, RichErrorView>) -> bool {
    match (r, q) {
        (Ok(x), Ok(y)) => erase_match(x) == erase_match(y),
        (Err(_), Err(_)) => true,
        _ => false,
    }
}

/// Two results of parsing match arms that agree up to areas.
pub open spec fn arm_agrees(
    r: Result<MatchArmView, RichErrorView>,
    q: Result<MatchArmView, RichErrorView>,
) -> bool {
    match (r, q) {
        (Ok(x), Ok(y)) => erase_arm(x) == erase_arm(y),
        (Err(_), Err(_)) => true,
        _ => false,
    }
}

/// Two results of parsing statements that agree up to areas.
pub open spec fn statement_agrees(
    r: Result<StatementView, RichErrorView>,
    q: Result<StatementView, RichErrorView>,
) -> bool {
    match (r, q) {
        (Ok(x), Ok(y)) => erase_statement(x) == erase_statement(y),
        (Err(_), Err(_)) => true,
        _ => false,
    }
}

/// Two results of parsing lists of expressions that agree up to areas.
pub open spec fn expressions_agree(
    r: Result<Seq<ExpressionView>, RichErrorView>,
    q: Result<Seq<ExpressionView>, RichErrorView>,
) -> bool {
    match (r, q) {
        (Ok(x), Ok(y)) => erase_expressions(x) == erase_expressions(y),
        (Err(_), Err(_)) => true,
        _ => false,
    }
}

/// Two results of parsing lists of statements that agree up to areas.
pub open spec fn statements_agree(
    r: Result<Seq<StatementView>, RichErrorView>,
    q: Result<Seq<StatementView>, RichErrorView>,
) -> bool {
    match (r, q) {
        (Ok(x), Ok(y)) => erase_statements(x) == erase_statements(y),
        (Err(_), Err(_)) => true,
        _ => false,
    }
}

/// The first pair that is not a statement stands at the same index in both lists.
proof fn lemma_first_non_statement_same(s: Seq<Pair>, t: Seq<Pair>, from: int)
    requires
        all_same_but_positions(s, t),
    ensures
        first_non_statement(s, from) == first_non_statement(t, from),
    decreases s.len() - from,
{
    if 0 <= from < s.len() {
        assert(same_but_positions(s[from], t[from]));
        lemma_first_non_statement_same(s, t, from + 1);
    }
}

/// A call name gives the same wherever its text stands.
proof fn lemma_call_name_same(a: Pair, b: Pair)
    requires
        same_but_positions(a, b),
    ensures
        same_outcome(call_name_spec(a), call_name_spec(b)),
{
    reveal_with_fuel(same_but_positions, 3);
    if a.inner.len() >= 1 && a.inner[0].inner.len() >= 1 {
        lemma_type_same(a.inner[0].inner[0], b.inner[0].inner[0]);
    }
}

/// A match pattern gives the same wherever its text stands.
proof fn lemma_match_pattern_same(a: Pair, b: Pair)
    requires
        same_but_positions(a, b),
    ensures
        same_outcome(match_pattern_spec(a), match_pattern_spec(b)),
{
    reveal_with_fuel(same_but_positions, 4);
    if a.inner.len() >= 1 && a.inner[0].inner.len() >= 2 {
        lemma_type_same(a.inner[0].inner[1], b.inner[0].inner[1]);
    }
}

/// An expression gives the same, up to areas, wherever its text stands.
proof fn lemma_expression_same(a: Pair, b: Pair)
    requires
        same_but_positions(a, b),
    ensures
        expression_agrees(expression_spec(a), expression_spec(b)),
    decreases a, 2int,
{
    if a.rule == Rule::expression {
        if a.inner.len() >= 1 {
            lemma_expression_kind_same(a.inner[0], b.inner[0], a.span_spec(), b.span_spec());
        }
    } else {
        lemma_expression_kind_same(a, b, a.span_spec(), b.span_spec());
    }
}

/// A block or a single expression gives the same, up to areas, wherever its text stands.
proof fn lemma_expression_kind_same(q: Pair, r: Pair, sq: Span, sr: Span)
    requires
        same_but_positions(q, r),
    ensures
        expression_agrees(expression_kind_spec(q, sq), expression_kind_spec(r, sr)),
    decreases q, 1int,
{
    if q.rule == Rule::block_expression {
        lemma_first_non_statement_same(q.inner@, r.inner@, 0);
        let k = first_non_statement(q.inner@, 0);
        if 0 <= k < q.inner.len() {
            lemma_statements_same(q.inner@, r.inner@, k);
            lemma_expression_same(q.inner[k], r.inner[k]);
        }
    } else if q.rule == Rule::single_expression {
        lemma_single_same(q, r);
    }
}

/// A single expression gives the same, up to areas, wherever its text stands.
proof fn lemma_single_same(a: Pair, b: Pair)
    requires
        same_but_positions(a, b),
    ensures
        single_agrees(single_spec(a), single_spec(b)),
    decreases a, 0int,
{
    reveal_with_fuel(same_but_positions, 3);
    if a.inner.len() >= 1 {
        let c = a.inner[0];
        let d = b.inner[0];
        assert(same_but_positions(c, d));
        match c.rule {
            Rule::left_expr | Rule::right_expr | Rule::some_expr => {
                if c.inner.len() >= 1 {
                    lemma_expression_same(c.inner[0], d.inner[0]);
                }
            },
            Rule::call_expr => lemma_call_same(c, d),
            Rule::expression => lemma_expression_same(c, d),
            Rule::match_expr => lemma_match_same(c, d),
            Rule::tuple_expr | Rule::array_expr | Rule::list_expr => {
                lemma_expressions_same(c.inner@, d.inner@, c.inner.len() as int);
            },
            _ => {},
        }
    }
}

/// A call gives the same, up to areas, wherever its text stands.
proof fn lemma_call_same(a: Pair, b: Pair)
    requires
        same_but_positions(a, b),
    ensures
        call_agrees(call_spec(a), call_spec(b)),
    decreases a, 0int,
{
    reveal_with_fuel(same_but_positions, 2);
    if a.inner.len() >= 2 {
        lemma_call_name_same(a.inner[0], b.inner[0]);
        lemma_expressions_same(a.inner[1].inner@, b.inner[1].inner@, a.inner[1].inner.len() as int);
    }
}

/// A match gives the same, up to areas, wherever its text stands.
proof fn lemma_match_same(a: Pair, b: Pair)
    requires
        same_but_positions(a, b),
    ensures
        match_agrees(match_spec(a), match_spec(b)),
    decreases a, 0int,
{
    if a.inner.len() >= 3 {
        lemma_expression_same(a.inner[0], b.inner[0]);
        lemma_arm_same(a.inner[1], b.inner[1]);
        lemma_arm_same(a.inner[2], b.inner[2]);
    }
}

/// A match arm gives the same, up to areas, wherever its text stands.
proof fn lemma_arm_same(a: Pair, b: Pair)
    requires
        same_but_positions(a, b),
    ensures
        arm_agrees(match_arm_spec(a), match_arm_spec(b)),
    decreases a, 0int,
{
    if a.inner.len() >= 2 {
        lemma_match_pattern_same(a.inner[0], b.inner[0]);
        lemma_expression_same(a.inner[1], b.inner[1]);
    }
}

/// A statement gives the same, up to areas, wherever its text stands.
proof fn lemma_statement_same(a: Pair, b: Pair)
    requires
        same_but_positions(a, b),
    ensures
        statement_agrees(statement_spec(a), statement_spec(b)),
    decreases a, 1int,
{
    reveal_with_fuel(same_but_positions, 3);
    if a.inner.len() >= 1 {
        let c = a.inner[0];
        let d = b.inner[0];
        if c.rule == Rule::assignment {
            if c.inner.len() >= 3 {
                lemma_pattern_same(c.inner[0], d.inner[0]);
                lemma_type_same(c.inner[1], d.inner[1]);
                lemma_expression_same(c.inner[2], d.inner[2]);
            }
        } else if c.rule == Rule::expression {
            lemma_expression_same(c, d);
        } else if c.inner.len() >= 2 {
            lemma_type_same(c.inner[1], d.inner[1]);
        }
    }
}

/// The first `k` expressions give the same, up to areas, wherever their text stands.
proof fn lemma_expressions_same(s: Seq<Pair>, t: Seq<Pair>, k: int)
    requires
        all_same_but_positions(s, t),
    ensures
        expressions_agree(expressions_spec(s, k), expressions_spec(t, k)),
    decreases s, k,
{
    if 0 < k <= s.len() {
        lemma_expressions_same(s, t, k - 1);
        lemma_expression_same(s[k - 1], t[k - 1]);
        if let (Ok(v), Ok(w)) = (expressions_spec(s, k - 1), expressions_spec(t, k - 1)) {
            if let (Ok(x), Ok(y)) = (expression_spec(s[k - 1]), expression_spec(t[k - 1])) {
                assert(v.push(x).drop_last() == v);
                assert(w.push(y).drop_last() == w);
            }
        }
    } else {
        assert(erase_expressions(Seq::empty()) == Seq::<ExpressionView>::empty());
    }
}

/// The first `k` statements give the same, up to areas, wherever their text stands.
proof fn lemma_statements_same(s: Seq<Pair>, t: Seq<Pair>, k: int)
    requires
        all_same_but_positions(s, t),
    ensures
        statements_agree(statements_spec(s, k), statements_spec(t, k)),
    decreases s, k,
{
    if 0 < k <= s.len() {
        lemma_statements_same(s, t, k - 1);
        lemma_statement_same(s[k - 1], t[k - 1]);
        if let (Ok(v), Ok(w)) = (statements_spec(s, k - 1), statements_spec(t, k - 1)) {
            if let (Ok(x), Ok(y)) = (statement_spec(s[k - 1]), statement_spec(t[k - 1])) {
                assert(v.push(x).drop_last() == v);
                assert(w.push(y).drop_last() == w);
            }
        }
    } else {
        assert(erase_statements(Seq::empty()) == Seq::<StatementView>::empty());
    }
}


/// A match whose two arms are exchanged in the text parses alike. Either both parse or
/// neither does; when both do, their left arms have the same pattern, so do their right
/// arms, and the matched expressions and the arms' expressions are the same apart from the
/// areas of the file that they carry.
pub proof fn law_match_arms_exchanged(p: Pair, q: Pair)
    requires
        p.rule == Rule::match_expr,
        q.rule == Rule::match_expr,
        p.inner.len() == 3,
        q.inner.len() == 3,
        same_but_positions(p.inner[0], q.inner[0]),
        same_but_positions(p.inner[1], q.inner[2]),
        same_but_positions(p.inner[2], q.inner[1]),
    ensures
        match_spec(p) is Ok <==> match_spec(q) is Ok,
        match_spec(p) is Ok ==> {
            let m = match_spec(p)->Ok_0;
            let n = match_spec(q)->Ok_0;
            &&& m.left.pattern == n.left.pattern
            &&& m.right.pattern == n.right.pattern
            &&& erase_match(m) == erase_match(n)
        },
{
    lemma_expression_same(p.inner[0], q.inner[0]);
    lemma_arm_same(p.inner[1], q.inner[2]);
    lemma_arm_same(p.inner[2], q.inner[1]);
}

} // verus!
