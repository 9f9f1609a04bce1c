//! The token tree that the grammar produces, and the shape that the
//! parser expects of it.

use vstd::prelude::*;
use crate::span::{Position, Span};
use crate::text::{all_ascii, chars_of, has_prefix, is_ascii_text, starts_with, text_is};

verus! {

/// The rules of the SimplicityHL grammar that the parser reads.
#[allow(non_camel_case_types)]
#[derive(Copy, Clone, Debug, PartialEq, Eq, Structural, Hash)]
pub enum Rule {
    program,
    statement,
    EOI,
    assignment,
    expression,
    type_alias,
    pattern,
    variable_pattern,
    ignore_pattern,
    tuple_pattern,
    array_pattern,
    identifier,
    call_expr,
    call_args,
    call_name,
    jet,
    unwrap_left,
    unwrap_right,
    unwrap,
    block_expression,
    single_expression,
    left_expr,
    right_expr,
    none_expr,
    some_expr,
    false_expr,
    true_expr,
    bit_string,
    byte_string,
    unsigned_decimal,
    witness_expr,
    witness_name,
    variable_expr,
    match_expr,
    match_arm,
    match_pattern,
    left_pattern,
    right_pattern,
    some_pattern,
    none_pattern,
    false_pattern,
    true_pattern,
    tuple_expr,
    array_expr,
    list_expr,
    ty,
    alias_name,
    builtin_alias,
    unsigned_type,
    sum_type,
    option_type,
    boolean_type,
    tuple_type,
    array_type,
    array_size,
    list_type,
    list_bound,
}

/// A pair of matching tokens: a rule that matched, the text that it matched,
/// where that text starts and ends in the file, and the pairs nested in it.
#[derive(Debug)]
pub struct Pair {
    /// The rule that matched.
    pub rule: Rule,
    /// The text that the rule matched.
    pub text: String,
    /// Line where the text starts.
    pub line: usize,
    /// Column where the text starts.
    pub col: usize,
    /// Line where the text ends.
    pub end_line: usize,
    /// Column where the text ends.
    pub end_col: usize,
    /// The pairs nested inside, in order.
    pub inner: Vec<Pair>,
}

/// What an item of a type expression stands for.
#[derive(Copy, Clone, Debug, PartialEq, Eq, Structural)]
pub enum ItemKind {
    /// A type.
    Type,
    /// The size of an array.
    Size,
    /// The bound of a list.
    Bound,
}

/// Rules of an expression.
pub open spec fn is_expression_rule(r: Rule) -> bool {
    r == Rule::expression || r == Rule::block_expression || r == Rule::single_expression
}

/// Rules that a pattern is made of.
pub open spec fn is_pattern_rule(r: Rule) -> bool {
    r == Rule::pattern || r == Rule::variable_pattern || r == Rule::ignore_pattern || r
        == Rule::tuple_pattern || r == Rule::array_pattern
}

/// Rules that a type expression is made of.
pub open spec fn is_type_rule(r: Rule) -> bool {
    r == Rule::ty || r == Rule::alias_name || r == Rule::builtin_alias || r == Rule::unsigned_type
        || r == Rule::sum_type || r == Rule::option_type || r == Rule::boolean_type || r
        == Rule::tuple_type || r == Rule::array_type || r == Rule::array_size || r
        == Rule::list_type || r == Rule::list_bound
}

/// Rules of the kinds of a single expression.
pub open spec fn is_single_rule(r: Rule) -> bool {
    r == Rule::left_expr || r == Rule::right_expr || r == Rule::none_expr || r == Rule::some_expr
        || r == Rule::false_expr || r == Rule::true_expr || r == Rule::call_expr || r
        == Rule::bit_string || r == Rule::byte_string || r == Rule::unsigned_decimal || r
        == Rule::witness_expr || r == Rule::variable_expr || r == Rule::expression || r
        == Rule::match_expr || r == Rule::tuple_expr || r == Rule::array_expr || r
        == Rule::list_expr
}

/// Rules of the kinds of a match pattern.
pub open spec fn is_match_pattern_rule(r: Rule) -> bool {
    r == Rule::left_pattern || r == Rule::right_pattern || r == Rule::some_pattern || r
        == Rule::none_pattern || r == Rule::false_pattern || r == Rule::true_pattern
}

/// Rules of the kinds of a call name.
pub open spec fn is_call_name_rule(r: Rule) -> bool {
    r == Rule::jet || r == Rule::unwrap_left || r == Rule::unwrap_right || r == Rule::unwrap
}

/// The texts of the unsigned integer types.
pub open spec fn is_uint_text(s: Seq<char>) -> bool {
    s == "u1"@ || s == "u2"@ || s == "u4"@ || s == "u8"@ || s == "u16"@ || s == "u32"@ || s
        == "u64"@ || s == "u128"@ || s == "u256"@
}

/// What the item of a type expression stands for: an array size,
/// a list bound, or a type; a parenthesized item stands for what its content stands for.
pub open spec fn item_kind(p: Pair) -> ItemKind
    decreases p,
{
    match p.rule {
        Rule::array_size => ItemKind::Size,
        Rule::list_bound => ItemKind::Bound,
        Rule::ty => if p.inner.len() > 0 {
            item_kind(p.inner[0])
        } else {
            ItemKind::Type
        },
        _ => ItemKind::Type,
    }
}

/// An item of a type expression that stands for a type.
pub open spec fn is_type_item(p: Pair) -> bool {
    is_type_rule(p.rule) && item_kind(p) == ItemKind::Type
}

/// A complete type expression.
pub open spec fn is_type_entry(p: Pair) -> bool {
    p.rule == Rule::ty && item_kind(p) == ItemKind::Type
}

/// The index of the first pair at or after `from` that is not a statement,
/// or the length of `s` if there is none.
pub open spec fn first_non_statement(s: Seq<Pair>, from: int) -> int
    decreases s.len() - from,
{
    if from < 0 || from >= s.len() || s[from].rule != Rule::statement {
        from
    } else {
        first_non_statement(s, from + 1)
    }
}

impl Pair {
    /// Where the text of the pair starts and ends.
    pub open spec fn span_spec(self) -> Span {
        Span {
            start: Position { line: self.line, col: self.col },
            end: Position { line: self.end_line, col: self.end_col },
        }
    }

    /// Lines and columns start at 1, and the text does not end before it starts.
    pub open spec fn span_ok(self) -> bool {
        self.span_spec().start.is_valid() && self.span_spec().end.is_valid()
            && self.span_spec().start.le(self.span_spec().end)
    }

    /// The pairs nested in this one have the rules that this pair's rule calls for.
    pub open spec fn local_ok(self) -> bool {
        let n = self.inner.len();
        match self.rule {
            Rule::program => forall|i: int|
                0 <= i < n ==> (#[trigger] self.inner[i]).rule == Rule::statement
                    || self.inner[i].rule == Rule::EOI,
            Rule::statement => n >= 1 && (self.inner[0].rule == Rule::assignment
                || self.inner[0].rule == Rule::expression || self.inner[0].rule
                == Rule::type_alias),
            Rule::pattern => n >= 1 && is_pattern_rule(self.inner[0].rule),
            Rule::variable_pattern => n >= 1 && self.inner[0].rule == Rule::identifier,
            Rule::tuple_pattern | Rule::array_pattern => forall|i: int|
                0 <= i < n ==> is_pattern_rule((#[trigger] self.inner[i]).rule),
            Rule::assignment => n >= 3 && self.inner[0].rule == Rule::pattern && is_type_entry(
                self.inner[1],
            ) && is_expression_rule(self.inner[2].rule),
            Rule::call_expr => n >= 2 && self.inner[0].rule == Rule::call_name
                && self.inner[1].rule == Rule::call_args,
            Rule::call_args | Rule::tuple_expr | Rule::array_expr | Rule::list_expr => forall|
                i: int,
            |
                0 <= i < n ==> is_expression_rule((#[trigger] self.inner[i]).rule),
            Rule::call_name => n >= 1 && is_call_name_rule(self.inner[0].rule),
            Rule::unwrap_left | Rule::unwrap_right => n >= 1 && is_type_entry(self.inner[0]),
            Rule::jet => starts_with(self.text@, "jet_"@),
            Rule::type_alias => n >= 2 && self.inner[0].rule == Rule::identifier
                && is_type_entry(self.inner[1]),
            Rule::expression => n >= 1 && (self.inner[0].rule == Rule::block_expression
                || self.inner[0].rule == Rule::single_expression),
            Rule::block_expression => {
                let k = first_non_statement(self.inner@, 0);
                k < n && is_expression_rule(self.inner[k].rule)
            },
            Rule::single_expression => n >= 1 && is_single_rule(self.inner[0].rule),
            Rule::left_expr | Rule::right_expr | Rule::some_expr => n >= 1 && is_expression_rule(
                self.inner[0].rule,
            ),
            Rule::witness_expr => n >= 1 && self.inner[0].rule == Rule::witness_name,
            Rule::variable_expr => n >= 1 && self.inner[0].rule == Rule::identifier,
            Rule::match_expr => n >= 3 && is_expression_rule(self.inner[0].rule)
                && self.inner[1].rule == Rule::match_arm && self.inner[2].rule == Rule::match_arm,
            Rule::match_arm => n >= 2 && self.inner[0].rule == Rule::match_pattern
                && is_expression_rule(self.inner[1].rule),
            Rule::match_pattern => n >= 1 && is_match_pattern_rule(self.inner[0].rule),
            Rule::left_pattern | Rule::right_pattern | Rule::some_pattern => n >= 2
                && self.inner[0].rule == Rule::identifier && is_type_entry(self.inner[1]),
            Rule::bit_string => starts_with(self.text@, "0b"@) && all_ascii(self.text@),
            Rule::byte_string => starts_with(self.text@, "0x"@) && all_ascii(self.text@),
            Rule::ty => n >= 1 && is_type_rule(self.inner[0].rule),
            Rule::alias_name => n >= 1 && self.inner[0].rule == Rule::identifier,
            Rule::unsigned_type => is_uint_text(self.text@),
            Rule::sum_type => n >= 2 && is_type_item(self.inner[0]) && is_type_item(
                self.inner[1],
            ),
            Rule::option_type => n >= 1 && is_type_item(self.inner[0]),
            Rule::tuple_type => forall|i: int|
                0 <= i < n ==> is_type_item(#[trigger] self.inner[i]),
            Rule::array_type => n >= 2 && is_type_item(self.inner[0]) && is_type_rule(
                self.inner[1].rule,
            ) && item_kind(self.inner[1]) == ItemKind::Size,
            Rule::list_type => n >= 2 && is_type_item(self.inner[0]) && is_type_rule(
                self.inner[1].rule,
            ) && item_kind(self.inner[1]) == ItemKind::Bound,
            _ => true,
        }
    }

    /// The pair and every pair nested in it have the shape that the grammar gives them.
    pub open spec fn wf(self) -> bool
        decreases self,
    {
        &&& self.span_ok()
        &&& self.local_ok()
        &&& forall|i: int| 0 <= i < self.inner.len() ==> (#[trigger] self.inner[i]).wf()
    }
}

/// Kinds of pairs that every pair nested in one pair must be of.
enum ChildClass {
    StatementOrEnd,
    Pattern,
    Expression,
    TypeItem,
}

spec fn in_class(p: Pair, c: ChildClass) -> bool {
    match c {
        ChildClass::StatementOrEnd => p.rule == Rule::statement || p.rule == Rule::EOI,
        ChildClass::Pattern => is_pattern_rule(p.rule),
        ChildClass::Expression => is_expression_rule(p.rule),
        ChildClass::TypeItem => is_type_item(p),
    }
}

fn expression_rule(r: Rule) -> (res: bool)
    ensures
        res == is_expression_rule(r),
{
    matches!(r, Rule::expression | Rule::block_expression | Rule::single_expression)
}

fn pattern_rule(r: Rule) -> (res: bool)
    ensures
        res == is_pattern_rule(r),
{
    matches!(
        r,
        Rule::pattern | Rule::variable_pattern | Rule::ignore_pattern | Rule::tuple_pattern
            | Rule::array_pattern
    )
}

fn type_rule(r: Rule) -> (res: bool)
    ensures
        res == is_type_rule(r),
{
    matches!(
        r,
        Rule::ty | Rule::alias_name | Rule::builtin_alias | Rule::unsigned_type | Rule::sum_type
            | Rule::option_type | Rule::boolean_type | Rule::tuple_type | Rule::array_type
            | Rule::array_size | Rule::list_type | Rule::list_bound
    )
}

fn single_rule(r: Rule) -> (res: bool)
    ensures
        res == is_single_rule(r),
{
    matches!(
        r,
        Rule::left_expr | Rule::right_expr | Rule::none_expr | Rule::some_expr | Rule::false_expr
            | Rule::true_expr | Rule::call_expr | Rule::bit_string | Rule::byte_string
            | Rule::unsigned_decimal | Rule::witness_expr | Rule::variable_expr | Rule::expression
            | Rule::match_expr | Rule::tuple_expr | Rule::array_expr | Rule::list_expr
    )
}

fn match_pattern_rule(r: Rule) -> (res: bool)
    ensures
        res == is_match_pattern_rule(r),
{
    matches!(
        r,
        Rule::left_pattern | Rule::right_pattern | Rule::some_pattern | Rule::none_pattern
            | Rule::false_pattern | Rule::true_pattern
    )
}

fn call_name_rule(r: Rule) -> (res: bool)
    ensures
        res == is_call_name_rule(r),
{
    matches!(r, Rule::jet | Rule::unwrap_left | Rule::unwrap_right | Rule::unwrap)
}

fn uint_text(s: &[char]) -> (res: bool)
    ensures
        res == is_uint_text(s@),
{
    text_is(s, "u1") || text_is(s, "u2") || text_is(s, "u4") || text_is(s, "u8") || text_is(
        s,
        "u16",
    ) || text_is(s, "u32") || text_is(s, "u64") || text_is(s, "u128") || text_is(s, "u256")
}

/// What the item `p` of a type expression stands for.
pub fn kind_of_item(p: &Pair) -> (res: ItemKind)
    ensures
        res == item_kind(*p),
    decreases p,
{
    match p.rule {
        Rule::array_size => ItemKind::Size,
        Rule::list_bound => ItemKind::Bound,
        Rule::ty => if p.inner.len() > 0 {
            kind_of_item(&p.inner[0])
        } else {
            ItemKind::Type
        },
        _ => ItemKind::Type,
    }
}

fn type_item(p: &Pair) -> (res: bool)
    ensures
        res == is_type_item(*p),
{
    type_rule(p.rule) && kind_of_item(p) == ItemKind::Type
}

fn type_entry(p: &Pair) -> (res: bool)
    ensures
        res == is_type_entry(*p),
{
    p.rule == Rule::ty && kind_of_item(p) == ItemKind::Type
}

fn in_class_exec(p: &Pair, c: &ChildClass) -> (res: bool)
    ensures
        res == in_class(*p, *c),
{
    match c {
        ChildClass::StatementOrEnd => p.rule == Rule::statement || p.rule == Rule::EOI,
        ChildClass::Pattern => pattern_rule(p.rule),
        ChildClass::Expression => expression_rule(p.rule),
        ChildClass::TypeItem => type_item(p),
    }
}

impl Pair {
    fn all_children_in(&self, c: ChildClass) -> (res: bool)
        ensures
            res == forall|i: int| 0 <= i < self.inner.len() ==> in_class(#[trigger] self.inner[i], c),
    {
        let mut i: usize = 0;
        while i < self.inner.len()
            invariant
                i <= self.inner.len(),
                forall|j: int| 0 <= j < i ==> in_class(#[trigger] self.inner[j], c),
            decreases self.inner.len() - i,
        {
            if !in_class_exec(&self.inner[i], &c) {
                return false;
            }
            i = i + 1;
        }
        true
    }

    /// The index of the first nested pair that is not a statement.
    fn leading_statements(&self) -> (res: usize)
        ensures
            res == first_non_statement(self.inner@, 0),
    {
        let n = self.inner.len();
        let mut k: usize = 0;
        while k < n && self.inner[k].rule == Rule::statement
            invariant
                k <= n,
                n == self.inner.len(),
                first_non_statement(self.inner@, k as int) == first_non_statement(self.inner@, 0),
            decreases n - k,
        {
            k = k + 1;
        }
        k
    }

    /// The local shape of programs, statements, patterns, assignments, calls and lists.
    fn local_check_statements_and_lists(&self) -> (res: bool)
        requires
            self.rule == Rule::program
                || self.rule == Rule::statement
                || self.rule == Rule::pattern
                || self.rule == Rule::variable_pattern
                || self.rule == Rule::tuple_pattern
                || self.rule == Rule::array_pattern
                || self.rule == Rule::assignment
                || self.rule == Rule::call_expr
                || self.rule == Rule::call_args
                || self.rule == Rule::tuple_expr
                || self.rule == Rule::array_expr
                || self.rule == Rule::list_expr,
        ensures
            res == self.local_ok(),
    {
        let n = self.inner.len();
        match self.rule {
            Rule::program => self.all_children_in(ChildClass::StatementOrEnd),
            Rule::statement => n >= 1 && (self.inner[0].rule == Rule::assignment
                || self.inner[0].rule == Rule::expression || self.inner[0].rule
                == Rule::type_alias),
            Rule::pattern => n >= 1 && pattern_rule(self.inner[0].rule),
            Rule::variable_pattern => n >= 1 && self.inner[0].rule == Rule::identifier,
            Rule::tuple_pattern | Rule::array_pattern => self.all_children_in(ChildClass::Pattern),
            Rule::assignment => n >= 3 && self.inner[0].rule == Rule::pattern && type_entry(
                &self.inner[1],
            ) && expression_rule(self.inner[2].rule),
            Rule::call_expr => n >= 2 && self.inner[0].rule == Rule::call_name
                && self.inner[1].rule == Rule::call_args,
            Rule::call_args | Rule::tuple_expr | Rule::array_expr | Rule::list_expr => {
                self.all_children_in(ChildClass::Expression)
            },
            _ => true,
        }
    }

    /// The local shape of call names, type aliases and expressions that wrap others.
    fn local_check_names_and_blocks(&self) -> (res: bool)
        requires
            self.rule == Rule::call_name
                || self.rule == Rule::unwrap_left
                || self.rule == Rule::unwrap_right
                || self.rule == Rule::jet
                || self.rule == Rule::type_alias
                || self.rule == Rule::expression
                || self.rule == Rule::block_expression
                || self.rule == Rule::single_expression
                || self.rule == Rule::left_expr
                || self.rule == Rule::right_expr
                || self.rule == Rule::some_expr,
        ensures
            res == self.local_ok(),
    {
        let n = self.inner.len();
        match self.rule {
            Rule::call_name => n >= 1 && call_name_rule(self.inner[0].rule),
            Rule::unwrap_left | Rule::unwrap_right => n >= 1 && type_entry(&self.inner[0]),
            Rule::jet => {
                let t = chars_of(self.text.as_str());
                has_prefix(t.as_slice(), "jet_")
            },
            Rule::type_alias => n >= 2 && self.inner[0].rule == Rule::identifier && type_entry(
                &self.inner[1],
            ),
            Rule::expression => n >= 1 && (self.inner[0].rule == Rule::block_expression
                || self.inner[0].rule == Rule::single_expression),
            Rule::block_expression => {
                let k = self.leading_statements();
                k < n && expression_rule(self.inner[k].rule)
            },
            Rule::single_expression => n >= 1 && single_rule(self.inner[0].rule),
            Rule::left_expr | Rule::right_expr | Rule::some_expr => n >= 1 && expression_rule(
                self.inner[0].rule,
            ),
            _ => true,
        }
    }

    /// The local shape of witnesses, variables, matches and literals.
    fn local_check_matches_and_literals(&self) -> (res: bool)
        requires
            self.rule == Rule::witness_expr
                || self.rule == Rule::variable_expr
                || self.rule == Rule::match_expr
                || self.rule == Rule::match_arm
                || self.rule == Rule::match_pattern
                || self.rule == Rule::left_pattern
                || self.rule == Rule::right_pattern
                || self.rule == Rule::some_pattern
                || self.rule == Rule::bit_string
                || self.rule == Rule::byte_string,
        ensures
            res == self.local_ok(),
    {
        let n = self.inner.len();
        match self.rule {
            Rule::witness_expr => n >= 1 && self.inner[0].rule == Rule::witness_name,
            Rule::variable_expr => n >= 1 && self.inner[0].rule == Rule::identifier,
            Rule::match_expr => n >= 3 && expression_rule(self.inner[0].rule)
                && self.inner[1].rule == Rule::match_arm && self.inner[2].rule == Rule::match_arm,
            Rule::match_arm => n >= 2 && self.inner[0].rule == Rule::match_pattern
                && expression_rule(self.inner[1].rule),
            Rule::match_pattern => n >= 1 && match_pattern_rule(self.inner[0].rule),
            Rule::left_pattern | Rule::right_pattern | Rule::some_pattern => n >= 2
                && self.inner[0].rule == Rule::identifier && type_entry(&self.inner[1]),
            Rule::bit_string => {
                let t = chars_of(self.text.as_str());
                has_prefix(t.as_slice(), "0b") && is_ascii_text(t.as_slice())
            },
            Rule::byte_string => {
                let t = chars_of(self.text.as_str());
                has_prefix(t.as_slice(), "0x") && is_ascii_text(t.as_slice())
            },
            _ => true,
        }
    }

    /// The local shape of pairs of the rules of statements, patterns and expressions.
    fn local_check_expression(&self) -> (res: bool)
        requires
            !is_type_rule(self.rule),
        ensures
            res == self.local_ok(),
    {
        match self.rule {
            Rule::program | Rule::statement | Rule::pattern | Rule::variable_pattern
                | Rule::tuple_pattern | Rule::array_pattern | Rule::assignment | Rule::call_expr
                | Rule::call_args | Rule::tuple_expr | Rule::array_expr | Rule::list_expr => {
                self.local_check_statements_and_lists()
            },
            Rule::call_name | Rule::unwrap_left | Rule::unwrap_right | Rule::jet
                | Rule::type_alias | Rule::expression | Rule::block_expression
                | Rule::single_expression | Rule::left_expr | Rule::right_expr | Rule::some_expr => {
                self.local_check_names_and_blocks()
            },
            Rule::witness_expr | Rule::variable_expr | Rule::match_expr | Rule::match_arm
                | Rule::match_pattern | Rule::left_pattern | Rule::right_pattern
                | Rule::some_pattern | Rule::bit_string | Rule::byte_string => {
                self.local_check_matches_and_literals()
            },
            _ => true,
        }
    }

    /// The local shape of pairs of the rules of type expressions.
    fn local_check_type(&self) -> (res: bool)
        requires
            is_type_rule(self.rule),
        ensures
            res == self.local_ok(),
    {
        let n = self.inner.len();
        match self.rule {
            Rule::ty => n >= 1 && type_rule(self.inner[0].rule),
            Rule::alias_name => n >= 1 && self.inner[0].rule == Rule::identifier,
            Rule::unsigned_type => {
                let t = chars_of(self.text.as_str());
                uint_text(t.as_slice())
            },
            Rule::sum_type => n >= 2 && type_item(&self.inner[0]) && type_item(&self.inner[1]),
            Rule::option_type => n >= 1 && type_item(&self.inner[0]),
            Rule::tuple_type => self.all_children_in(ChildClass::TypeItem),
            Rule::array_type => n >= 2 && type_item(&self.inner[0]) && type_rule(
                self.inner[1].rule,
            ) && kind_of_item(&self.inner[1]) == ItemKind::Size,
            Rule::list_type => n >= 2 && type_item(&self.inner[0]) && type_rule(
                self.inner[1].rule,
            ) && kind_of_item(&self.inner[1]) == ItemKind::Bound,
            _ => true,
        }
    }

    /// Whether the pairs nested in this one have the rules that its rule calls for.
    fn local_check(&self) -> (res: bool)
        ensures
            res == self.local_ok(),
    {
        if type_rule(self.rule) {
            self.local_check_type()
        } else {
            self.local_check_expression()
        }
    }

    /// Whether the pair and every pair nested in it have the shape that the grammar gives them.
    pub fn is_well_formed(&self) -> (res: bool)
        ensures
            res == self.wf(),
        decreases self,
    {
        let span_ok = self.line >= 1 && self.col >= 1 && self.end_line >= 1 && self.end_col >= 1
            && (self.line < self.end_line || (self.line == self.end_line && self.col
            <= self.end_col));
        if !span_ok || !self.local_check() {
            return false;
        }
        let mut i: usize = 0;
        while i < self.inner.len()
            invariant
                i <= self.inner.len(),
                forall|j: int| 0 <= j < i ==> (#[trigger] self.inner[j]).wf(),
            decreases self.inner.len() - i,
        {
            if !self.inner[i].is_well_formed() {
                return false;
            }
            i = i + 1;
        }
        true
    }
}

} // verus!
