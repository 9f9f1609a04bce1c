//! The abstract syntax tree of a SimplicityHL program.

use vstd::prelude::*;
use crate::span::Span;
use crate::text::is_power_of_two;
use vstd::string::StringExecFns;
use crate::types::{type_text, AliasedType, TypeView};
use crate::pattern::{Pattern, PatternView};

verus! {

/// Identifier of a variable.
#[derive(Clone, Debug, PartialEq, Eq, PartialOrd, Ord, Hash)]
pub struct Identifier(String);

impl View for Identifier {
    type V = Seq<char>;

    closed spec fn view(&self) -> Seq<char> {
        self.0@
    }
}

impl Identifier {
    /// The text of the identifier, as it is displayed.
    pub fn to_string(&self) -> (res: String)
        ensures
            res@ == self@,
    {
        self.0.clone()
    }

    /// The identifier made of the text `s`.
    pub(crate) fn new(s: String) -> (res: Self)
        ensures
            res@ == s@,
    {
        Identifier(s)
    }

    /// An identifier made of the text `str`, which is not checked.
    pub fn from_str_unchecked(str: &str) -> (res: Self)
        ensures
            res@ == str@,
    {
        Identifier(str.to_owned())
    }

    /// Access the inner name.
    pub fn as_inner(&self) -> (res: &str)
        ensures
            res@ == self@,
    {
        self.0.as_str()
    }

    /// A copy of the identifier.
    pub fn copy(&self) -> (res: Self)
        ensures
            res@ == self@,
    {
        Identifier(self.0.clone())
    }
}

/// String that is a jet name.
#[derive(Clone, Debug, PartialEq, Eq, PartialOrd, Ord, Hash)]
pub struct JetName(String);

impl View for JetName {
    type V = Seq<char>;

    closed spec fn view(&self) -> Seq<char> {
        self.0@
    }
}

impl JetName {
    /// The text of the jet name, as it is displayed.
    pub fn to_string(&self) -> (res: String)
        ensures
            res@ == self@,
    {
        self.0.clone()
    }

    /// The name made of the text `s`.
    pub(crate) fn new(s: String) -> (res: Self)
        ensures
            res@ == s@,
    {
        JetName(s)
    }

    /// Access the inner jet name.
    pub fn as_inner(&self) -> (res: &str)
        ensures
            res@ == self@,
    {
        self.0.as_str()
    }
}

/// Valid unsigned decimal string.
#[derive(Clone, Debug, PartialEq, Eq, PartialOrd, Ord, Hash)]
pub struct UnsignedDecimal(String);

impl View for UnsignedDecimal {
    type V = Seq<char>;

    closed spec fn view(&self) -> Seq<char> {
        self.0@
    }
}

impl UnsignedDecimal {
    /// The text of the decimal string, as it is displayed.
    pub fn to_string(&self) -> (res: String)
        ensures
            res@ == self@,
    {
        self.0.clone()
    }

    /// The name made of the text `s`.
    pub(crate) fn new(s: String) -> (res: Self)
        ensures
            res@ == s@,
    {
        UnsignedDecimal(s)
    }

    /// Access the inner decimal string.
    pub fn as_inner(&self) -> (res: &str)
        ensures
            res@ == self@,
    {
        self.0.as_str()
    }
}

/// String that is a witness name.
#[derive(Clone, Debug, PartialEq, Eq, PartialOrd, Ord, Hash)]
pub struct WitnessName(String);

impl View for WitnessName {
    type V = Seq<char>;

    closed spec fn view(&self) -> Seq<char> {
        self.0@
    }
}

impl WitnessName {
    /// The text of the witness name, as it is displayed.
    pub fn to_string(&self) -> (res: String)
        ensures
            res@ == self@,
    {
        self.0.clone()
    }

    /// The name made of the text `s`.
    pub(crate) fn new(s: String) -> (res: Self)
        ensures
            res@ == s@,
    {
        WitnessName(s)
    }

    /// Access the inner witness name.
    pub fn as_inner(&self) -> (res: &str)
        ensures
            res@ == self@,
    {
        self.0.as_str()
    }
}

/// Byte string whose length is a power of two.
///
/// There is at least 1 byte.
/// There are at most 32 bytes.
#[derive(Debug, PartialEq, Eq, PartialOrd, Ord, Hash)]
pub struct Bytes(Vec<u8>);

impl View for Bytes {
    type V = Seq<u8>;

    closed spec fn view(&self) -> Seq<u8> {
        self.0@
    }
}

/// A byte string of a length that a `Bytes` may have.
pub open spec fn valid_byte_string(bytes: Seq<u8>) -> bool {
    1 <= bytes.len() <= 32 && is_power_of_two(bytes.len())
}

impl Bytes {
    #[verifier::type_invariant]
    spec fn inv(self) -> bool {
        valid_byte_string(self.0@)
    }

    /// The byte string `bytes`, which has a length that a `Bytes` may have.
    pub(crate) fn new(bytes: Vec<u8>) -> (res: Self)
        requires
            valid_byte_string(bytes@),
        ensures
            res@ == bytes@,
    {
        Bytes(bytes)
    }

    /// Access the bytes.
    pub fn as_ref(&self) -> (res: &[u8])
        ensures
            res@ == self@,
            valid_byte_string(res@),
    {
        proof {
            use_type_invariant(self);
        }
        self.0.as_slice()
    }
}

/// Bit string whose length is a power of two.
///
/// There is at least 1 bit.
/// There are at most 256 bits.
#[derive(Debug, PartialEq, Eq, Hash)]
pub struct Bits(BitsInner);

/// Private enum that upholds invariants about its values.
#[derive(Debug, PartialEq, Eq, Hash)]
enum BitsInner {
    /// Least significant bit of byte.
    U1(u8),
    /// Two least significant bits of byte.
    U2(u8),
    /// Four least significant bits of byte.
    U4(u8),
    /// All bits from byte string: from 1 to 32 bytes.
    Long(Vec<u8>),
}

/// What a bit string holds.
pub enum BitsView {
    /// A 1-bit value.
    U1(u8),
    /// A 2-bit value.
    U2(u8),
    /// A 4-bit value.
    U4(u8),
    /// A value of 8 to 256 bits, as bytes.
    Long(Seq<u8>),
}

/// What a bit string may hold: a value that fits in its width,
/// or from 1 to 32 bytes, a power of two of them.
pub open spec fn valid_bits(b: BitsView) -> bool {
    match b {
        BitsView::U1(x) => x <= 1,
        BitsView::U2(x) => x <= 3,
        BitsView::U4(x) => x <= 15,
        BitsView::Long(bytes) => valid_byte_string(bytes),
    }
}

impl View for Bits {
    type V = BitsView;

    closed spec fn view(&self) -> BitsView {
        match self.0 {
            BitsInner::U1(x) => BitsView::U1(x),
            BitsInner::U2(x) => BitsView::U2(x),
            BitsInner::U4(x) => BitsView::U4(x),
            BitsInner::Long(v) => BitsView::Long(v@),
        }
    }
}

impl Bits {
    #[verifier::type_invariant]
    spec fn inv(self) -> bool {
        valid_bits(self@)
    }

    /// A 1-bit value.
    pub(crate) fn u1(x: u8) -> (res: Self)
        requires
            x <= 1,
        ensures
            res@ == BitsView::U1(x),
    {
        Bits(BitsInner::U1(x))
    }

    /// A 2-bit value.
    pub(crate) fn u2(x: u8) -> (res: Self)
        requires
            x <= 3,
        ensures
            res@ == BitsView::U2(x),
    {
        Bits(BitsInner::U2(x))
    }

    /// A 4-bit value.
    pub(crate) fn u4(x: u8) -> (res: Self)
        requires
            x <= 15,
        ensures
            res@ == BitsView::U4(x),
    {
        Bits(BitsInner::U4(x))
    }

    /// A value of 8 to 256 bits.
    pub(crate) fn long(bytes: Vec<u8>) -> (res: Self)
        requires
            valid_byte_string(bytes@),
        ensures
            res@ == BitsView::Long(bytes@),
    {
        Bits(BitsInner::Long(bytes))
    }

    /// Access the contained 1-bit value,
    /// represented by a [`u8`] integer that is always less than or equal to 1.
    pub fn as_u1(&self) -> (res: Option<u8>)
        ensures
            res == (match self@ {
                BitsView::U1(x) => Some(x),
                _ => None,
            }),
            res matches Some(x) ==> x <= 1,
    {
        proof {
            use_type_invariant(self);
        }
        match self.0 {
            BitsInner::U1(byte) => Some(byte),
            _ => None,
        }
    }

    /// Access the contained 2-bit value,
    /// represented by a [`u8`] integer that is always less than or equal to 3.
    pub fn as_u2(&self) -> (res: Option<u8>)
        ensures
            res == (match self@ {
                BitsView::U2(x) => Some(x),
                _ => None,
            }),
            res matches Some(x) ==> x <= 3,
    {
        proof {
            use_type_invariant(self);
        }
        match self.0 {
            BitsInner::U2(byte) => Some(byte),
            _ => None,
        }
    }

    /// Access the contained 4-bit value,
    /// represented by a [`u8`] integer that is always less than or equal to 15.
    pub fn as_u4(&self) -> (res: Option<u8>)
        ensures
            res == (match self@ {
                BitsView::U4(x) => Some(x),
                _ => None,
            }),
            res matches Some(x) ==> x <= 15,
    {
        proof {
            use_type_invariant(self);
        }
        match self.0 {
            BitsInner::U4(byte) => Some(byte),
            _ => None,
        }
    }

    /// Access the contained value that is between 8 and 256 bits long,
    /// represented by a slice that is between 1 and 32 bytes long.
    pub fn as_long(&self) -> (res: Option<&[u8]>)
        ensures
            match self@ {
                BitsView::Long(bytes) => res matches Some(s) && s@ == bytes,
                _ => res is None,
            },
            res matches Some(s) ==> 1 <= s@.len() <= 32 && is_power_of_two(s@.len()),
    {
        proof {
            use_type_invariant(self);
        }
        match &self.0 {
            BitsInner::Long(bytes) => Some(bytes.as_slice()),
            _ => None,
        }
    }
}

/// A value of one of two kinds.
#[derive(Clone, Debug, PartialEq, Eq, Hash)]
pub enum Either<L, R> {
    /// A value of the left kind.
    Left(L),
    /// A value of the right kind.
    Right(R),
}

/// Pattern of a match arm.
#[derive(Debug, PartialEq, Eq, Hash)]
pub enum MatchPattern {
    /// Bind inner value of left value to variable name.
    Left(Identifier, AliasedType),
    /// Bind inner value of right value to variable name.
    Right(Identifier, AliasedType),
    /// Match none value (no binding).
    NoneValue,
    /// Bind inner value of some value to variable name.
    SomeValue(Identifier, AliasedType),
    /// Match false value (no binding).
    False,
    /// Match true value (no binding).
    True,
}

/// A match pattern as the mathematical value that it stands for.
pub enum MatchPatternView {
    Left(Seq<char>, TypeView),
    Right(Seq<char>, TypeView),
    NoneValue,
    SomeValue(Seq<char>, TypeView),
    False,
    True,
}

impl View for MatchPattern {
    type V = MatchPatternView;

    open spec fn view(&self) -> MatchPatternView {
        match self {
            MatchPattern::Left(i, t) => MatchPatternView::Left(i@, t@),
            MatchPattern::Right(i, t) => MatchPatternView::Right(i@, t@),
            MatchPattern::NoneValue => MatchPatternView::NoneValue,
            MatchPattern::SomeValue(i, t) => MatchPatternView::SomeValue(i@, t@),
            MatchPattern::False => MatchPatternView::False,
            MatchPattern::True => MatchPatternView::True,
        }
    }
}

impl MatchPatternView {
    /// The name and the type of the variable that the pattern binds, if it binds one.
    pub open spec fn typed_variable(self) -> Option<(Seq<char>, TypeView)> {
        match self {
            MatchPatternView::Left(i, t) => Some((i, t)),
            MatchPatternView::Right(i, t) => Some((i, t)),
            MatchPatternView::SomeValue(i, t) => Some((i, t)),
            _ => None,
        }
    }
}

/// The text of the match pattern `p`, as it is displayed: the variant, then the name and the
/// type of the variable that it binds, if it binds one. No closing parenthesis follows the
/// type.
pub open spec fn match_pattern_text(p: MatchPatternView) -> Seq<char> {
    match p {
        MatchPatternView::Left(i, t) => "Left("@ + i + ": "@ + type_text(t),
        MatchPatternView::Right(i, t) => "Right("@ + i + ": "@ + type_text(t),
        MatchPatternView::NoneValue => "None"@,
        MatchPatternView::SomeValue(i, t) => "Some("@ + i + ": "@ + type_text(t),
        MatchPatternView::False => "false"@,
        MatchPatternView::True => "true"@,
    }
}

impl MatchPattern {
    /// The text of the pattern, as it is displayed.
    pub fn to_string(&self) -> (res: String)
        ensures
            res@ == match_pattern_text(self@),
    {
        match self {
            MatchPattern::Left(i, ty) => {
                let mut s = String::from_str("Left(");
                s.append(i.as_inner());
                s.append(": ");
                s.append(ty.to_string().as_str());
                s
            },
            MatchPattern::Right(i, ty) => {
                let mut s = String::from_str("Right(");
                s.append(i.as_inner());
                s.append(": ");
                s.append(ty.to_string().as_str());
                s
            },
            MatchPattern::NoneValue => String::from_str("None"),
            MatchPattern::SomeValue(i, ty) => {
                let mut s = String::from_str("Some(");
                s.append(i.as_inner());
                s.append(": ");
                s.append(ty.to_string().as_str());
                s
            },
            MatchPattern::False => String::from_str("false"),
            MatchPattern::True => String::from_str("true"),
        }
    }

    /// Access the identifier of a pattern that binds a variable.
    pub fn as_variable(&self) -> (res: Option<&Identifier>)
        ensures
            match self@.typed_variable() {
                Some((name, _)) => res matches Some(i) && i@ == name,
                None => res is None,
            },
    {
        match self {
            MatchPattern::Left(i, _) | MatchPattern::Right(i, _) | MatchPattern::SomeValue(i, _) => {
                Some(i)
            },
            MatchPattern::NoneValue | MatchPattern::False | MatchPattern::True => None,
        }
    }

    /// Access the identifier and the type of a pattern that binds a variable.
    pub fn as_typed_variable(&self) -> (res: Option<(&Identifier, &AliasedType)>)
        ensures
            match self@.typed_variable() {
                Some((name, ty)) => res matches Some((i, t)) && i@ == name && t@ == ty,
                None => res is None,
            },
    {
        match self {
            MatchPattern::Left(i, ty) | MatchPattern::Right(i, ty) | MatchPattern::SomeValue(i, ty) => {
                Some((i, ty))
            },
            MatchPattern::NoneValue | MatchPattern::False | MatchPattern::True => None,
        }
    }
}

/// The left and the right arm of a match fit together: they match the left and the right
/// value of a sum, none and some value of an option, or false and true.
pub open spec fn arms_fit(left: MatchPatternView, right: MatchPatternView) -> bool {
    ||| left is Left && right is Right
    ||| left is NoneValue && right is SomeValue
    ||| left is False && right is True
}

/// The type of the value that arms that fit together match.
pub open spec fn scrutinee_type_of(left: MatchPatternView, right: MatchPatternView) -> TypeView {
    match (left, right) {
        (MatchPatternView::Left(_, l), MatchPatternView::Right(_, r)) => TypeView::Either(
            Box::new(l),
            Box::new(r),
        ),
        (MatchPatternView::NoneValue, MatchPatternView::SomeValue(_, r)) => TypeView::Option(Box::new(r)),
        _ => TypeView::Boolean,
    }
}

/// A complete simplicity program.
#[derive(Debug, PartialEq, Eq, Hash)]
pub struct Program {
    /// The statements in the program.
    pub statements: Vec<Statement>,
}

/// A statement in a simplicity program.
#[derive(Debug, PartialEq, Eq, Hash)]
pub enum Statement {
    /// A declaration of variables inside a pattern.
    Assignment(Assignment),
    /// An expression that returns nothing (the unit value).
    Expression(Expression),
    /// A type alias.
    TypeAlias(TypeAlias),
}

/// The output of an expression is assigned to a pattern.
#[derive(Debug, PartialEq, Eq, Hash)]
pub struct Assignment {
    /// The pattern.
    pub pattern: Pattern,
    /// The return type of the expression.
    pub ty: AliasedType,
    /// The expression.
    pub expression: Expression,
    /// Area that this assignment spans in the source file.
    pub span: Span,
}

/// Call expression.
#[derive(Debug, PartialEq, Eq, Hash)]
pub struct Call {
    /// The name of the call.
    pub name: CallName,
    /// The arguments to the call.
    pub args: Vec<Expression>,
    /// Area that this call spans in the source file.
    pub span: Span,
}

/// Name of a call.
#[derive(Debug, PartialEq, Eq, Hash)]
pub enum CallName {
    /// Name of a jet.
    Jet(JetName),
    /// Left unwrap function.
    UnwrapLeft(AliasedType),
    /// Right unwrap function.
    UnwrapRight(AliasedType),
    /// Some unwrap function.
    Unwrap,
}

/// A type alias.
#[derive(Debug, PartialEq, Eq, Hash)]
pub struct TypeAlias {
    /// Name of the alias.
    pub name: Identifier,
    /// Type that the alias resolves to.
    ///
    /// During the parsing stage, these types may include aliases.
    pub ty: AliasedType,
    /// Area that the alias spans in the source file.
    pub span: Span,
}

/// An expression is something that returns a value.
#[derive(Debug, PartialEq, Eq, Hash)]
pub struct Expression {
    /// The kind of expression
    pub inner: ExpressionInner,
    /// Area that this expression spans in the source file.
    pub span: Span,
}

/// The kind of expression.
#[derive(Debug, PartialEq, Eq, Hash)]
pub enum ExpressionInner {
    /// A block expression executes a series of statements
    /// and returns the value of the final expression.
    Block(Vec<Statement>, Box<Expression>),
    /// A single expression directly returns a value.
    Single(SingleExpression),
}

/// A single expression directly returns a value.
#[derive(Debug, PartialEq, Eq, Hash)]
pub struct SingleExpression {
    /// The kind of single expression
    pub inner: SingleExpressionInner,
    /// Area that this expression spans in the source file.
    pub span: Span,
}

/// The kind of single expression.
#[derive(Debug, PartialEq, Eq, Hash)]
pub enum SingleExpressionInner {
    /// Either wrapper expression
    Either(Either<Box<Expression>, Box<Expression>>),
    /// Option wrapper expression
    Option(Option<Box<Expression>>),
    /// Boolean literal expression
    Boolean(bool),
    /// Unsigned integer literal in decimal representation
    Decimal(UnsignedDecimal),
    /// Unsigned integer literal in bit string representation
    BitString(Bits),
    /// Unsigned integer literal in byte string representation
    ByteString(Bytes),
    /// Witness identifier expression
    Witness(WitnessName),
    /// Variable identifier expression
    Variable(Identifier),
    /// Function call
    Call(Call),
    /// Expression in parentheses
    Expression(Box<Expression>),
    /// Match expression over a sum type
    Match(Match),
    /// Tuple wrapper expression
    Tuple(Vec<Expression>),
    /// Array wrapper expression
    Array(Vec<Expression>),
    /// List wrapper expression
    ///
    /// The exclusive upper bound on the list size is not known at this point
    List(Vec<Expression>),
}

/// Match expression.
#[derive(Debug, PartialEq, Eq, Hash)]
pub struct Match {
    /// Expression whose output is matched.
    scrutinee: Box<Expression>,
    /// Match arm for left sum values.
    left: MatchArm,
    /// Match arm for right sum values.
    right: MatchArm,
    /// Area that the match spans in the source file.
    span: Span,
}

/// Arm of a match expression.
#[derive(Debug, PartialEq, Eq, Hash)]
pub struct MatchArm {
    /// Matched pattern
    pub pattern: MatchPattern,
    /// Executed expression
    pub expression: Box<Expression>,
}

/// What a call name stands for.
pub enum CallNameView {
    Jet(Seq<char>),
    UnwrapLeft(TypeView),
    UnwrapRight(TypeView),
    Unwrap,
}

impl View for CallName {
    type V = CallNameView;

    open spec fn view(&self) -> CallNameView {
        match self {
            CallName::Jet(j) => CallNameView::Jet(j@),
            CallName::UnwrapLeft(t) => CallNameView::UnwrapLeft(t@),
            CallName::UnwrapRight(t) => CallNameView::UnwrapRight(t@),
            CallName::Unwrap => CallNameView::Unwrap,
        }
    }
}

/// What a type alias stands for.
pub struct TypeAliasView {
    pub name: Seq<char>,
    pub ty: TypeView,
    pub span: Span,
}

impl View for TypeAlias {
    type V = TypeAliasView;

    open spec fn view(&self) -> TypeAliasView {
        TypeAliasView { name: self.name@, ty: self.ty@, span: self.span }
    }
}

/// What an expression stands for.
pub struct ExpressionView {
    pub inner: ExpressionInnerView,
    pub span: Span,
}

/// What the kind of an expression stands for.
pub enum ExpressionInnerView {
    Block(Seq<StatementView>, Box<ExpressionView>),
    Single(SingleExpressionView),
}

/// What a single expression stands for.
pub struct SingleExpressionView {
    pub inner: SingleExpressionInnerView,
    pub span: Span,
}

/// What the kind of a single expression stands for.
pub enum SingleExpressionInnerView {
    Either(Either<Box<ExpressionView>, Box<ExpressionView>>),
    Option(Option<Box<ExpressionView>>),
    Boolean(bool),
    Decimal(Seq<char>),
    BitString(BitsView),
    ByteString(Seq<u8>),
    Witness(Seq<char>),
    Variable(Seq<char>),
    Call(CallView),
    Expression(Box<ExpressionView>),
    Match(MatchView),
    Tuple(Seq<ExpressionView>),
    Array(Seq<ExpressionView>),
    List(Seq<ExpressionView>),
}

/// What a call stands for.
pub struct CallView {
    pub name: CallNameView,
    pub args: Seq<ExpressionView>,
    pub span: Span,
}

/// What a match expression stands for.
pub struct MatchView {
    pub scrutinee: Box<ExpressionView>,
    pub left: MatchArmView,
    pub right: MatchArmView,
    pub span: Span,
}

/// What a match arm stands for.
pub struct MatchArmView {
    pub pattern: MatchPatternView,
    pub expression: Box<ExpressionView>,
}

/// What a statement stands for.
pub enum StatementView {
    Assignment(AssignmentView),
    Expression(ExpressionView),
    TypeAlias(TypeAliasView),
}

/// What an assignment stands for.
pub struct AssignmentView {
    pub pattern: PatternView,
    pub ty: TypeView,
    pub expression: ExpressionView,
    pub span: Span,
}

/// What the expression `e` stands for.
pub open spec fn expression_view(e: Expression) -> ExpressionView
    decreases e,
{
    ExpressionView { inner: expression_inner_view(e.inner), span: e.span }
}

/// What the kind of expression `i` stands for.
pub open spec fn expression_inner_view(i: ExpressionInner) -> ExpressionInnerView
    decreases i,
{
    match i {
        ExpressionInner::Block(stmts, e) => ExpressionInnerView::Block(
            statements_view(stmts@),
            Box::new(expression_view(*e)),
        ),
        ExpressionInner::Single(s) => ExpressionInnerView::Single(single_expression_view(s)),
    }
}

/// What the single expression `s` stands for.
pub open spec fn single_expression_view(s: SingleExpression) -> SingleExpressionView
    decreases s,
{
    SingleExpressionView { inner: single_inner_view(s.inner), span: s.span }
}

/// What the kind of single expression `i` stands for.
pub open spec fn single_inner_view(i: SingleExpressionInner) -> SingleExpressionInnerView
    decreases i,
{
    match i {
        SingleExpressionInner::Either(Either::Left(e)) => SingleExpressionInnerView::Either(
            Either::Left(Box::new(expression_view(*e))),
        ),
        SingleExpressionInner::Either(Either::Right(e)) => SingleExpressionInnerView::Either(
            Either::Right(Box::new(expression_view(*e))),
        ),
        SingleExpressionInner::Option(None) => SingleExpressionInnerView::Option(None),
        SingleExpressionInner::Option(Some(e)) => SingleExpressionInnerView::Option(
            Some(Box::new(expression_view(*e))),
        ),
        SingleExpressionInner::Boolean(b) => SingleExpressionInnerView::Boolean(b),
        SingleExpressionInner::Decimal(d) => SingleExpressionInnerView::Decimal(d@),
        SingleExpressionInner::BitString(b) => SingleExpressionInnerView::BitString(b@),
        SingleExpressionInner::ByteString(b) => SingleExpressionInnerView::ByteString(b@),
        SingleExpressionInner::Witness(w) => SingleExpressionInnerView::Witness(w@),
        SingleExpressionInner::Variable(v) => SingleExpressionInnerView::Variable(v@),
        SingleExpressionInner::Call(c) => SingleExpressionInnerView::Call(call_view(c)),
        SingleExpressionInner::Expression(e) => SingleExpressionInnerView::Expression(
            Box::new(expression_view(*e)),
        ),
        SingleExpressionInner::Match(m) => SingleExpressionInnerView::Match(match_view(m)),
        SingleExpressionInner::Tuple(v) => SingleExpressionInnerView::Tuple(
            expressions_view(v@),
        ),
        SingleExpressionInner::Array(v) => SingleExpressionInnerView::Array(
            expressions_view(v@),
        ),
        SingleExpressionInner::List(v) => SingleExpressionInnerView::List(expressions_view(v@)),
    }
}

/// What the call `c` stands for.
pub open spec fn call_view(c: Call) -> CallView
    decreases c,
{
    CallView { name: c.name@, args: expressions_view(c.args@), span: c.span }
}

/// What the match expression `m` stands for.
pub open spec fn match_view(m: Match) -> MatchView
    decreases m,
{
    MatchView {
        scrutinee: Box::new(expression_view(m.scrutinee_spec())),
        left: match_arm_view(m.left_spec()),
        right: match_arm_view(m.right_spec()),
        span: m.span_spec(),
    }
}

/// What the match arm `a` stands for.
pub open spec fn match_arm_view(a: MatchArm) -> MatchArmView
    decreases a,
{
    MatchArmView { pattern: a.pattern@, expression: Box::new(expression_view(*a.expression)) }
}

/// What the statement `s` stands for.
pub open spec fn statement_view(s: Statement) -> StatementView
    decreases s,
{
    match s {
        Statement::Assignment(a) => StatementView::Assignment(assignment_view(a)),
        Statement::Expression(e) => StatementView::Expression(expression_view(e)),
        Statement::TypeAlias(t) => StatementView::TypeAlias(t@),
    }
}

/// What the assignment `a` stands for.
pub open spec fn assignment_view(a: Assignment) -> AssignmentView
    decreases a,
{
    AssignmentView {
        pattern: a.pattern@,
        ty: a.ty@,
        expression: expression_view(a.expression),
        span: a.span,
    }
}

/// What the expressions `s` stand for, in order.
pub open spec fn expressions_view(s: Seq<Expression>) -> Seq<ExpressionView>
    decreases s,
{
    if s.len() == 0 {
        Seq::empty()
    } else {
        expressions_view(s.drop_last()).push(expression_view(s.last()))
    }
}

/// What the statements `s` stand for, in order.
pub open spec fn statements_view(s: Seq<Statement>) -> Seq<StatementView>
    decreases s,
{
    if s.len() == 0 {
        Seq::empty()
    } else {
        statements_view(s.drop_last()).push(statement_view(s.last()))
    }
}

impl View for Expression {
    type V = ExpressionView;

    open spec fn view(&self) -> ExpressionView {
        expression_view(*self)
    }
}

impl View for SingleExpression {
    type V = SingleExpressionView;

    open spec fn view(&self) -> SingleExpressionView {
        single_expression_view(*self)
    }
}

impl View for Call {
    type V = CallView;

    open spec fn view(&self) -> CallView {
        call_view(*self)
    }
}

impl View for Match {
    type V = MatchView;

    open spec fn view(&self) -> MatchView {
        match_view(*self)
    }
}

impl View for MatchArm {
    type V = MatchArmView;

    open spec fn view(&self) -> MatchArmView {
        match_arm_view(*self)
    }
}

impl View for Statement {
    type V = StatementView;

    open spec fn view(&self) -> StatementView {
        statement_view(*self)
    }
}

impl View for Assignment {
    type V = AssignmentView;

    open spec fn view(&self) -> AssignmentView {
        assignment_view(*self)
    }
}

impl View for Program {
    type V = Seq<StatementView>;

    open spec fn view(&self) -> Seq<StatementView> {
        statements_view(self.statements@)
    }
}

impl Match {
    #[verifier::type_invariant]
    spec fn inv(self) -> bool {
        arms_fit(self.left.pattern@, self.right.pattern@)
    }

    /// The expression that is matched.
    pub closed spec fn scrutinee_spec(self) -> Expression {
        *self.scrutinee
    }

    /// The arm for left values.
    pub closed spec fn left_spec(self) -> MatchArm {
        self.left
    }

    /// The arm for right values.
    pub closed spec fn right_spec(self) -> MatchArm {
        self.right
    }

    /// The area of the match.
    pub closed spec fn span_spec(self) -> Span {
        self.span
    }

    /// The match of `scrutinee` with arms that fit together.
    pub(crate) fn new(scrutinee: Box<Expression>, left: MatchArm, right: MatchArm, span: Span) -> (res: Self)
        requires
            arms_fit(left.pattern@, right.pattern@),
        ensures
            res@ == (MatchView {
                scrutinee: Box::new(scrutinee@),
                left: left@,
                right: right@,
                span,
            }),
    {
        Match { scrutinee, left, right, span }
    }

    /// The area that the match spans in the source file.
    pub fn as_ref(&self) -> (res: &Span)
        ensures
            *res == self@.span,
    {
        &self.span
    }

    /// Access the expression that is matched.
    pub fn scrutinee(&self) -> (res: &Expression)
        ensures
            res@ == *self@.scrutinee,
            arms_fit(self@.left.pattern, self@.right.pattern),
    {
        proof {
            use_type_invariant(self);
        }
        &self.scrutinee
    }

    /// Access the match arm for left sum values.
    pub fn left(&self) -> (res: &MatchArm)
        ensures
            res@ == self@.left,
            arms_fit(self@.left.pattern, self@.right.pattern),
    {
        proof {
            use_type_invariant(self);
        }
        &self.left
    }

    /// Access the match arm for right sum values.
    pub fn right(&self) -> (res: &MatchArm)
        ensures
            res@ == self@.right,
            arms_fit(self@.left.pattern, self@.right.pattern),
    {
        proof {
            use_type_invariant(self);
        }
        &self.right
    }

    /// Get the type of the expression that is matched.
    pub fn scrutinee_type(&self) -> (res: AliasedType)
        ensures
            res@ == scrutinee_type_of(self@.left.pattern, self@.right.pattern),
            arms_fit(self@.left.pattern, self@.right.pattern),
    {
        proof {
            use_type_invariant(self);
        }
        match (&self.left.pattern, &self.right.pattern) {
            (MatchPattern::Left(_, ty_l), MatchPattern::Right(_, ty_r)) => {
                AliasedType::either(ty_l.copy(), ty_r.copy())
            },
            (MatchPattern::NoneValue, MatchPattern::SomeValue(_, ty_r)) => AliasedType::option(ty_r.copy()),
            (MatchPattern::False, MatchPattern::True) => AliasedType::boolean(),
            _ => unreached(),
        }
    }
}

impl Assignment {
    /// The area that the assignment spans in the source file.
    pub fn as_ref(&self) -> (res: &Span)
        ensures
            *res == self.span,
    {
        &self.span
    }
}

impl TypeAlias {
    /// The area that the typeAlias spans in the source file.
    pub fn as_ref(&self) -> (res: &Span)
        ensures
            *res == self.span,
    {
        &self.span
    }
}

impl Expression {
    /// The area that the expression spans in the source file.
    pub fn as_ref(&self) -> (res: &Span)
        ensures
            *res == self.span,
    {
        &self.span
    }
}

impl SingleExpression {
    /// The area that the singleExpression spans in the source file.
    pub fn as_ref(&self) -> (res: &Span)
        ensures
            *res == self.span,
    {
        &self.span
    }
}

impl Call {
    /// The area that the call spans in the source file.
    pub fn as_ref(&self) -> (res: &Span)
        ensures
            *res == self.span,
    {
        &self.span
    }
}

} // verus!
