use simplicityhl::ast::{
    Bits, Bytes, CallName, Either, Expression, ExpressionInner, Identifier, JetName, Match,
    MatchPattern, Program, SingleExpression, SingleExpressionInner, Statement, UnsignedDecimal,
    WitnessName,
};
use simplicityhl::error::{Error, RichError};
use simplicityhl::num::NonZeroPow2Usize;
use simplicityhl::pattern::Pattern;
use simplicityhl::span::{Position, Span};
use simplicityhl::tree::{Pair, Rule};
use simplicityhl::types::{AliasedType, BuiltinAlias, UIntType};

fn node(rule: Rule, text: &str, inner: Vec<Pair>) -> Pair {
    Pair { rule, text: text.to_string(), line: 1, col: 1, end_line: 1, end_col: 1 + text.len(), inner }
}

fn leaf(rule: Rule, text: &str) -> Pair {
    node(rule, text, Vec::new())
}

fn ty(inner: Pair) -> Pair {
    node(Rule::ty, "", vec![inner])
}

fn uint(name: &str) -> Pair {
    ty(leaf(Rule::unsigned_type, name))
}

fn single(inner: Pair) -> Pair {
    node(Rule::single_expression, "", vec![inner])
}

fn expr(inner: Pair) -> Pair {
    node(Rule::expression, "", vec![single(inner)])
}

fn ident(name: &str) -> Pair {
    leaf(Rule::identifier, name)
}

fn err_kind(e: &RichError) -> &Error {
    &e.error
}

#[test]
fn position_and_span() {
    let start = Position::new(1, 2);
    let end = Position::new(3, 1);
    assert_eq!(start.line, 1);
    assert_eq!(start.col, 2);
    let span = Span::new(start, end);
    assert!(span.is_multiline());
    let one_line = Span::new(Position::new(2, 1), Position::new(2, 5));
    assert!(!one_line.is_multiline());
}

#[test]
fn span_from_pair() {
    let p = Pair { rule: Rule::identifier, text: "abc".to_string(), line: 4, col: 7, end_line: 4, end_col: 10, inner: vec![] };
    let span = Span::from_pair(&p);
    assert_eq!(span.start, Position::new(4, 7));
    assert_eq!(span.end, Position::new(4, 10));
}

#[test]
fn identifier_round_trip() {
    let i = Identifier::from_str_unchecked("my_var");
    assert_eq!(i.as_inner(), "my_var");
    let parsed = Identifier::parse(&ident("x1")).unwrap();
    assert_eq!(parsed.as_inner(), "x1");
}

#[test]
fn jet_name_drops_prefix() {
    let j = JetName::parse(&leaf(Rule::jet, "jet_add_32")).unwrap();
    assert_eq!(j.as_inner(), "add_32");
}

#[test]
fn witness_name_keeps_text() {
    let w = WitnessName::parse(&leaf(Rule::witness_name, "SIG")).unwrap();
    assert_eq!(w.as_inner(), "SIG");
}

#[test]
fn decimal_drops_underscores() {
    let d = UnsignedDecimal::parse(&leaf(Rule::unsigned_decimal, "1_000_000")).unwrap();
    assert_eq!(d.as_inner(), "1000000");
}

#[test]
fn bits_of_one_two_and_four() {
    let b = Bits::parse(&leaf(Rule::bit_string, "0b1")).unwrap();
    assert_eq!(b.as_u1(), Some(1));
    assert_eq!(b.as_u2(), None);
    let b = Bits::parse(&leaf(Rule::bit_string, "0b10")).unwrap();
    assert_eq!(b.as_u2(), Some(2));
    assert_eq!(b.as_u1(), None);
    let b = Bits::parse(&leaf(Rule::bit_string, "0b1011")).unwrap();
    assert_eq!(b.as_u4(), Some(11));
    assert_eq!(b.as_long(), None);
}

#[test]
fn bits_of_whole_bytes() {
    let b = Bits::parse(&leaf(Rule::bit_string, "0b10000001")).unwrap();
    assert_eq!(b.as_long(), Some(&[0x81u8][..]));
    let b = Bits::parse(&leaf(Rule::bit_string, "0b1111111100000001")).unwrap();
    assert_eq!(b.as_long(), Some(&[0xffu8, 0x01][..]));
    assert_eq!(b.as_u4(), None);
    let text = format!("0b{}", "1".repeat(256));
    let b = Bits::parse(&leaf(Rule::bit_string, &text)).unwrap();
    assert_eq!(b.as_long(), Some(&[0xffu8; 32][..]));
}

#[test]
fn bits_of_wrong_length() {
    let e = Bits::parse(&leaf(Rule::bit_string, "0b101")).unwrap_err();
    assert!(matches!(err_kind(&e), Error::BitStringPow2(3)));
    let e = Bits::parse(&leaf(Rule::bit_string, "0b")).unwrap_err();
    assert!(matches!(err_kind(&e), Error::BitStringPow2(0)));
    let text = format!("0b{}", "0".repeat(512));
    let e = Bits::parse(&leaf(Rule::bit_string, &text)).unwrap_err();
    assert!(matches!(err_kind(&e), Error::BitStringPow2(512)));
}

#[test]
fn bytes_from_hex() {
    let b = Bytes::parse(&leaf(Rule::byte_string, "0x0aFf")).unwrap();
    assert_eq!(b.as_ref(), &[0x0a, 0xff]);
    let b = Bytes::parse(&leaf(Rule::byte_string, "0xde_ad_be_ef")).unwrap();
    assert_eq!(b.as_ref(), &[0xde, 0xad, 0xbe, 0xef]);
}

#[test]
fn bytes_of_wrong_length_or_digit() {
    let e = Bytes::parse(&leaf(Rule::byte_string, "0x1")).unwrap_err();
    assert!(matches!(err_kind(&e), Error::HexStringPow2(1)));
    let e = Bytes::parse(&leaf(Rule::byte_string, "0x012")).unwrap_err();
    assert!(matches!(err_kind(&e), Error::HexStringPow2(3)));
    let text = format!("0x{}", "00".repeat(64));
    let e = Bytes::parse(&leaf(Rule::byte_string, &text)).unwrap_err();
    assert!(matches!(err_kind(&e), Error::HexStringPow2(128)));
    let e = Bytes::parse(&leaf(Rule::byte_string, "0x0g")).unwrap_err();
    assert!(matches!(err_kind(&e), Error::CannotParse(m) if m == "failed to decode hex"));
}

#[test]
fn unsigned_and_builtin_types() {
    let t = AliasedType::parse(&uint("u16")).unwrap();
    assert!(matches!(t, AliasedType::UInt(UIntType::U16)));
    let t = AliasedType::parse(&ty(leaf(Rule::builtin_alias, "Pubkey"))).unwrap();
    assert!(matches!(t, AliasedType::Builtin(BuiltinAlias::Pubkey)));
    let e = AliasedType::parse(&ty(leaf(Rule::builtin_alias, "Nope"))).unwrap_err();
    match e.error {
        Error::CannotParse(m) => assert_eq!(m, "Unknown alias: Nope"),
        _ => panic!("wrong error"),
    }
}

#[test]
fn composite_types() {
    let sum = ty(node(Rule::sum_type, "", vec![uint("u8"), ty(leaf(Rule::boolean_type, "bool"))]));
    let t = AliasedType::parse(&sum).unwrap();
    match t {
        AliasedType::Either(l, r) => {
            assert!(matches!(*l, AliasedType::UInt(UIntType::U8)));
            assert!(matches!(*r, AliasedType::Boolean));
        }
        _ => panic!("not a sum"),
    }
    let tuple = ty(node(Rule::tuple_type, "", vec![uint("u1"), uint("u2"), uint("u4")]));
    match AliasedType::parse(&tuple).unwrap() {
        AliasedType::Tuple(v) => assert_eq!(v.len(), 3),
        _ => panic!("not a tuple"),
    }
    let array = ty(node(Rule::array_type, "", vec![uint("u8"), leaf(Rule::array_size, "32")]));
    assert!(matches!(AliasedType::parse(&array).unwrap(), AliasedType::Array(_, 32)));
    let list = ty(node(Rule::list_type, "", vec![uint("u8"), leaf(Rule::list_bound, "16")]));
    match AliasedType::parse(&list).unwrap() {
        AliasedType::List(_, b) => assert_eq!(b.get(), 16),
        _ => panic!("not a list"),
    }
    let option = ty(node(Rule::option_type, "", vec![ty(node(Rule::alias_name, "Foo", vec![ident("Foo")]))]));
    match AliasedType::parse(&option).unwrap() {
        AliasedType::Option(inner) => match *inner {
            AliasedType::Alias(name) => assert_eq!(name.as_inner(), "Foo"),
            _ => panic!("not an alias"),
        },
        _ => panic!("not an option"),
    }
}

#[test]
fn bad_list_bounds_and_sizes() {
    let list = ty(node(Rule::list_type, "", vec![uint("u8"), leaf(Rule::list_bound, "3")]));
    let e = AliasedType::parse(&list).unwrap_err();
    assert!(matches!(e.error, Error::ListBoundPow2(3)));
    let list = ty(node(Rule::list_type, "", vec![uint("u8"), leaf(Rule::list_bound, "1")]));
    let e = AliasedType::parse(&list).unwrap_err();
    assert!(matches!(e.error, Error::ListBoundPow2(1)));
    let array = ty(node(Rule::array_type, "", vec![uint("u8"), leaf(Rule::array_size, "99999999999999999999999")]));
    let e = AliasedType::parse(&array).unwrap_err();
    match e.error {
        Error::CannotParse(m) => assert_eq!(m, "number too large to fit in target type"),
        _ => panic!("wrong error"),
    }
}

#[test]
fn first_error_wins_in_types() {
    let tuple = ty(node(
        Rule::tuple_type,
        "",
        vec![
            ty(node(Rule::list_type, "", vec![uint("u8"), leaf(Rule::list_bound, "5")])),
            ty(leaf(Rule::builtin_alias, "Nope")),
        ],
    ));
    let e = AliasedType::parse(&tuple).unwrap_err();
    assert!(matches!(e.error, Error::ListBoundPow2(5)));
}

#[test]
fn non_zero_pow2() {
    assert!(NonZeroPow2Usize::new(0).is_none());
    assert!(NonZeroPow2Usize::new(1).is_none());
    assert_eq!(NonZeroPow2Usize::new(2).unwrap().get(), 2);
    assert!(NonZeroPow2Usize::new(12).is_none());
    assert_eq!(NonZeroPow2Usize::new(1024).unwrap().get(), 1024);
}

#[test]
fn patterns() {
    let var = node(Rule::pattern, "", vec![node(Rule::variable_pattern, "a", vec![ident("a")])]);
    let ign = node(Rule::pattern, "_", vec![leaf(Rule::ignore_pattern, "_")]);
    let tup = node(Rule::pattern, "", vec![node(Rule::tuple_pattern, "", vec![var, ign])]);
    match Pattern::parse(&tup).unwrap() {
        Pattern::Tuple(v) => {
            assert_eq!(v.len(), 2);
            assert!(matches!(&v[0], Pattern::Identifier(i) if i.as_inner() == "a"));
            assert!(matches!(v[1], Pattern::Ignore));
        }
        _ => panic!("not a tuple pattern"),
    }
}

fn arm(pattern: Pair, body: Pair) -> Pair {
    node(Rule::match_arm, "", vec![node(Rule::match_pattern, "", vec![pattern]), body])
}

fn match_of(first: Pair, second: Pair) -> Pair {
    node(Rule::match_expr, "match", vec![expr(leaf(Rule::true_expr, "true")), first, second])
}

fn typed(rule: Rule, name: &str) -> Pair {
    node(rule, "", vec![ident(name), uint("u8")])
}

#[test]
fn match_arms_in_either_order() {
    let left = arm(typed(Rule::left_pattern, "x"), expr(leaf(Rule::false_expr, "false")));
    let right = arm(typed(Rule::right_pattern, "y"), expr(leaf(Rule::true_expr, "true")));
    let m = Match::parse(&match_of(left, right)).unwrap();
    assert!(matches!(m.left().pattern, MatchPattern::Left(..)));
    assert!(matches!(m.right().pattern, MatchPattern::Right(..)));
    match m.scrutinee_type() {
        AliasedType::Either(l, r) => {
            assert!(matches!(*l, AliasedType::UInt(UIntType::U8)));
            assert!(matches!(*r, AliasedType::UInt(UIntType::U8)));
        }
        _ => panic!("not a sum type"),
    }

    let left = arm(typed(Rule::left_pattern, "x"), expr(leaf(Rule::false_expr, "false")));
    let right = arm(typed(Rule::right_pattern, "y"), expr(leaf(Rule::true_expr, "true")));
    let m = Match::parse(&match_of(right, left)).unwrap();
    assert!(matches!(m.left().pattern, MatchPattern::Left(..)));
    assert!(matches!(m.right().pattern, MatchPattern::Right(..)));
    assert_eq!(m.left().pattern.as_variable().unwrap().as_inner(), "x");
}

#[test]
fn match_of_option_and_bool() {
    let none = arm(leaf(Rule::none_pattern, "None"), expr(leaf(Rule::false_expr, "false")));
    let some = arm(typed(Rule::some_pattern, "v"), expr(leaf(Rule::true_expr, "true")));
    let m = Match::parse(&match_of(some, none)).unwrap();
    assert!(matches!(m.left().pattern, MatchPattern::NoneValue));
    assert!(matches!(m.scrutinee_type(), AliasedType::Option(_)));

    let f = arm(leaf(Rule::false_pattern, "false"), expr(leaf(Rule::false_expr, "false")));
    let t = arm(leaf(Rule::true_pattern, "true"), expr(leaf(Rule::true_expr, "true")));
    let m = Match::parse(&match_of(t, f)).unwrap();
    assert!(matches!(m.left().pattern, MatchPattern::False));
    assert!(matches!(m.scrutinee_type(), AliasedType::Boolean));
}

#[test]
fn incompatible_match_arms() {
    let left = arm(typed(Rule::left_pattern, "x"), expr(leaf(Rule::false_expr, "false")));
    let t = arm(leaf(Rule::true_pattern, "true"), expr(leaf(Rule::true_expr, "true")));
    let e = Match::parse(&match_of(left, t)).unwrap_err();
    assert!(matches!(e.error, Error::IncompatibleMatchArms(MatchPattern::Left(..), MatchPattern::True)));
}

#[test]
fn match_pattern_variables() {
    let p = MatchPattern::parse(&node(Rule::match_pattern, "", vec![typed(Rule::some_pattern, "v")])).unwrap();
    let (i, t) = p.as_typed_variable().unwrap();
    assert_eq!(i.as_inner(), "v");
    assert!(matches!(t, AliasedType::UInt(UIntType::U8)));
    assert_eq!(p.as_variable().unwrap().as_inner(), "v");
    let p = MatchPattern::parse(&node(Rule::match_pattern, "", vec![leaf(Rule::none_pattern, "None")])).unwrap();
    assert!(p.as_variable().is_none());
    assert!(p.as_typed_variable().is_none());
}

#[test]
fn single_expressions() {
    let s = SingleExpression::parse(&single(node(Rule::left_expr, "", vec![expr(leaf(Rule::true_expr, "true"))]))).unwrap();
    assert!(matches!(s.inner, SingleExpressionInner::Either(Either::Left(_))));
    let s = SingleExpression::parse(&single(leaf(Rule::none_expr, "None"))).unwrap();
    assert!(matches!(s.inner, SingleExpressionInner::Option(None)));
    let s = SingleExpression::parse(&single(node(Rule::witness_expr, "", vec![leaf(Rule::witness_name, "W")]))).unwrap();
    assert!(matches!(&s.inner, SingleExpressionInner::Witness(w) if w.as_inner() == "W"));
    let s = SingleExpression::parse(&single(node(
        Rule::tuple_expr,
        "",
        vec![expr(leaf(Rule::true_expr, "true")), expr(leaf(Rule::unsigned_decimal, "4_2"))],
    )))
    .unwrap();
    match s.inner {
        SingleExpressionInner::Tuple(v) => {
            assert_eq!(v.len(), 2);
            match &v[1].inner {
                ExpressionInner::Single(SingleExpression { inner: SingleExpressionInner::Decimal(d), .. }) => {
                    assert_eq!(d.as_inner(), "42")
                }
                _ => panic!("not a decimal"),
            }
        }
        _ => panic!("not a tuple"),
    }
}

#[test]
fn call_expressions() {
    let call = node(
        Rule::call_expr,
        "jet_add_8(1, 2)",
        vec![
            node(Rule::call_name, "", vec![leaf(Rule::jet, "jet_add_8")]),
            node(Rule::call_args, "", vec![expr(leaf(Rule::unsigned_decimal, "1")), expr(leaf(Rule::unsigned_decimal, "2"))]),
        ],
    );
    let s = SingleExpression::parse(&single(call)).unwrap();
    match s.inner {
        SingleExpressionInner::Call(c) => {
            assert!(matches!(&c.name, CallName::Jet(j) if j.as_inner() == "add_8"));
            assert_eq!(c.args.len(), 2);
        }
        _ => panic!("not a call"),
    }
}

#[test]
fn block_expression_and_program() {
    let assignment = node(
        Rule::assignment,
        "let x: u8 = 1;",
        vec![
            node(Rule::pattern, "x", vec![node(Rule::variable_pattern, "x", vec![ident("x")])]),
            uint("u8"),
            expr(leaf(Rule::unsigned_decimal, "1")),
        ],
    );
    let block = node(
        Rule::block_expression,
        "{ let x: u8 = 1; x }",
        vec![
            node(Rule::statement, "", vec![assignment]),
            expr(node(Rule::variable_expr, "x", vec![ident("x")])),
        ],
    );
    let e = Expression::parse(&node(Rule::expression, "", vec![block])).unwrap();
    match e.inner {
        ExpressionInner::Block(stmts, _) => {
            assert_eq!(stmts.len(), 1);
            assert!(matches!(stmts[0], Statement::Assignment(_)));
        }
        _ => panic!("not a block"),
    }
    let alias = node(Rule::type_alias, "type A = u8;", vec![ident("A"), uint("u8")]);
    let program = node(
        Rule::program,
        "",
        vec![node(Rule::statement, "", vec![alias]), leaf(Rule::EOI, "")],
    );
    assert!(program.is_well_formed());
    let p = Program::parse(&program).unwrap();
    assert_eq!(p.statements.len(), 1);
    assert!(matches!(&p.statements[0], Statement::TypeAlias(t) if t.name.as_inner() == "A"));
}

#[test]
fn program_error_is_first_error() {
    let bad = |bits: &str| {
        node(Rule::statement, "", vec![expr(leaf(Rule::bit_string, bits))])
    };
    let program = node(Rule::program, "", vec![bad("0b1"), bad("0b111"), bad("0b11111"), leaf(Rule::EOI, "")]);
    assert!(program.is_well_formed());
    let e = Program::parse(&program).unwrap_err();
    assert!(matches!(e.error, Error::BitStringPow2(3)));
}

#[test]
fn well_formedness_check() {
    assert!(uint("u8").is_well_formed());
    assert!(!uint("u7").is_well_formed());
    assert!(!leaf(Rule::jet, "add").is_well_formed());
    let no_children = node(Rule::statement, "", vec![]);
    assert!(!no_children.is_well_formed());
    let backwards = Pair { rule: Rule::identifier, text: "x".to_string(), line: 2, col: 1, end_line: 1, end_col: 1, inner: vec![] };
    assert!(!backwards.is_well_formed());
    let zero_line = Pair { rule: Rule::identifier, text: "x".to_string(), line: 0, col: 1, end_line: 1, end_col: 1, inner: vec![] };
    assert!(!zero_line.is_well_formed());
}

#[test]
fn nested_patterns_keep_order() {
    let var = |n: &str| node(Rule::pattern, n, vec![node(Rule::variable_pattern, n, vec![ident(n)])]);
    let ign = node(Rule::pattern, "_", vec![leaf(Rule::ignore_pattern, "_")]);
    let arr = node(Rule::pattern, "", vec![node(Rule::array_pattern, "", vec![var("a"), ign])]);
    let tup = node(Rule::pattern, "", vec![node(Rule::tuple_pattern, "", vec![arr, var("b")])]);
    match Pattern::parse(&tup).unwrap() {
        Pattern::Tuple(v) => {
            assert_eq!(v.len(), 2);
            match &v[0] {
                Pattern::Array(w) => {
                    assert_eq!(w.len(), 2);
                    assert!(matches!(&w[0], Pattern::Identifier(i) if i.as_inner() == "a"));
                    assert!(matches!(w[1], Pattern::Ignore));
                }
                _ => panic!("not an array pattern"),
            }
            assert!(matches!(&v[1], Pattern::Identifier(i) if i.as_inner() == "b"));
        }
        _ => panic!("not a tuple pattern"),
    }
    let empty = node(Rule::pattern, "()", vec![node(Rule::tuple_pattern, "()", vec![])]);
    assert!(matches!(Pattern::parse(&empty).unwrap(), Pattern::Tuple(v) if v.is_empty()));
}

#[test]
fn nested_types_keep_order() {
    let array = ty(node(Rule::array_type, "", vec![ty(leaf(Rule::boolean_type, "bool")), leaf(Rule::array_size, "4")]));
    let inner_tuple = ty(node(Rule::tuple_type, "", vec![uint("u1"), uint("u2")]));
    let list = ty(node(Rule::list_type, "", vec![inner_tuple, leaf(Rule::list_bound, "8")]));
    let tuple = ty(node(Rule::tuple_type, "", vec![uint("u8"), array, list]));
    match AliasedType::parse(&tuple).unwrap() {
        AliasedType::Tuple(v) => {
            assert_eq!(v.len(), 3);
            assert!(matches!(v[0], AliasedType::UInt(UIntType::U8)));
            match &v[1] {
                AliasedType::Array(el, 4) => assert!(matches!(**el, AliasedType::Boolean)),
                _ => panic!("not an array"),
            }
            match &v[2] {
                AliasedType::List(el, b) => {
                    assert_eq!(b.get(), 8);
                    match &**el {
                        AliasedType::Tuple(w) => {
                            assert!(matches!(w[0], AliasedType::UInt(UIntType::U1)));
                            assert!(matches!(w[1], AliasedType::UInt(UIntType::U2)));
                        }
                        _ => panic!("not a tuple"),
                    }
                }
                _ => panic!("not a list"),
            }
        }
        _ => panic!("not a tuple"),
    }
    let unit = ty(node(Rule::tuple_type, "()", vec![]));
    assert!(matches!(AliasedType::parse(&unit).unwrap(), AliasedType::Tuple(v) if v.is_empty()));
}

#[test]
fn types_display_in_program_syntax() {
    let either = ty(node(
        Rule::sum_type,
        "",
        vec![uint("u8"), ty(node(Rule::option_type, "", vec![ty(leaf(Rule::boolean_type, "bool"))]))],
    ));
    assert_eq!(AliasedType::parse(&either).unwrap().to_string(), "Either<u8, Option<bool>>");
    let array = ty(node(Rule::array_type, "", vec![uint("u8"), leaf(Rule::array_size, "32")]));
    assert_eq!(AliasedType::parse(&array).unwrap().to_string(), "[u8; 32]");
    let list = ty(node(Rule::list_type, "", vec![ty(leaf(Rule::builtin_alias, "Pubkey")), leaf(Rule::list_bound, "256")]));
    assert_eq!(AliasedType::parse(&list).unwrap().to_string(), "List<Pubkey, 256>");
    let one = ty(node(Rule::tuple_type, "", vec![uint("u1")]));
    assert_eq!(AliasedType::parse(&one).unwrap().to_string(), "(u1,)");
    let two = ty(node(Rule::tuple_type, "", vec![uint("u1"), ty(node(Rule::alias_name, "Foo", vec![ident("Foo")]))]));
    assert_eq!(AliasedType::parse(&two).unwrap().to_string(), "(u1, Foo)");
    let unit = ty(node(Rule::tuple_type, "()", vec![]));
    assert_eq!(AliasedType::parse(&unit).unwrap().to_string(), "()");
}

#[test]
fn match_patterns_display() {
    let left = MatchPattern::Left(Identifier::from_str_unchecked("x"), AliasedType::from_uint(UIntType::U8));
    assert_eq!(left.to_string(), "Left(x: u8");
    let some = MatchPattern::SomeValue(Identifier::from_str_unchecked("y"), AliasedType::boolean());
    assert_eq!(some.to_string(), "Some(y: bool");
    assert_eq!(MatchPattern::NoneValue.to_string(), "None");
    assert_eq!(MatchPattern::False.to_string(), "false");
    assert_eq!(MatchPattern::True.to_string(), "true");
}

#[test]
fn parsed_values_compare_and_clone() {
    let list = ty(node(Rule::list_type, "", vec![uint("u8"), leaf(Rule::list_bound, "16")]));
    assert_eq!(AliasedType::parse(&list).unwrap(), AliasedType::parse(&list).unwrap());
    assert_ne!(AliasedType::parse(&list).unwrap(), AliasedType::parse(&uint("u8")).unwrap());
    let a = Identifier::from_str_unchecked("a");
    assert_eq!(a.clone(), a);
    assert!(Identifier::from_str_unchecked("a") < Identifier::from_str_unchecked("b"));
}
