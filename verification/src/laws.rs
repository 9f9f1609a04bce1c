//! Properties that hold of every parse.

use vstd::prelude::*;
use crate::ast::{
    CallNameView, arms_fit, scrutinee_type_of, valid_bits, valid_byte_string, BitsView, Either, ExpressionView,
    MatchArmView, MatchPatternView, MatchView, SingleExpressionInnerView, SingleExpressionView,
};
use crate::error::RichErrorView;
use crate::hex::{all_hex_digits, hex_decoded, hex_digit_value};
use crate::parse::{
    builtin_spec, call_name_spec, error_at, expressions_spec, first_name, item_type,
    match_pattern_spec, pattern_spec, patterns_spec, type_items_spec, ItemView, bits_bytes, bits_spec, bits_value, bytes_spec, expression_spec, hex_digits_of,
    lemma_bits_value_bound, match_arm_spec, match_spec, order_arms, pow2, single_spec, type_item_spec, type_spec,
    uint_spec,
};
use crate::types::{BuiltinAlias, TypeView, UIntType};
use crate::pattern::PatternView;
use crate::error::ErrorView;
use crate::span::Span;
use crate::text::{is_power_of_two, starts_with, without_underscores};
use crate::tree::{is_uint_text, Pair, Rule};

verus! {

/// The number that bytes stand for, the most significant first.
pub open spec fn bytes_value(bytes: Seq<u8>) -> nat
    decreases bytes.len(),
{
    if bytes.len() == 0 {
        0
    } else {
        256 * bytes_value(bytes.drop_last()) + bytes.last() as nat
    }
}

/// Binary digits `a` followed by `b` stand for the number of `a` shifted
/// by the length of `b`, plus the number of `b`.
proof fn lemma_bits_value_concat(a: Seq<char>, b: Seq<char>)
    ensures
        bits_value(a + b) == bits_value(a) * pow2(b.len()) + bits_value(b),
    decreases b.len(),
{
    if b.len() == 0 {
        assert(a + b == a);
        assert(bits_value(a) * 1 == bits_value(a));
    } else {
        assert((a + b).drop_last() == a + b.drop_last());
        lemma_bits_value_concat(a, b.drop_last());
        assert((a + b).last() == b.last());
        let x = bits_value(a);
        let p = pow2(b.drop_last().len());
        assert(pow2(b.len()) == 2 * p);
        assert(2 * (x * p) == x * (2 * p)) by (nonlinear_arith);
        let d: nat = if b.last() == '1' { 1 } else { 0 };
        assert(bits_value(a + b) == 2 * bits_value(a + b.drop_last()) + d);
        assert(bits_value(b) == 2 * bits_value(b.drop_last()) + d);
    }
}

/// The bytes of a whole number of bytes of binary digits stand for the same
/// number as the digits.
pub proof fn law_bits_bytes_keep_value(bits: Seq<char>)
    requires
        bits.len() % 8 == 0,
    ensures
        bits_bytes(bits).len() * 8 == bits.len(),
        bytes_value(bits_bytes(bits)) == bits_value(bits),
    decreases bits.len(),
{
    if bits.len() > 0 {
        let n = bits.len();
        let a = bits.take(n - 8);
        let b = bits.subrange(n - 8, n as int);
        assert(bits == a + b);
        law_bits_bytes_keep_value(a);
        lemma_bits_value_bound(b);
        reveal_with_fuel(pow2, 9);
        assert(pow2(8) == 256);
        assert(bits_bytes(bits).drop_last() == bits_bytes(a)) by {
            assert forall|j: int| 0 <= j < bits_bytes(a).len() implies bits_bytes(bits).drop_last()[j]
                == bits_bytes(a)[j] by {
                assert(bits.subrange(8 * j, 8 * j + 8) == a.subrange(8 * j, 8 * j + 8));
            }
        }
        assert(bits_bytes(bits).last() == bits_value(b) as u8) by {
            assert(bits.subrange(8 * (n / 8 - 1), 8 * (n / 8 - 1) + 8) == b);
        }
        lemma_bits_value_concat(a, b);
        assert(bytes_value(bits_bytes(bits)) == 256 * bytes_value(bits_bytes(a)) + bits_value(b));
    }
}

/// A bit string that parses holds a value of its width: one, two or four bits,
/// or from 1 to 32 bytes, a power of two of them.
pub proof fn law_parsed_bits_are_valid(p: Pair)
    requires
        bits_spec(p) is Ok,
    ensures
        valid_bits(bits_spec(p)->Ok_0),
{
    let bits = p.text@.skip(2);
    let n = bits.len();
    lemma_bits_value_bound(bits);
    reveal_with_fuel(pow2, 5);
    if n > 4 {
        reveal_with_fuel(is_power_of_two, 9);
        assert(is_power_of_two(n));
        if n != 8 && n != 16 && n != 32 && n != 64 && n != 128 && n != 256 {
            lemma_power_of_two_steps(n);
        }
    }
}

/// A power of two greater than four and at most 256 is one of 8, 16, ..., 256.
proof fn lemma_power_of_two_steps(n: nat)
    requires
        is_power_of_two(n),
        4 < n <= 256,
    ensures
        n == 8 || n == 16 || n == 32 || n == 64 || n == 128 || n == 256,
{
    reveal_with_fuel(is_power_of_two, 9);
}

/// A byte string that parses has from 1 to 32 bytes, a power of two of them,
/// half as many as it has digits.
pub proof fn law_parsed_bytes_are_valid(p: Pair)
    requires
        bytes_spec(p) is Ok,
    ensures
        valid_byte_string(bytes_spec(p)->Ok_0),
        bytes_spec(p)->Ok_0.len() * 2 == hex_digits_of(p).len(),
{
    let d = hex_digits_of(p);
    reveal_with_fuel(is_power_of_two, 8);
    assert(hex_decoded(d).len() == d.len() / 2);
}

/// The arms of a match may come in either order: swapping them gives the same match.
pub proof fn law_match_arm_order(
    scrutinee: ExpressionView,
    first: MatchArmView,
    second: MatchArmView,
    span: Span,
)
    requires
        order_arms(scrutinee, first, second, span) is Ok,
    ensures
        order_arms(scrutinee, second, first, span) == order_arms(scrutinee, first, second, span),
{
}

/// The arms of a match that parses fit together: left and right, none and some,
/// or false and true.
pub proof fn law_match_arms_fit(
    scrutinee: ExpressionView,
    first: MatchArmView,
    second: MatchArmView,
    span: Span,
)
    requires
        order_arms(scrutinee, first, second, span) is Ok,
    ensures
        arms_fit(
            order_arms(scrutinee, first, second, span)->Ok_0.left.pattern,
            order_arms(scrutinee, first, second, span)->Ok_0.right.pattern,
        ),
{
}

/// Removing underscores leaves no underscore, and removing them again changes nothing.
pub proof fn law_without_underscores(s: Seq<char>)
    ensures
        forall|i: int|
            0 <= i < without_underscores(s).len() ==> #[trigger] without_underscores(s)[i] != '_',
        without_underscores(without_underscores(s)) == without_underscores(s),
    decreases s.len(),
{
    if s.len() > 0 {
        law_without_underscores(s.drop_last());
        let w = without_underscores(s.drop_last());
        if s.last() != '_' {
            assert(w.push(s.last()).drop_last() == w);
        }
    }
}

/// The name of a jet, after the prefix `jet_`, gives back the text of the jet.
pub proof fn law_jet_name_restores_text(p: Pair)
    requires
        p.rule == Rule::jet,
        p.local_ok(),
    ensures
        "jet_"@ + p.text@.skip(4) == p.text@,
{
    reveal_strlit("jet_");
    assert(starts_with(p.text@, "jet_"@));
    assert("jet_"@ + p.text@.skip(4) =~= p.text@);
}



/// A byte string parses exactly when its digits after `0x`, underscores left out, are a power
/// of two from 2 to 64 in number and all hexadecimal; it then holds half as many bytes as it
/// has digits, each byte made of two digits in turn, the first the high half.
pub proof fn law_byte_string_digits(p: Pair)
    ensures
        ({
            let d = without_underscores(p.text@.skip(2));
            &&& bytes_spec(p) is Ok <==> (2 <= d.len() <= 64 && is_power_of_two(d.len())
                && all_hex_digits(d))
            &&& bytes_spec(p) matches Ok(bytes) ==> {
                &&& bytes.len() * 2 == d.len()
                &&& forall|j: int|
                    0 <= j < bytes.len() ==> #[trigger] bytes[j] as nat == 16 * hex_digit_value(
                        d[2 * j],
                    ).unwrap() + hex_digit_value(d[2 * j + 1]).unwrap()
            }
        }),
{
    let d = without_underscores(p.text@.skip(2));
    if bytes_spec(p) is Ok {
        reveal_with_fuel(is_power_of_two, 8);
        assert(d.len() % 2 == 0);
        let bytes = hex_decoded(d);
        assert forall|j: int| 0 <= j < bytes.len() implies #[trigger] bytes[j] as nat == 16
            * hex_digit_value(d[2 * j]).unwrap() + hex_digit_value(d[2 * j + 1]).unwrap() by {
            assert(hex_digit_value(d[2 * j]) is Some);
            assert(hex_digit_value(d[2 * j + 1]) is Some);
            let hi = hex_digit_value(d[2 * j]).unwrap();
            let lo = hex_digit_value(d[2 * j + 1]).unwrap();
            assert(hi <= 15 && lo <= 15);
        }
    }
}

/// The unsigned integer type that a pair names is the one whose name is the pair's text.
pub proof fn law_unsigned_type_named_by_text(p: Pair)
    requires
        is_uint_text(p.text@),
    ensures
        uint_spec(p).name() == p.text@,
{
    reveal_strlit("u1");
    reveal_strlit("u2");
    reveal_strlit("u4");
    reveal_strlit("u8");
    reveal_strlit("u16");
    reveal_strlit("u32");
    reveal_strlit("u64");
    reveal_strlit("u128");
    reveal_strlit("u256");
}

/// A type expression made of an unsigned integer type gives that type, the one whose name is
/// the text of the nested pair.
pub proof fn law_unsigned_type_expression(p: Pair)
    requires
        p.rule == Rule::ty,
        p.inner.len() >= 1,
        p.inner[0].rule == Rule::unsigned_type,
        is_uint_text(p.inner[0].text@),
    ensures
        type_spec(p) matches Ok(TypeView::UInt(u)) && u.name() == p.inner[0].text@,
{
    law_unsigned_type_named_by_text(p.inner[0]);
    assert(type_item_spec(p.inner[0]) == Ok::<crate::parse::ItemView, RichErrorView>(
        crate::parse::ItemView::Type(TypeView::UInt(uint_spec(p.inner[0]))),
    ));
    assert(type_item_spec(p) == type_item_spec(p.inner[0]));
}

/// The type of what a match matches comes from its arms: `Either` of the left arm's type
/// and the right arm's type, `Option` of the type of the arm of some values, or `bool`.
pub proof fn law_scrutinee_type_from_arms(left: MatchPatternView, right: MatchPatternView)
    ensures
        (left matches MatchPatternView::Left(_, a) && right matches MatchPatternView::Right(_, b))
            ==> scrutinee_type_of(left, right) == TypeView::Either(
            Box::new(left->Left_1),
            Box::new(right->Right_1),
        ),
        (left is NoneValue && right is SomeValue) ==> scrutinee_type_of(left, right)
            == TypeView::Option(Box::new(right->SomeValue_1)),
        (left is False && right is True) ==> scrutinee_type_of(left, right) == TypeView::Boolean,
{
}

/// Whichever order the arms of a parsed match come in, the type of what it matches is
/// `Either` of the type of the `Left` arm's variable and that of the `Right` arm's variable.
pub proof fn law_match_scrutinee_either(p: Pair)
    requires
        match_spec(p) is Ok,
        p.inner.len() >= 3,
        match_arm_spec(p.inner[1]) matches Ok(x) && match_arm_spec(p.inner[2]) matches Ok(y) && (
        (x.pattern is Left && y.pattern is Right) || (x.pattern is Right && y.pattern is Left)),
    ensures
        ({
            let m = match_spec(p)->Ok_0;
            let x = match_arm_spec(p.inner[1])->Ok_0.pattern;
            let y = match_arm_spec(p.inner[2])->Ok_0.pattern;
            let (l, r) = if x is Left {
                (x, y)
            } else {
                (y, x)
            };
            scrutinee_type_of(m.left.pattern, m.right.pattern) == TypeView::Either(
                Box::new(l->Left_1),
                Box::new(r->Right_1),
            )
        }),
{
}

/// `Left(..)` and `Right(..)` give an either value of the same side, holding what the
/// expression inside gives; `Some(..)` gives an option holding it; an error inside is the
/// error of the whole.
pub proof fn law_wrapped_expressions(p: Pair)
    requires
        p.inner.len() >= 1,
        p.inner[0].inner.len() >= 1,
    ensures
        ({
            let c = p.inner[0];
            let inside = expression_spec(c.inner[0]);
            &&& c.rule == Rule::left_expr ==> match inside {
                Ok(e) => single_spec(p) == Ok::<SingleExpressionView, RichErrorView>(
                    SingleExpressionView {
                        inner: SingleExpressionInnerView::Either(Either::Left(Box::new(e))),
                        span: p.span_spec(),
                    },
                ),
                Err(e) => single_spec(p) == Err::<SingleExpressionView, RichErrorView>(e),
            }
            &&& c.rule == Rule::right_expr ==> match inside {
                Ok(e) => single_spec(p) == Ok::<SingleExpressionView, RichErrorView>(
                    SingleExpressionView {
                        inner: SingleExpressionInnerView::Either(Either::Right(Box::new(e))),
                        span: p.span_spec(),
                    },
                ),
                Err(e) => single_spec(p) == Err::<SingleExpressionView, RichErrorView>(e),
            }
            &&& c.rule == Rule::some_expr ==> match inside {
                Ok(e) => single_spec(p) == Ok::<SingleExpressionView, RichErrorView>(
                    SingleExpressionView {
                        inner: SingleExpressionInnerView::Option(Some(Box::new(e))),
                        span: p.span_spec(),
                    },
                ),
                Err(e) => single_spec(p) == Err::<SingleExpressionView, RichErrorView>(e),
            }
        }),
{
}

/// A bit string gives the number that its digits after `0b` stand for: as one small value of
/// one, two or four bits, or as bytes, eight digits to a byte, that read most significant
/// first stand for that number.
pub proof fn law_bit_string_value(p: Pair)
    ensures
        ({
            let bits = p.text@.skip(2);
            &&& bits_spec(p) is Ok <==> (is_power_of_two(bits.len()) && bits.len() <= 256)
            &&& bits_spec(p) matches Ok(BitsView::U1(x)) ==> bits.len() == 1 && x == bits_value(bits)
            &&& bits_spec(p) matches Ok(BitsView::U2(x)) ==> bits.len() == 2 && x == bits_value(bits)
            &&& bits_spec(p) matches Ok(BitsView::U4(x)) ==> bits.len() == 4 && x == bits_value(bits)
            &&& bits_spec(p) matches Ok(BitsView::Long(bytes)) ==> {
                &&& bytes.len() * 8 == bits.len()
                &&& bytes_value(bytes) == bits_value(bits)
            }
        }),
{
    let bits = p.text@.skip(2);
    let n = bits.len();
    lemma_bits_value_bound(bits);
    reveal_with_fuel(pow2, 5);
    if bits_spec(p) is Ok && n > 4 {
        reveal_with_fuel(is_power_of_two, 9);
        if n != 8 && n != 16 && n != 32 && n != 64 && n != 128 && n != 256 {
            lemma_power_of_two_steps(n);
        }
        law_bits_bytes_keep_value(bits);
    }
}


/// The first `k` items of a tuple type give types exactly when each of them does, and then
/// give the type of each in turn.
proof fn lemma_type_items_elements(s: Seq<Pair>, k: int)
    requires
        0 <= k <= s.len(),
    ensures
        type_items_spec(s, k) is Ok <==> forall|i: int| 0 <= i < k ==> (#[trigger] type_item_spec(s[i])) is Ok,
        type_items_spec(s, k) matches Ok(ts) ==> ts.len() == k && forall|i: int|
            0 <= i < k ==> #[trigger] ts[i] == item_type(type_item_spec(s[i])->Ok_0),
    decreases k,
{
    if k > 0 {
        lemma_type_items_elements(s, k - 1);
        if type_items_spec(s, k - 1) is Ok && !(type_item_spec(s[k - 1]) is Ok) {
            assert(!(forall|i: int| 0 <= i < k ==> (#[trigger] type_item_spec(s[i])) is Ok));
        }
        if !(type_items_spec(s, k - 1) is Ok) {
            let j = choose|j: int| 0 <= j < k - 1 && !(#[trigger] type_item_spec(s[j]) is Ok);
            assert(!(type_item_spec(s[j]) is Ok));
        }
    }
}

/// A tuple type gives a type exactly when each of its items does, and then it is the tuple
/// of their types, in the order they are written.
pub proof fn law_tuple_type_elements(p: Pair)
    requires
        p.rule == Rule::tuple_type,
    ensures
        type_item_spec(p) is Ok <==> forall|i: int|
            0 <= i < p.inner.len() ==> (#[trigger] type_item_spec(p.inner[i])) is Ok,
        type_item_spec(p) is Ok ==> (type_item_spec(p)->Ok_0 matches ItemView::Type(
            TypeView::Tuple(ts),
        ) && ts.len() == p.inner.len() && forall|i: int|
            0 <= i < p.inner.len() ==> #[trigger] ts[i] == item_type(
                type_item_spec(p.inner[i])->Ok_0,
            )),
{
    lemma_type_items_elements(p.inner@, p.inner.len() as int);
    assert forall|i: int| 0 <= i < p.inner.len() implies p.inner@[i] == p.inner[i] by {}
}

/// A sum, an option, an array or a list type is made of the types of its items, in the
/// order they are written, with the size or the bound that is written.
pub proof fn law_composite_types(p: Pair)
    requires
        p.inner.len() >= 2 || (p.rule == Rule::option_type && p.inner.len() >= 1),
        type_item_spec(p.inner[0]) matches Ok(ItemView::Type(_)),
        p.rule == Rule::option_type || type_item_spec(p.inner[1]) is Ok,
    ensures
        ({
            let a = item_type(type_item_spec(p.inner[0])->Ok_0);
            let second = type_item_spec(p.inner[1])->Ok_0;
            &&& p.rule == Rule::sum_type ==> type_item_spec(p) == Ok::<ItemView, RichErrorView>(
                ItemView::Type(TypeView::Either(Box::new(a), Box::new(item_type(second)))),
            )
            &&& p.rule == Rule::option_type ==> type_item_spec(p) == Ok::<ItemView, RichErrorView>(
                ItemView::Type(TypeView::Option(Box::new(a))),
            )
            &&& (p.rule == Rule::array_type && second is Size) ==> type_item_spec(p) == Ok::<
                ItemView,
                RichErrorView,
            >(ItemView::Type(TypeView::Array(Box::new(a), second->Size_0)))
            &&& (p.rule == Rule::list_type && second is Bound) ==> type_item_spec(p) == Ok::<
                ItemView,
                RichErrorView,
            >(ItemView::Type(TypeView::List(Box::new(a), second->Bound_0)))
        }),
{
}

/// The first `k` patterns give, in turn, what each of them gives.
proof fn lemma_patterns_elements(s: Seq<Pair>, k: int)
    requires
        0 <= k <= s.len(),
    ensures
        patterns_spec(s, k).len() == k,
        forall|i: int| 0 <= i < k ==> #[trigger] patterns_spec(s, k)[i] == pattern_spec(s[i]),
    decreases k,
{
    if k > 0 {
        lemma_patterns_elements(s, k - 1);
    }
}

/// A tuple or an array pattern holds the patterns of its items, in the order they are
/// written; `_` binds nothing; a variable pattern binds its name.
pub proof fn law_pattern_elements(p: Pair)
    ensures
        p.rule == Rule::tuple_pattern ==> (pattern_spec(p) matches PatternView::Tuple(ps)
            && ps.len() == p.inner.len() && forall|i: int|
            0 <= i < p.inner.len() ==> #[trigger] ps[i] == pattern_spec(p.inner[i])),
        p.rule == Rule::array_pattern ==> (pattern_spec(p) matches PatternView::Array(ps)
            && ps.len() == p.inner.len() && forall|i: int|
            0 <= i < p.inner.len() ==> #[trigger] ps[i] == pattern_spec(p.inner[i])),
        p.rule == Rule::ignore_pattern ==> pattern_spec(p) == PatternView::Ignore,
        (p.rule == Rule::variable_pattern && p.inner.len() >= 1) ==> pattern_spec(p)
            == PatternView::Identifier(p.inner[0].text@),
{
    lemma_patterns_elements(p.inner@, p.inner.len() as int);
    assert forall|i: int| 0 <= i < p.inner.len() implies p.inner@[i] == p.inner[i] by {}
}

/// The first `k` expressions give values exactly when each of them does, and then give the
/// value of each in turn.
proof fn lemma_expressions_elements(s: Seq<Pair>, k: int)
    requires
        0 <= k <= s.len(),
    ensures
        expressions_spec(s, k) is Ok <==> forall|i: int| 0 <= i < k ==> (#[trigger] expression_spec(s[i])) is Ok,
        expressions_spec(s, k) matches Ok(es) ==> es.len() == k && forall|i: int|
            0 <= i < k ==> #[trigger] es[i] == expression_spec(s[i])->Ok_0,
    decreases k,
{
    if k > 0 {
        lemma_expressions_elements(s, k - 1);
        if expressions_spec(s, k - 1) is Ok && !(expression_spec(s[k - 1]) is Ok) {
            assert(!(forall|i: int| 0 <= i < k ==> (#[trigger] expression_spec(s[i])) is Ok));
        }
        if !(expressions_spec(s, k - 1) is Ok) {
            let j = choose|j: int| 0 <= j < k - 1 && !(#[trigger] expression_spec(s[j]) is Ok);
            assert(!(expression_spec(s[j]) is Ok));
        }
    }
}

/// A tuple, an array or a list expression gives a value exactly when each of its items does,
/// and then holds their values in the order they are written.
pub proof fn law_expression_list_elements(p: Pair)
    requires
        p.inner.len() >= 1,
        p.inner[0].rule == Rule::tuple_expr || p.inner[0].rule == Rule::array_expr
            || p.inner[0].rule == Rule::list_expr,
    ensures
        ({
            let c = p.inner[0];
            &&& single_spec(p) is Ok <==> forall|i: int|
                0 <= i < c.inner.len() ==> (#[trigger] expression_spec(c.inner[i])) is Ok
            &&& single_spec(p) is Ok ==> {
                let es = match single_spec(p)->Ok_0.inner {
                    SingleExpressionInnerView::Tuple(es) => es,
                    SingleExpressionInnerView::Array(es) => es,
                    SingleExpressionInnerView::List(es) => es,
                    _ => Seq::empty(),
                };
                &&& c.rule == Rule::tuple_expr ==> single_spec(p)->Ok_0.inner is Tuple
                &&& c.rule == Rule::array_expr ==> single_spec(p)->Ok_0.inner is Array
                &&& c.rule == Rule::list_expr ==> single_spec(p)->Ok_0.inner is List
                &&& es.len() == c.inner.len()
                &&& forall|i: int|
                    0 <= i < c.inner.len() ==> #[trigger] es[i] == expression_spec(c.inner[i])->Ok_0
            }
        }),
{
    let c = p.inner[0];
    lemma_expressions_elements(c.inner@, c.inner.len() as int);
    assert forall|i: int| 0 <= i < c.inner.len() implies c.inner@[i] == c.inner[i] by {}
}

/// `false` and `true` give those booleans, `None` the empty option; a witness and a variable
/// give their names; a decimal gives its digits without underscores.
pub proof fn law_literal_expressions(p: Pair)
    requires
        p.inner.len() >= 1,
    ensures
        ({
            let c = p.inner[0];
            let sp = p.span_spec();
            &&& c.rule == Rule::false_expr ==> single_spec(p) == Ok::<SingleExpressionView, RichErrorView>(
                SingleExpressionView { inner: SingleExpressionInnerView::Boolean(false), span: sp },
            )
            &&& c.rule == Rule::true_expr ==> single_spec(p) == Ok::<SingleExpressionView, RichErrorView>(
                SingleExpressionView { inner: SingleExpressionInnerView::Boolean(true), span: sp },
            )
            &&& c.rule == Rule::none_expr ==> single_spec(p) == Ok::<SingleExpressionView, RichErrorView>(
                SingleExpressionView { inner: SingleExpressionInnerView::Option(None), span: sp },
            )
            &&& (c.rule == Rule::witness_expr && c.inner.len() >= 1) ==> single_spec(p) == Ok::<
                SingleExpressionView,
                RichErrorView,
            >(
                SingleExpressionView {
                    inner: SingleExpressionInnerView::Witness(c.inner[0].text@),
                    span: sp,
                },
            )
            &&& (c.rule == Rule::variable_expr && c.inner.len() >= 1) ==> single_spec(p) == Ok::<
                SingleExpressionView,
                RichErrorView,
            >(
                SingleExpressionView {
                    inner: SingleExpressionInnerView::Variable(c.inner[0].text@),
                    span: sp,
                },
            )
            &&& c.rule == Rule::unsigned_decimal ==> single_spec(p) == Ok::<
                SingleExpressionView,
                RichErrorView,
            >(
                SingleExpressionView {
                    inner: SingleExpressionInnerView::Decimal(without_underscores(c.text@)),
                    span: sp,
                },
            )
        }),
{
}

/// A match pattern binds, on the side it names, the variable it names with the type written
/// after it; `None`, `false` and `true` bind nothing.
pub proof fn law_match_pattern_sides(p: Pair)
    requires
        p.inner.len() >= 1,
    ensures
        ({
            let c = p.inner[0];
            &&& (c.inner.len() >= 2 && type_spec(c.inner[1]) is Ok) ==> {
                let name = c.inner[0].text@;
                let t = type_spec(c.inner[1])->Ok_0;
                &&& c.rule == Rule::left_pattern ==> match_pattern_spec(p) == Ok::<
                    MatchPatternView,
                    RichErrorView,
                >(MatchPatternView::Left(name, t))
                &&& c.rule == Rule::right_pattern ==> match_pattern_spec(p) == Ok::<
                    MatchPatternView,
                    RichErrorView,
                >(MatchPatternView::Right(name, t))
                &&& c.rule == Rule::some_pattern ==> match_pattern_spec(p) == Ok::<
                    MatchPatternView,
                    RichErrorView,
                >(MatchPatternView::SomeValue(name, t))
            }
            &&& c.rule == Rule::none_pattern ==> match_pattern_spec(p) == Ok::<
                MatchPatternView,
                RichErrorView,
            >(MatchPatternView::NoneValue)
            &&& c.rule == Rule::false_pattern ==> match_pattern_spec(p) == Ok::<
                MatchPatternView,
                RichErrorView,
            >(MatchPatternView::False)
            &&& c.rule == Rule::true_pattern ==> match_pattern_spec(p) == Ok::<
                MatchPatternView,
                RichErrorView,
            >(MatchPatternView::True)
        }),
{
}

/// A jet is called by its text after `jet_`; the unwraps of left and right values carry the
/// type written in them; `unwrap` carries none.
pub proof fn law_call_names(p: Pair)
    requires
        p.inner.len() >= 1,
    ensures
        ({
            let c = p.inner[0];
            &&& c.rule == Rule::jet ==> call_name_spec(p) == Ok::<CallNameView, RichErrorView>(
                CallNameView::Jet(c.text@.skip(4)),
            )
            &&& (c.rule == Rule::unwrap_left && c.inner.len() >= 1 && type_spec(c.inner[0]) is Ok)
                ==> call_name_spec(p) == Ok::<CallNameView, RichErrorView>(
                CallNameView::UnwrapLeft(type_spec(c.inner[0])->Ok_0),
            )
            &&& (c.rule == Rule::unwrap_right && c.inner.len() >= 1 && type_spec(c.inner[0]) is Ok)
                ==> call_name_spec(p) == Ok::<CallNameView, RichErrorView>(
                CallNameView::UnwrapRight(type_spec(c.inner[0])->Ok_0),
            )
            &&& c.rule == Rule::unwrap ==> call_name_spec(p) == Ok::<CallNameView, RichErrorView>(
                CallNameView::Unwrap,
            )
        }),
{
}

/// A builtin alias that parses is the one whose name is the text; a text that names none is
/// reported, with the text, at the area of the pair.
pub proof fn law_builtin_alias_named_by_text(p: Pair)
    ensures
        builtin_spec(p) matches Ok(a) ==> a.name() == p.text@,
        builtin_spec(p) is Err ==> builtin_spec(p) == Err::<BuiltinAlias, RichErrorView>(
            error_at(ErrorView::CannotParse("Unknown alias: "@ + p.text@), p),
        ),
{
}

/// Two arms that do not fit together are reported with their patterns in the order they are
/// written, at the area of the match.
pub proof fn law_incompatible_arms_reported(
    scrutinee: ExpressionView,
    first: MatchArmView,
    second: MatchArmView,
    span: Span,
)
    requires
        !arms_fit(first.pattern, second.pattern),
        !arms_fit(second.pattern, first.pattern),
    ensures
        order_arms(scrutinee, first, second, span) == Err::<MatchView, RichErrorView>(
            RichErrorView {
                error: ErrorView::IncompatibleMatchArms(first.pattern, second.pattern),
                span,
            },
        ),
{
}

} // verus!
