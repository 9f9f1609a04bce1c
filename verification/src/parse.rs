//! Parsing of token trees into the abstract syntax tree: what each parse gives,
//! and the code that computes it.

use vstd::prelude::*;
use crate::ast::{
    arms_fit, expressions_view, statements_view, Assignment, Call, CallName, Expression,
    ExpressionInner, Match, MatchArm, MatchPattern, Program, SingleExpression,
    SingleExpressionInner, Statement, TypeAlias, AssignmentView, Bits, BitsView, Bytes, CallNameView, CallView, Either,
    ExpressionInnerView, ExpressionView, Identifier, JetName, MatchArmView, MatchPatternView,
    MatchView, SingleExpressionInnerView, SingleExpressionView, StatementView, TypeAliasView,
    UnsignedDecimal, WitnessName,
};
use crate::error::{Error, ErrorView, RichError, RichErrorView, result_view};
use crate::hex::{all_hex_digits, decode_hex, hex_decoded, hex_error_message};
use crate::span::{Position, Span};
use crate::text::{
    chars_from, chars_of, decimal_usize, is_power_of_two, parse_usize, power_of_two,
    remove_underscores, string_from_chars, without_underscores,
};
use crate::tree::{
    first_non_statement, is_expression_rule, is_pattern_rule, is_type_entry, is_type_item,
    is_type_rule, item_kind, ItemKind, Pair, Rule,
};
use crate::types::{AliasedType, BuiltinAlias, TypeView, UIntType, types_view, lemma_types_view_len};
use crate::num::NonZeroPow2Usize;
use crate::pattern::{Pattern, PatternView, patterns_view};

verus! {

impl Span {
    /// The area that the text of `pair` spans.
    pub fn from_pair(pair: &Pair) -> (res: Span)
        requires
            pair.span_ok(),
        ensures
            res == pair.span_spec(),
    {
        let start = Position::new(pair.line, pair.col);
        let end = Position::new(pair.end_line, pair.end_col);
        Span::new(start, end)
    }
}

/// The error `e` at the area of `p`.
pub open spec fn error_at(e: ErrorView, p: Pair) -> RichErrorView {
    RichErrorView { error: e, span: p.span_spec() }
}

/// `2` to the power `k`.
pub open spec fn pow2(k: nat) -> nat
    decreases k,
{
    if k == 0 {
        1
    } else {
        2 * pow2((k - 1) as nat)
    }
}

/// The number that the binary digits `s` stand for, the most significant first;
/// a `1` is a one, any other character a zero.
pub open spec fn bits_value(s: Seq<char>) -> nat
    decreases s.len(),
{
    if s.len() == 0 {
        0
    } else {
        2 * bits_value(s.drop_last()) + if s.last() == '1' {
            1nat
        } else {
            0nat
        }
    }
}

/// The bytes that the binary digits `bits` stand for, eight digits to a byte.
pub open spec fn bits_bytes(bits: Seq<char>) -> Seq<u8> {
    Seq::new(bits.len() / 8, |j: int| bits_value(bits.subrange(8 * j, 8 * j + 8)) as u8)
}

/// What the bit string of `p` gives: the digits after `0b`, whose number must be a power of
/// two from 1 to 256.
pub open spec fn bits_spec(p: Pair) -> Result<BitsView, RichErrorView> {
    let bits = p.text@.skip(2);
    let n = bits.len();
    if !is_power_of_two(n) {
        Err(error_at(ErrorView::BitStringPow2(n as usize), p))
    } else if n == 1 {
        Ok(BitsView::U1(bits_value(bits) as u8))
    } else if n == 2 {
        Ok(BitsView::U2(bits_value(bits) as u8))
    } else if n == 4 {
        Ok(BitsView::U4(bits_value(bits) as u8))
    } else if n <= 256 {
        Ok(BitsView::Long(bits_bytes(bits)))
    } else {
        Err(error_at(ErrorView::BitStringPow2(n as usize), p))
    }
}

/// The hexadecimal digits of the byte string of `p`: after `0x`, without underscores.
pub open spec fn hex_digits_of(p: Pair) -> Seq<char> {
    without_underscores(p.text@.skip(2))
}

/// What the byte string of `p` gives: its digits, whose number must be a power of two
/// from 2 to 64, decoded.
pub open spec fn bytes_spec(p: Pair) -> Result<Seq<u8>, RichErrorView> {
    let d = hex_digits_of(p);
    let n = d.len();
    if n < 2 || 64 < n || !is_power_of_two(n) {
        Err(error_at(ErrorView::HexStringPow2(n as usize), p))
    } else if all_hex_digits(d) {
        Ok(hex_decoded(d))
    } else {
        Err(error_at(ErrorView::CannotParse(hex_error_message()), p))
    }
}

/// Zeros added in front of binary digits do not change their value.
proof fn lemma_bits_value_leading_zeros(z: Seq<char>, s: Seq<char>)
    requires
        forall|i: int| 0 <= i < z.len() ==> z[i] == '0',
    ensures
        bits_value(z + s) == bits_value(s),
    decreases s.len(),
{
    if s.len() == 0 {
        assert(z + s == z);
        lemma_bits_value_zeros(z);
    } else {
        assert((z + s).drop_last() == z + s.drop_last());
        lemma_bits_value_leading_zeros(z, s.drop_last());
    }
}

proof fn lemma_bits_value_zeros(z: Seq<char>)
    requires
        forall|i: int| 0 <= i < z.len() ==> z[i] == '0',
    ensures
        bits_value(z) == 0,
    decreases z.len(),
{
    if z.len() > 0 {
        lemma_bits_value_zeros(z.drop_last());
    }
}

/// `k` binary digits stand for a number less than `2` to the power `k`.
pub proof fn lemma_bits_value_bound(s: Seq<char>)
    ensures
        bits_value(s) < pow2(s.len()),
    decreases s.len(),
{
    if s.len() > 0 {
        lemma_bits_value_bound(s.drop_last());
    }
}

/// A power of two is 1, 2, 4, or a multiple of 8 whose eighth is a power of two.
proof fn lemma_power_of_two_cases(n: nat)
    requires
        is_power_of_two(n),
    ensures
        n == 1 || n == 2 || n == 4 || (n >= 8 && n % 8 == 0 && is_power_of_two(n / 8)),
{
    reveal_with_fuel(is_power_of_two, 4);
    if n >= 8 {
        assert(is_power_of_two(n / 2));
        assert(is_power_of_two(n / 4)) by {
            assert(n / 4 == (n / 2) / 2);
        }
        assert(n / 8 == (n / 4) / 2);
    }
}

/// Half of a power of two greater than one is a power of two.
proof fn lemma_power_of_two_half(n: nat)
    requires
        is_power_of_two(n),
        n >= 2,
    ensures
        is_power_of_two(n / 2),
        n % 2 == 0,
{
}

impl Identifier {
    /// The identifier that `pair` matched.
    pub fn parse(pair: &Pair) -> (res: Result<Self, RichError>)
        requires
            pair.rule == Rule::identifier,
        ensures
            res matches Ok(i) && i@ == pair.text@,
    {
        Ok(Identifier::new(pair.text.clone()))
    }
}

impl WitnessName {
    /// The witness name that `pair` matched.
    pub fn parse(pair: &Pair) -> (res: Result<Self, RichError>)
        requires
            pair.rule == Rule::witness_name,
        ensures
            res matches Ok(w) && w@ == pair.text@,
    {
        Ok(WitnessName::new(pair.text.clone()))
    }
}

impl JetName {
    /// The jet name that `pair` matched, without its prefix `jet_`.
    pub fn parse(pair: &Pair) -> (res: Result<Self, RichError>)
        requires
            pair.rule == Rule::jet,
            pair.local_ok(),
        ensures
            res matches Ok(j) && j@ == pair.text@.skip(4),
    {
        proof {
            reveal_strlit("jet_");
        }
        let t = chars_of(pair.text.as_str());
        let name = chars_from(t.as_slice(), 4);
        Ok(JetName::new(string_from_chars(name.as_slice())))
    }
}

impl UnsignedDecimal {
    /// The decimal number that `pair` matched, without its underscores.
    pub fn parse(pair: &Pair) -> (res: Result<Self, RichError>)
        requires
            pair.rule == Rule::unsigned_decimal,
        ensures
            res matches Ok(d) && d@ == without_underscores(pair.text@),
    {
        let t = chars_of(pair.text.as_str());
        let digits = remove_underscores(t.as_slice());
        Ok(UnsignedDecimal::new(string_from_chars(digits.as_slice())))
    }
}

impl Bits {
    /// The bit string that `pair` matched.
    pub fn parse(pair: &Pair) -> (res: Result<Self, RichError>)
        requires
            pair.rule == Rule::bit_string,
            pair.local_ok(),
            pair.span_ok(),
        ensures
            result_view(res) == bits_spec(*pair),
    {
        proof {
            reveal_strlit("0b");
        }
        let t = chars_of(pair.text.as_str());
        let bits = chars_from(t.as_slice(), 2);
        let n = bits.len();
        if !power_of_two(n) {
            return Err(RichError::new(Error::BitStringPow2(n), Span::from_pair(pair)));
        }
        proof {
            lemma_power_of_two_cases(n as nat);
        }
        let byte_len = if n % 8 == 0 {
            n / 8
        } else {
            n / 8 + 1
        };
        let padding_len = 8usize.saturating_sub(n);
        let mut padded: Vec<char> = Vec::new();
        let mut i: usize = 0;
        while i < padding_len
            invariant
                i <= padding_len,
                padded@.len() == i,
                forall|k: int| 0 <= k < i ==> padded@[k] == '0',
            decreases padding_len - i,
        {
            padded.push('0');
            i = i + 1;
        }
        let ghost zeros = padded@;
        let mut i: usize = 0;
        while i < n
            invariant
                i <= n,
                n == bits@.len(),
                padded@ == zeros + bits@.take(i as int),
            decreases n - i,
        {
            padded.push(bits[i]);
            assert(bits@.take(i as int + 1) == bits@.take(i as int).push(bits@[i as int]));
            i = i + 1;
        }
        assert(bits@.take(n as int) == bits@);
        assert(padded@.len() == byte_len * 8);
        assert(padded@.len() == padded.len());
        let mut bytes: Vec<u8> = Vec::new();
        let mut j: usize = 0;
        while j < byte_len
            invariant
                j <= byte_len,
                padded@.len() == byte_len * 8,
                byte_len * 8 <= usize::MAX,
                bytes@.len() == j,
                forall|k: int|
                    0 <= k < j ==> #[trigger] bytes@[k] == bits_value(
                        padded@.subrange(8 * k, 8 * k + 8),
                    ) as u8,
            decreases byte_len - j,
        {
            let mut byte: u8 = 0;
            let mut k: usize = 0;
            while k < 8
                invariant
                    k <= 8,
                    j < byte_len,
                    padded@.len() == byte_len * 8,
                    byte_len * 8 <= usize::MAX,
                    byte as nat == bits_value(padded@.subrange(8 * j, 8 * j + k)),
                decreases 8 - k,
            {
                let bit = padded[8 * j + k];
                proof {
                    let s = padded@.subrange(8 * j, 8 * j + k + 1);
                    assert(s.drop_last() == padded@.subrange(8 * j, 8 * j + k));
                    lemma_bits_value_bound(padded@.subrange(8 * j, 8 * j + k));
                    reveal_with_fuel(pow2, 8);
                }
                let b: u8 = if bit == '1' {
                    1
                } else {
                    0
                };
                assert(byte < 128);
                assert((byte << 1 | b) == 2 * byte + b) by (bit_vector)
                    requires
                        byte < 128,
                        b <= 1,
                ;
                byte = byte << 1 | b;
                k = k + 1;
            }
            bytes.push(byte);
            j = j + 1;
        }
        proof {
            lemma_bits_value_bound(bits@);
            reveal_with_fuel(pow2, 5);
            if n < 8 {
                lemma_bits_value_leading_zeros(zeros, bits@);
                assert(padded@.subrange(0, 8) == padded@);
                assert(bytes@[0] == bits_value(bits@) as u8);
            }
        }
        if n == 1 {
            Ok(Bits::u1(bytes[0]))
        } else if n == 2 {
            Ok(Bits::u2(bytes[0]))
        } else if n == 4 {
            Ok(Bits::u4(bytes[0]))
        } else if n <= 256 {
            proof {
                assert(zeros.len() == 0);
                assert(padded@ == bits@);
                assert(bytes@ == bits_bytes(bits@));
                reveal_with_fuel(is_power_of_two, 6);
            }
            Ok(Bits::long(bytes))
        } else {
            Err(RichError::new(Error::BitStringPow2(n), Span::from_pair(pair)))
        }
    }
}

impl Bytes {
    /// The byte string that `pair` matched.
    pub fn parse(pair: &Pair) -> (res: Result<Self, RichError>)
        requires
            pair.rule == Rule::byte_string,
            pair.local_ok(),
            pair.span_ok(),
        ensures
            result_view(res) == bytes_spec(*pair),
    {
        proof {
            reveal_strlit("0x");
        }
        let t = chars_of(pair.text.as_str());
        let rest = chars_from(t.as_slice(), 2);
        let digits = remove_underscores(rest.as_slice());
        let n = digits.len();
        if n < 2 || 64 < n || !power_of_two(n) {
            return Err(RichError::new(Error::HexStringPow2(n), Span::from_pair(pair)));
        }
        proof {
            lemma_power_of_two_half(n as nat);
        }
        let s = string_from_chars(digits.as_slice());
        match decode_hex(s.as_str()) {
            Ok(bytes) => {
                proof {
                    reveal_with_fuel(is_power_of_two, 7);
                }
                Ok(Bytes::new(bytes))
            },
            Err(m) => Err(RichError::new(Error::CannotParse(m), Span::from_pair(pair))),
        }
    }
}

/// What an item of a type expression stands for: a type, the size of an array
/// or the bound of a list.
pub enum ItemView {
    Type(TypeView),
    Size(usize),
    Bound(usize),
}

/// The type that an item stands for, if it stands for one.
pub open spec fn item_type(i: ItemView) -> TypeView {
    match i {
        ItemView::Type(t) => t,
        _ => TypeView::Boolean,
    }
}

/// What an item stands for, by its kind alone.
pub open spec fn item_view_kind(i: ItemView) -> ItemKind {
    match i {
        ItemView::Type(_) => ItemKind::Type,
        ItemView::Size(_) => ItemKind::Size,
        ItemView::Bound(_) => ItemKind::Bound,
    }
}

/// The unsigned integer type named by the text of `p`.
pub open spec fn uint_spec(p: Pair) -> UIntType {
    match UIntType::from_name(p.text@) {
        Some(u) => u,
        None => UIntType::U1,
    }
}

/// The builtin alias named by the text of `p`, or the error of an unknown name.
pub open spec fn builtin_spec(p: Pair) -> Result<BuiltinAlias, RichErrorView> {
    match BuiltinAlias::from_name(p.text@) {
        Some(a) => Ok(a),
        None => Err(error_at(ErrorView::CannotParse(BuiltinAlias::unknown_message(p.text@)), p)),
    }
}

/// The name that the first pair nested in `p` matched.
pub open spec fn first_name(p: Pair) -> Seq<char> {
    if p.inner.len() > 0 {
        p.inner[0].text@
    } else {
        Seq::empty()
    }
}

/// What the item `p` of a type expression gives. The items nested in it are read from
/// left to right, and the first error met is the result.
pub open spec fn type_item_spec(p: Pair) -> Result<ItemView, RichErrorView>
    decreases p, 0int,
{
    let n = p.inner.len();
    match p.rule {
        Rule::alias_name => Ok(ItemView::Type(TypeView::Alias(first_name(p)))),
        Rule::builtin_alias => match builtin_spec(p) {
            Ok(a) => Ok(ItemView::Type(TypeView::Builtin(a))),
            Err(e) => Err(e),
        },
        Rule::unsigned_type => Ok(ItemView::Type(TypeView::UInt(uint_spec(p)))),
        Rule::boolean_type => Ok(ItemView::Type(TypeView::Boolean)),
        Rule::sum_type => if n >= 2 {
            match type_item_spec(p.inner[0]) {
                Err(e) => Err(e),
                Ok(l) => match type_item_spec(p.inner[1]) {
                    Err(e) => Err(e),
                    Ok(r) => Ok(
                        ItemView::Type(
                            TypeView::Either(Box::new(item_type(l)), Box::new(item_type(r))),
                        ),
                    ),
                },
            }
        } else {
            Ok(ItemView::Type(TypeView::Boolean))
        },
        Rule::option_type => if n >= 1 {
            match type_item_spec(p.inner[0]) {
                Err(e) => Err(e),
                Ok(t) => Ok(ItemView::Type(TypeView::Option(Box::new(item_type(t))))),
            }
        } else {
            Ok(ItemView::Type(TypeView::Boolean))
        },
        Rule::tuple_type => match type_items_spec(p.inner@, n as int) {
            Err(e) => Err(e),
            Ok(ts) => Ok(ItemView::Type(TypeView::Tuple(ts))),
        },
        Rule::array_type => if n >= 2 {
            match type_item_spec(p.inner[0]) {
                Err(e) => Err(e),
                Ok(el) => match type_item_spec(p.inner[1]) {
                    Err(e) => Err(e),
                    Ok(ItemView::Size(size)) => Ok(
                        ItemView::Type(TypeView::Array(Box::new(item_type(el)), size)),
                    ),
                    Ok(_) => Ok(ItemView::Type(TypeView::Boolean)),
                },
            }
        } else {
            Ok(ItemView::Type(TypeView::Boolean))
        },
        Rule::array_size => match decimal_usize(p.text@) {
            Ok(size) => Ok(ItemView::Size(size)),
            Err(m) => Err(error_at(ErrorView::CannotParse(m), p)),
        },
        Rule::list_type => if n >= 2 {
            match type_item_spec(p.inner[0]) {
                Err(e) => Err(e),
                Ok(el) => match type_item_spec(p.inner[1]) {
                    Err(e) => Err(e),
                    Ok(ItemView::Bound(bound)) => Ok(
                        ItemView::Type(TypeView::List(Box::new(item_type(el)), bound)),
                    ),
                    Ok(_) => Ok(ItemView::Type(TypeView::Boolean)),
                },
            }
        } else {
            Ok(ItemView::Type(TypeView::Boolean))
        },
        Rule::list_bound => match decimal_usize(p.text@) {
            Err(m) => Err(error_at(ErrorView::CannotParse(m), p)),
            Ok(bound) => if NonZeroPow2Usize::is_valid(bound as nat) {
                Ok(ItemView::Bound(bound))
            } else {
                Err(error_at(ErrorView::ListBoundPow2(bound), p))
            },
        },
        Rule::ty => if n >= 1 {
            type_item_spec(p.inner[0])
        } else {
            Ok(ItemView::Type(TypeView::Boolean))
        },
        _ => Ok(ItemView::Type(TypeView::Boolean)),
    }
}

/// What the first `k` items `s` of a tuple type give: their types in order,
/// or the first error met from left to right.
pub open spec fn type_items_spec(s: Seq<Pair>, k: int) -> Result<Seq<TypeView>, RichErrorView>
    decreases s, k,
{
    if k <= 0 || k > s.len() {
        Ok(Seq::empty())
    } else {
        match type_items_spec(s, k - 1) {
            Err(e) => Err(e),
            Ok(v) => match type_item_spec(s[k - 1]) {
                Err(e) => Err(e),
                Ok(i) => Ok(v.push(item_type(i))),
            },
        }
    }
}

/// What the type expression `p` gives.
pub open spec fn type_spec(p: Pair) -> Result<TypeView, RichErrorView> {
    match type_item_spec(p) {
        Ok(i) => Ok(item_type(i)),
        Err(e) => Err(e),
    }
}

/// What the pattern `p` gives.
pub open spec fn pattern_spec(p: Pair) -> PatternView
    decreases p, 0int,
{
    match p.rule {
        Rule::pattern => if p.inner.len() >= 1 {
            pattern_spec(p.inner[0])
        } else {
            PatternView::Ignore
        },
        Rule::variable_pattern => PatternView::Identifier(first_name(p)),
        Rule::tuple_pattern => PatternView::Tuple(patterns_spec(p.inner@, p.inner.len() as int)),
        Rule::array_pattern => PatternView::Array(patterns_spec(p.inner@, p.inner.len() as int)),
        _ => PatternView::Ignore,
    }
}

/// What the first `k` patterns `s` give, in order.
pub open spec fn patterns_spec(s: Seq<Pair>, k: int) -> Seq<PatternView>
    decreases s, k,
{
    if k <= 0 || k > s.len() {
        Seq::empty()
    } else {
        patterns_spec(s, k - 1).push(pattern_spec(s[k - 1]))
    }
}

/// A nested pair of a well-formed pair is well formed.
pub proof fn lemma_wf_inner(p: Pair, i: int)
    requires
        p.wf(),
        0 <= i < p.inner.len(),
    ensures
        p.inner[i].wf(),
        p.inner[i].local_ok(),
        p.inner[i].span_ok(),
{
    assert(p.inner[i].wf());
}

impl UIntType {
    /// The unsigned integer type that `pair` names.
    pub fn parse(pair: &Pair) -> (res: Result<Self, RichError>)
        requires
            pair.rule == Rule::unsigned_type,
            pair.local_ok(),
        ensures
            res matches Ok(u) && u == uint_spec(*pair),
    {
        let t = chars_of(pair.text.as_str());
        match UIntType::from_chars(t.as_slice()) {
            Some(u) => Ok(u),
            None => unreached(),
        }
    }
}

impl BuiltinAlias {
    /// The builtin alias that `pair` names.
    pub fn parse(pair: &Pair) -> (res: Result<Self, RichError>)
        requires
            pair.rule == Rule::builtin_alias,
            pair.span_ok(),
        ensures
            match (res, builtin_spec(*pair)) {
                (Ok(a), Ok(b)) => a == b,
                (Err(e), Err(f)) => e@ == f,
                _ => false,
            },
    {
        let t = chars_of(pair.text.as_str());
        match BuiltinAlias::from_chars(t.as_slice()) {
            Ok(a) => Ok(a),
            Err(m) => Err(RichError::new(Error::CannotParse(m), Span::from_pair(pair))),
        }
    }
}

/// What the call name `p` gives.
pub open spec fn call_name_spec(p: Pair) -> Result<CallNameView, RichErrorView> {
    if p.inner.len() < 1 {
        arbitrary()
    } else {
        let c = p.inner[0];
        match c.rule {
            Rule::jet => Ok(CallNameView::Jet(c.text@.skip(4))),
            Rule::unwrap_left => if c.inner.len() >= 1 {
                match type_spec(c.inner[0]) {
                    Ok(t) => Ok(CallNameView::UnwrapLeft(t)),
                    Err(e) => Err(e),
                }
            } else {
                arbitrary()
            },
            Rule::unwrap_right => if c.inner.len() >= 1 {
                match type_spec(c.inner[0]) {
                    Ok(t) => Ok(CallNameView::UnwrapRight(t)),
                    Err(e) => Err(e),
                }
            } else {
                arbitrary()
            },
            _ => Ok(CallNameView::Unwrap),
        }
    }
}

/// What the match pattern `p` gives.
pub open spec fn match_pattern_spec(p: Pair) -> Result<MatchPatternView, RichErrorView> {
    if p.inner.len() < 1 {
        arbitrary()
    } else {
        let c = p.inner[0];
        let typed = c.inner.len() >= 2;
        match c.rule {
            Rule::left_pattern => if typed {
                match type_spec(c.inner[1]) {
                    Ok(t) => Ok(MatchPatternView::Left(c.inner[0].text@, t)),
                    Err(e) => Err(e),
                }
            } else {
                arbitrary()
            },
            Rule::right_pattern => if typed {
                match type_spec(c.inner[1]) {
                    Ok(t) => Ok(MatchPatternView::Right(c.inner[0].text@, t)),
                    Err(e) => Err(e),
                }
            } else {
                arbitrary()
            },
            Rule::some_pattern => if typed {
                match type_spec(c.inner[1]) {
                    Ok(t) => Ok(MatchPatternView::SomeValue(c.inner[0].text@, t)),
                    Err(e) => Err(e),
                }
            } else {
                arbitrary()
            },
            Rule::none_pattern => Ok(MatchPatternView::NoneValue),
            Rule::false_pattern => Ok(MatchPatternView::False),
            _ => Ok(MatchPatternView::True),
        }
    }
}

/// What the type alias `p` gives.
pub open spec fn type_alias_spec(p: Pair) -> Result<TypeAliasView, RichErrorView> {
    if p.inner.len() < 2 {
        arbitrary()
    } else {
        match type_spec(p.inner[1]) {
            Ok(t) => Ok(TypeAliasView { name: p.inner[0].text@, ty: t, span: p.span_spec() }),
            Err(e) => Err(e),
        }
    }
}

/// The match of `scrutinee` with the arms `first` and `second` in either order:
/// the arm of left, none or false values becomes the left arm; arms that do not fit
/// together are an error.
pub open spec fn order_arms(
    scrutinee: ExpressionView,
    first: MatchArmView,
    second: MatchArmView,
    span: Span,
) -> Result<MatchView, RichErrorView> {
    if arms_fit(first.pattern, second.pattern) {
        Ok(MatchView { scrutinee: Box::new(scrutinee), left: first, right: second, span })
    } else if arms_fit(second.pattern, first.pattern) {
        Ok(MatchView { scrutinee: Box::new(scrutinee), left: second, right: first, span })
    } else {
        Err(
            RichErrorView {
                error: ErrorView::IncompatibleMatchArms(first.pattern, second.pattern),
                span,
            },
        )
    }
}

/// What the expression `p` gives: a block or a single expression, with the area of `p`.
pub open spec fn expression_spec(p: Pair) -> Result<ExpressionView, RichErrorView>
    decreases p, 2int,
{
    if p.rule == Rule::expression {
        if p.inner.len() >= 1 {
            expression_kind_spec(p.inner[0], p.span_spec())
        } else {
            arbitrary()
        }
    } else {
        expression_kind_spec(p, p.span_spec())
    }
}

/// What the block or single expression `q` gives, with the area `span`.
pub open spec fn expression_kind_spec(q: Pair, span: Span) -> Result<
    ExpressionView,
    RichErrorView,
>
    decreases q, 1int,
{
    match q.rule {
        Rule::block_expression => {
            let k = first_non_statement(q.inner@, 0);
            if 0 <= k < q.inner.len() {
                match statements_spec(q.inner@, k) {
                    Err(e) => Err(e),
                    Ok(stmts) => match expression_spec(q.inner[k]) {
                        Err(e) => Err(e),
                        Ok(e) => Ok(
                            ExpressionView {
                                inner: ExpressionInnerView::Block(stmts, Box::new(e)),
                                span,
                            },
                        ),
                    },
                }
            } else {
                arbitrary()
            }
        },
        Rule::single_expression => match single_spec(q) {
            Ok(s) => Ok(ExpressionView { inner: ExpressionInnerView::Single(s), span }),
            Err(e) => Err(e),
        },
        _ => arbitrary(),
    }
}

/// What the single expression `p` gives.
pub open spec fn single_spec(p: Pair) -> Result<SingleExpressionView, RichErrorView>
    decreases p, 0int,
{
    if p.inner.len() < 1 {
        arbitrary()
    } else {
        let c = p.inner[0];
        let inner: Result<SingleExpressionInnerView, RichErrorView> = match c.rule {
            Rule::left_expr => if c.inner.len() >= 1 {
                match expression_spec(c.inner[0]) {
                    Ok(e) => Ok(SingleExpressionInnerView::Either(Either::Left(Box::new(e)))),
                    Err(e) => Err(e),
                }
            } else {
                arbitrary()
            },
            Rule::right_expr => if c.inner.len() >= 1 {
                match expression_spec(c.inner[0]) {
                    Ok(e) => Ok(SingleExpressionInnerView::Either(Either::Right(Box::new(e)))),
                    Err(e) => Err(e),
                }
            } else {
                arbitrary()
            },
            Rule::none_expr => Ok(SingleExpressionInnerView::Option(None)),
            Rule::some_expr => if c.inner.len() >= 1 {
                match expression_spec(c.inner[0]) {
                    Ok(e) => Ok(SingleExpressionInnerView::Option(Some(Box::new(e)))),
                    Err(e) => Err(e),
                }
            } else {
                arbitrary()
            },
            Rule::false_expr => Ok(SingleExpressionInnerView::Boolean(false)),
            Rule::true_expr => Ok(SingleExpressionInnerView::Boolean(true)),
            Rule::call_expr => match call_spec(c) {
                Ok(call) => Ok(SingleExpressionInnerView::Call(call)),
                Err(e) => Err(e),
            },
            Rule::bit_string => match bits_spec(c) {
                Ok(b) => Ok(SingleExpressionInnerView::BitString(b)),
                Err(e) => Err(e),
            },
            Rule::byte_string => match bytes_spec(c) {
                Ok(b) => Ok(SingleExpressionInnerView::ByteString(b)),
                Err(e) => Err(e),
            },
            Rule::unsigned_decimal => Ok(
                SingleExpressionInnerView::Decimal(without_underscores(c.text@)),
            ),
            Rule::witness_expr => Ok(SingleExpressionInnerView::Witness(first_name(c))),
            Rule::variable_expr => Ok(SingleExpressionInnerView::Variable(first_name(c))),
            Rule::expression => match expression_spec(c) {
                Ok(e) => Ok(SingleExpressionInnerView::Expression(Box::new(e))),
                Err(e) => Err(e),
            },
            Rule::match_expr => match match_spec(c) {
                Ok(m) => Ok(SingleExpressionInnerView::Match(m)),
                Err(e) => Err(e),
            },
            Rule::tuple_expr => match expressions_spec(c.inner@, c.inner.len() as int) {
                Ok(es) => Ok(SingleExpressionInnerView::Tuple(es)),
                Err(e) => Err(e),
            },
            Rule::array_expr => match expressions_spec(c.inner@, c.inner.len() as int) {
                Ok(es) => Ok(SingleExpressionInnerView::Array(es)),
                Err(e) => Err(e),
            },
            Rule::list_expr => match expressions_spec(c.inner@, c.inner.len() as int) {
                Ok(es) => Ok(SingleExpressionInnerView::List(es)),
                Err(e) => Err(e),
            },
            _ => arbitrary(),
        };
        match inner {
            Ok(i) => Ok(SingleExpressionView { inner: i, span: p.span_spec() }),
            Err(e) => Err(e),
        }
    }
}

/// What the call `p` gives: its name, then its arguments from left to right.
pub open spec fn call_spec(p: Pair) -> Result<CallView, RichErrorView>
    decreases p, 0int,
{
    if p.inner.len() < 2 {
        arbitrary()
    } else {
        match call_name_spec(p.inner[0]) {
            Err(e) => Err(e),
            Ok(name) => match expressions_spec(p.inner[1].inner@, p.inner[1].inner.len() as int) {
                Err(e) => Err(e),
                Ok(args) => Ok(CallView { name, args, span: p.span_spec() }),
            },
        }
    }
}

/// What the match `p` gives: the matched expression, then the two arms, put in order.
pub open spec fn match_spec(p: Pair) -> Result<MatchView, RichErrorView>
    decreases p, 0int,
{
    if p.inner.len() < 3 {
        arbitrary()
    } else {
        match expression_spec(p.inner[0]) {
            Err(e) => Err(e),
            Ok(scrutinee) => match match_arm_spec(p.inner[1]) {
                Err(e) => Err(e),
                Ok(first) => match match_arm_spec(p.inner[2]) {
                    Err(e) => Err(e),
                    Ok(second) => order_arms(scrutinee, first, second, p.span_spec()),
                },
            },
        }
    }
}

/// What the match arm `p` gives: its pattern, then its expression.
pub open spec fn match_arm_spec(p: Pair) -> Result<MatchArmView, RichErrorView>
    decreases p, 0int,
{
    if p.inner.len() < 2 {
        arbitrary()
    } else {
        match match_pattern_spec(p.inner[0]) {
            Err(e) => Err(e),
            Ok(pattern) => match expression_spec(p.inner[1]) {
                Err(e) => Err(e),
                Ok(e) => Ok(MatchArmView { pattern, expression: Box::new(e) }),
            },
        }
    }
}

/// What the statement `p` gives.
pub open spec fn statement_spec(p: Pair) -> Result<StatementView, RichErrorView>
    decreases p, 1int,
{
    if p.inner.len() < 1 {
        arbitrary()
    } else {
        let c = p.inner[0];
        match c.rule {
            Rule::assignment => match assignment_spec(c) {
                Ok(a) => Ok(StatementView::Assignment(a)),
                Err(e) => Err(e),
            },
            Rule::expression => match expression_spec(c) {
                Ok(e) => Ok(StatementView::Expression(e)),
                Err(e) => Err(e),
            },
            _ => match type_alias_spec(c) {
                Ok(t) => Ok(StatementView::TypeAlias(t)),
                Err(e) => Err(e),
            },
        }
    }
}

/// What the assignment `p` gives: its pattern, its type, then its expression.
pub open spec fn assignment_spec(p: Pair) -> Result<AssignmentView, RichErrorView>
    decreases p, 0int,
{
    if p.inner.len() < 3 {
        arbitrary()
    } else {
        match type_spec(p.inner[1]) {
            Err(e) => Err(e),
            Ok(ty) => match expression_spec(p.inner[2]) {
                Err(e) => Err(e),
                Ok(e) => Ok(
                    AssignmentView {
                        pattern: pattern_spec(p.inner[0]),
                        ty,
                        expression: e,
                        span: p.span_spec(),
                    },
                ),
            },
        }
    }
}

/// What the first `k` expressions `s` give, in order, or the first error from left to right.
pub open spec fn expressions_spec(s: Seq<Pair>, k: int) -> Result<Seq<ExpressionView>, RichErrorView>
    decreases s, k,
{
    if k <= 0 || k > s.len() {
        Ok(Seq::empty())
    } else {
        match expressions_spec(s, k - 1) {
            Err(e) => Err(e),
            Ok(v) => match expression_spec(s[k - 1]) {
                Err(e) => Err(e),
                Ok(x) => Ok(v.push(x)),
            },
        }
    }
}

/// What the first `k` statements `s` give, in order, or the first error from left to right.
pub open spec fn statements_spec(s: Seq<Pair>, k: int) -> Result<Seq<StatementView>, RichErrorView>
    decreases s, k,
{
    if k <= 0 || k > s.len() {
        Ok(Seq::empty())
    } else {
        match statements_spec(s, k - 1) {
            Err(e) => Err(e),
            Ok(v) => match statement_spec(s[k - 1]) {
                Err(e) => Err(e),
                Ok(x) => Ok(v.push(x)),
            },
        }
    }
}

/// What the first `k` items `s` of a program give: its statements in order, the end of
/// input left out, or the first error from left to right.
pub open spec fn program_items_spec(s: Seq<Pair>, k: int) -> Result<Seq<StatementView>, RichErrorView>
    decreases k,
{
    if k <= 0 || k > s.len() {
        Ok(Seq::empty())
    } else {
        match program_items_spec(s, k - 1) {
            Err(e) => Err(e),
            Ok(v) => if s[k - 1].rule == Rule::EOI {
                Ok(v)
            } else {
                match statement_spec(s[k - 1]) {
                    Err(e) => Err(e),
                    Ok(x) => Ok(v.push(x)),
                }
            },
        }
    }
}

/// What the program `p` gives.
pub open spec fn program_spec(p: Pair) -> Result<Seq<StatementView>, RichErrorView> {
    program_items_spec(p.inner@, p.inner.len() as int)
}

/// The index of the first pair at or after `from` that is not a statement is not before `from`.
proof fn lemma_first_non_statement_from(s: Seq<Pair>, from: int)
    requires
        0 <= from,
    ensures
        from <= first_non_statement(s, from) <= if from <= s.len() {
            s.len() as int
        } else {
            from
        },
    decreases s.len() - from,
{
    if from < s.len() && s[from].rule == Rule::statement {
        lemma_first_non_statement_from(s, from + 1);
    }
}

/// Every pair nested in a well-formed pair is well formed.
proof fn lemma_wf_all_inner(p: Pair)
    requires
        p.wf(),
    ensures
        forall|i: int| 0 <= i < p.inner.len() ==> (#[trigger] p.inner[i]).wf(),
{
}

/// Once an error is met among the first `k` expressions, it stays the result.
proof fn lemma_expressions_error(s: Seq<Pair>, k: int, m: int)
    requires
        0 < k <= m <= s.len(),
        expressions_spec(s, k) is Err,
    ensures
        expressions_spec(s, m) == expressions_spec(s, k),
    decreases m - k,
{
    if m > k {
        lemma_expressions_error(s, k, m - 1);
    }
}

/// Once an error is met among the first `k` statements, it stays the result.
proof fn lemma_statements_error(s: Seq<Pair>, k: int, m: int)
    requires
        0 < k <= m <= s.len(),
        statements_spec(s, k) is Err,
    ensures
        statements_spec(s, m) == statements_spec(s, k),
    decreases m - k,
{
    if m > k {
        lemma_statements_error(s, k, m - 1);
    }
}

/// Once an error is met among the first `k` items of a program, it stays the result.
proof fn lemma_program_items_error(s: Seq<Pair>, k: int, m: int)
    requires
        0 < k <= m <= s.len(),
        program_items_spec(s, k) is Err,
    ensures
        program_items_spec(s, m) == program_items_spec(s, k),
    decreases m - k,
{
    if m > k {
        lemma_program_items_error(s, k, m - 1);
    }
}

spec fn expressions_result_view(r: Result<Vec<Expression>, RichError>) -> Result<
    Seq<ExpressionView>,
    RichErrorView,
> {
    match r {
        Ok(v) => Ok(expressions_view(v@)),
        Err(e) => Err(e@),
    }
}

/// Parses the expressions `pairs` from left to right.
fn parse_expressions(pairs: &Vec<Pair>) -> (res: Result<Vec<Expression>, RichError>)
    requires
        forall|i: int|
            0 <= i < pairs.len() ==> (#[trigger] pairs[i]).wf() && is_expression_rule(
                pairs[i].rule,
            ),
    ensures
        expressions_result_view(res) == expressions_spec(pairs@, pairs.len() as int),
    decreases pairs, 0int,
{
    let n = pairs.len();
    let mut res: Vec<Expression> = Vec::new();
    let mut i: usize = 0;
    while i < n
        invariant
            n == pairs.len(),
            i <= n,
            forall|j: int|
                0 <= j < pairs.len() ==> (#[trigger] pairs[j]).wf() && is_expression_rule(
                    pairs[j].rule,
                ),
            expressions_spec(pairs@, i as int) == Ok::<Seq<ExpressionView>, RichErrorView>(
                expressions_view(res@),
            ),
        decreases n - i,
    {
        proof {
            assert(decreases_to!(*pairs => pairs[i as int]));
        }
        match Expression::parse(&pairs[i]) {
            Err(e) => {
                proof {
                    lemma_expressions_error(pairs@, i as int + 1, n as int);
                }
                return Err(e);
            },
            Ok(e) => {
                let ghost before = res@;
                res.push(e);
                assert(res@.drop_last() == before);
            },
        }
        i = i + 1;
    }
    Ok(res)
}

impl CallName {
    /// The call name that `pair` stands for.
    pub fn parse(pair: &Pair) -> (res: Result<Self, RichError>)
        requires
            pair.wf(),
            pair.rule == Rule::call_name,
        ensures
            result_view(res) == call_name_spec(*pair),
    {
        proof {
            lemma_wf_inner(*pair, 0);
        }
        let c = &pair.inner[0];
        match c.rule {
            Rule::jet => {
                let name = JetName::parse(c)?;
                Ok(CallName::Jet(name))
            },
            Rule::unwrap_left => {
                proof {
                    lemma_wf_inner(*c, 0);
                }
                let ty = AliasedType::parse(&c.inner[0])?;
                Ok(CallName::UnwrapLeft(ty))
            },
            Rule::unwrap_right => {
                proof {
                    lemma_wf_inner(*c, 0);
                }
                let ty = AliasedType::parse(&c.inner[0])?;
                Ok(CallName::UnwrapRight(ty))
            },
            Rule::unwrap => Ok(CallName::Unwrap),
            _ => unreached(),
        }
    }
}

impl MatchPattern {
    /// The match pattern that `pair` stands for.
    pub fn parse(pair: &Pair) -> (res: Result<Self, RichError>)
        requires
            pair.wf(),
            pair.rule == Rule::match_pattern,
        ensures
            result_view(res) == match_pattern_spec(*pair),
    {
        proof {
            lemma_wf_inner(*pair, 0);
        }
        let c = &pair.inner[0];
        match c.rule {
            Rule::left_pattern | Rule::right_pattern | Rule::some_pattern => {
                proof {
                    lemma_wf_inner(*c, 0);
                    lemma_wf_inner(*c, 1);
                }
                let identifier = Identifier::parse(&c.inner[0])?;
                let ty = AliasedType::parse(&c.inner[1])?;
                match c.rule {
                    Rule::left_pattern => Ok(MatchPattern::Left(identifier, ty)),
                    Rule::right_pattern => Ok(MatchPattern::Right(identifier, ty)),
                    _ => Ok(MatchPattern::SomeValue(identifier, ty)),
                }
            },
            Rule::none_pattern => Ok(MatchPattern::NoneValue),
            Rule::false_pattern => Ok(MatchPattern::False),
            Rule::true_pattern => Ok(MatchPattern::True),
            _ => unreached(),
        }
    }

    /// Whether `self` as the left arm and `right` as the right arm fit together.
    fn fits_before(&self, right: &MatchPattern) -> (res: bool)
        ensures
            res == arms_fit(self@, right@),
    {
        match (self, right) {
            (MatchPattern::Left(..), MatchPattern::Right(..)) => true,
            (MatchPattern::NoneValue, MatchPattern::SomeValue(..)) => true,
            (MatchPattern::False, MatchPattern::True) => true,
            _ => false,
        }
    }
}

impl TypeAlias {
    /// The type alias that `pair` stands for.
    pub fn parse(pair: &Pair) -> (res: Result<Self, RichError>)
        requires
            pair.wf(),
            pair.rule == Rule::type_alias,
        ensures
            result_view(res) == type_alias_spec(*pair),
    {
        let span = Span::from_pair(pair);
        proof {
            lemma_wf_inner(*pair, 0);
            lemma_wf_inner(*pair, 1);
        }
        let name = Identifier::parse(&pair.inner[0])?;
        let ty = AliasedType::parse(&pair.inner[1])?;
        Ok(TypeAlias { name, ty, span })
    }
}

impl Expression {
    /// The expression that `pair` stands for.
    pub fn parse(pair: &Pair) -> (res: Result<Self, RichError>)
        requires
            pair.wf(),
            is_expression_rule(pair.rule),
        ensures
            result_view(res) == expression_spec(*pair),
        decreases pair, 2int,
    {
        let span = Span::from_pair(pair);
        if pair.rule == Rule::expression {
            proof {
                lemma_wf_inner(*pair, 0);
            }
            parse_expression_kind(&pair.inner[0], span)
        } else {
            parse_expression_kind(pair, span)
        }
    }
}

/// Parses the block or single expression `q`, which spans `span`.
fn parse_expression_kind(q: &Pair, span: Span) -> (res: Result<Expression, RichError>)
    requires
        q.wf(),
        q.rule == Rule::block_expression || q.rule == Rule::single_expression,
    ensures
        result_view(res) == expression_kind_spec(*q, span),
    decreases q, 1int,
{
    if q.rule == Rule::block_expression {
        let n = q.inner.len();
        let ghost k = first_non_statement(q.inner@, 0);
        proof {
            lemma_first_non_statement_from(q.inner@, 0);
            lemma_wf_all_inner(*q);
        }
        let mut stmts: Vec<Statement> = Vec::new();
        let mut i: usize = 0;
        while i < n && q.inner[i].rule == Rule::statement
            invariant
                q.wf(),
                q.rule == Rule::block_expression,
                n == q.inner.len(),
                i <= k < n,
                k == first_non_statement(q.inner@, 0),
                first_non_statement(q.inner@, i as int) == k,
                forall|j: int| 0 <= j < q.inner.len() ==> (#[trigger] q.inner[j]).wf(),
                statements_spec(q.inner@, i as int) == Ok::<Seq<StatementView>, RichErrorView>(
                    statements_view(stmts@),
                ),
            decreases n - i,
        {
            proof {
                lemma_first_non_statement_from(q.inner@, i as int + 1);
            }
            match Statement::parse(&q.inner[i]) {
                Err(e) => {
                    proof {
                        lemma_statements_error(q.inner@, i as int + 1, k);
                    }
                    return Err(e);
                },
                Ok(st) => {
                    let ghost before = stmts@;
                    stmts.push(st);
                    assert(stmts@.drop_last() == before);
                },
            }
            i = i + 1;
        }
        let e = Expression::parse(&q.inner[i])?;
        Ok(Expression { inner: ExpressionInner::Block(stmts, Box::new(e)), span })
    } else {
        let s = SingleExpression::parse(q)?;
        Ok(Expression { inner: ExpressionInner::Single(s), span })
    }
}

impl SingleExpression {
    /// The single expression that `pair` stands for.
    pub fn parse(pair: &Pair) -> (res: Result<Self, RichError>)
        requires
            pair.wf(),
            pair.rule == Rule::single_expression,
        ensures
            result_view(res) == single_spec(*pair),
        decreases pair, 0int,
    {
        let span = Span::from_pair(pair);
        proof {
            lemma_wf_inner(*pair, 0);
        }
        let c = &pair.inner[0];
        proof {
            lemma_wf_all_inner(*c);
        }
        let inner = match c.rule {
            Rule::left_expr => {
                let l = Expression::parse(&c.inner[0])?;
                SingleExpressionInner::Either(Either::Left(Box::new(l)))
            },
            Rule::right_expr => {
                let r = Expression::parse(&c.inner[0])?;
                SingleExpressionInner::Either(Either::Right(Box::new(r)))
            },
            Rule::none_expr => SingleExpressionInner::Option(None),
            Rule::some_expr => {
                let r = Expression::parse(&c.inner[0])?;
                SingleExpressionInner::Option(Some(Box::new(r)))
            },
            Rule::false_expr => SingleExpressionInner::Boolean(false),
            Rule::true_expr => SingleExpressionInner::Boolean(true),
            Rule::call_expr => SingleExpressionInner::Call(Call::parse(c)?),
            Rule::bit_string => SingleExpressionInner::BitString(Bits::parse(c)?),
            Rule::byte_string => SingleExpressionInner::ByteString(Bytes::parse(c)?),
            Rule::unsigned_decimal => SingleExpressionInner::Decimal(UnsignedDecimal::parse(c)?),
            Rule::witness_expr => SingleExpressionInner::Witness(WitnessName::parse(&c.inner[0])?),
            Rule::variable_expr => SingleExpressionInner::Variable(Identifier::parse(&c.inner[0])?),
            Rule::expression => SingleExpressionInner::Expression(Box::new(Expression::parse(c)?)),
            Rule::match_expr => SingleExpressionInner::Match(Match::parse(c)?),
            Rule::tuple_expr => SingleExpressionInner::Tuple(parse_expressions(&c.inner)?),
            Rule::array_expr => SingleExpressionInner::Array(parse_expressions(&c.inner)?),
            Rule::list_expr => SingleExpressionInner::List(parse_expressions(&c.inner)?),
            _ => unreached(),
        };
        Ok(SingleExpression { inner, span })
    }
}

impl Call {
    /// The call that `pair` stands for.
    pub fn parse(pair: &Pair) -> (res: Result<Self, RichError>)
        requires
            pair.wf(),
            pair.rule == Rule::call_expr,
        ensures
            result_view(res) == call_spec(*pair),
        decreases pair, 0int,
    {
        let span = Span::from_pair(pair);
        proof {
            lemma_wf_inner(*pair, 0);
            lemma_wf_inner(*pair, 1);
            lemma_wf_all_inner(pair.inner[1]);
        }
        let name = CallName::parse(&pair.inner[0])?;
        let args_pair = &pair.inner[1];
        let args = parse_expressions(&args_pair.inner)?;
        Ok(Call { name, args, span })
    }
}

impl MatchArm {
    /// The match arm that `pair` stands for.
    pub fn parse(pair: &Pair) -> (res: Result<Self, RichError>)
        requires
            pair.wf(),
            pair.rule == Rule::match_arm,
        ensures
            result_view(res) == match_arm_spec(*pair),
        decreases pair, 0int,
    {
        proof {
            lemma_wf_inner(*pair, 0);
            lemma_wf_inner(*pair, 1);
        }
        let pattern = MatchPattern::parse(&pair.inner[0])?;
        let expression = Expression::parse(&pair.inner[1])?;
        Ok(MatchArm { pattern, expression: Box::new(expression) })
    }
}

impl Match {
    /// The match expression that `pair` stands for.
    pub fn parse(pair: &Pair) -> (res: Result<Self, RichError>)
        requires
            pair.wf(),
            pair.rule == Rule::match_expr,
        ensures
            result_view(res) == match_spec(*pair),
        decreases pair, 0int,
    {
        let span = Span::from_pair(pair);
        proof {
            lemma_wf_inner(*pair, 0);
            lemma_wf_inner(*pair, 1);
            lemma_wf_inner(*pair, 2);
        }
        let scrutinee = Expression::parse(&pair.inner[0])?;
        let first = MatchArm::parse(&pair.inner[1])?;
        let second = MatchArm::parse(&pair.inner[2])?;
        if first.pattern.fits_before(&second.pattern) {
            Ok(Match::new(Box::new(scrutinee), first, second, span))
        } else if second.pattern.fits_before(&first.pattern) {
            Ok(Match::new(Box::new(scrutinee), second, first, span))
        } else {
            Err(
                RichError::new(
                    Error::IncompatibleMatchArms(first.pattern, second.pattern),
                    span,
                ),
            )
        }
    }
}

impl Statement {
    /// The statement that `pair` stands for.
    pub fn parse(pair: &Pair) -> (res: Result<Self, RichError>)
        requires
            pair.wf(),
            pair.rule == Rule::statement,
        ensures
            result_view(res) == statement_spec(*pair),
        decreases pair, 1int,
    {
        proof {
            lemma_wf_inner(*pair, 0);
        }
        let c = &pair.inner[0];
        match c.rule {
            Rule::assignment => Ok(Statement::Assignment(Assignment::parse(c)?)),
            Rule::expression => Ok(Statement::Expression(Expression::parse(c)?)),
            Rule::type_alias => Ok(Statement::TypeAlias(TypeAlias::parse(c)?)),
            _ => unreached(),
        }
    }
}

impl Assignment {
    /// The assignment that `pair` stands for.
    pub fn parse(pair: &Pair) -> (res: Result<Self, RichError>)
        requires
            pair.wf(),
            pair.rule == Rule::assignment,
        ensures
            result_view(res) == assignment_spec(*pair),
        decreases pair, 0int,
    {
        let span = Span::from_pair(pair);
        proof {
            lemma_wf_inner(*pair, 0);
            lemma_wf_inner(*pair, 1);
            lemma_wf_inner(*pair, 2);
        }
        let pattern = Pattern::parse(&pair.inner[0])?;
        let ty = AliasedType::parse(&pair.inner[1])?;
        let expression = Expression::parse(&pair.inner[2])?;
        Ok(Assignment { pattern, ty, expression, span })
    }
}

impl Program {
    /// The program that `pair` stands for.
    pub fn parse(pair: &Pair) -> (res: Result<Self, RichError>)
        requires
            pair.wf(),
            pair.rule == Rule::program,
        ensures
            result_view(res) == program_spec(*pair),
    {
        proof {
            lemma_wf_all_inner(*pair);
        }
        let n = pair.inner.len();
        let mut stmts: Vec<Statement> = Vec::new();
        let mut i: usize = 0;
        while i < n
            invariant
                pair.wf(),
                pair.rule == Rule::program,
                n == pair.inner.len(),
                i <= n,
                forall|j: int| 0 <= j < pair.inner.len() ==> (#[trigger] pair.inner[j]).wf(),
                program_items_spec(pair.inner@, i as int) == Ok::<
                    Seq<StatementView>,
                    RichErrorView,
                >(statements_view(stmts@)),
            decreases n - i,
        {
            let inner_pair = &pair.inner[i];
            match inner_pair.rule {
                Rule::statement => match Statement::parse(inner_pair) {
                    Err(e) => {
                        proof {
                            lemma_program_items_error(pair.inner@, i as int + 1, n as int);
                        }
                        return Err(e);
                    },
                    Ok(st) => {
                        let ghost before = stmts@;
                        stmts.push(st);
                        assert(stmts@.drop_last() == before);
                    },
                },
                Rule::EOI => {},
                _ => unreached(),
            }
            i = i + 1;
        }
        Ok(Program { statements: stmts })
    }
}

} // verus!
