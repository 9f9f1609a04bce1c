//! Types as a program writes them, aliases included.

use vstd::prelude::*;
use crate::ast::Identifier;
use crate::num::NonZeroPow2Usize;
use vstd::string::StringExecFns;
use crate::text::{push_char, string_concat, text_is};

verus! {

/// Unsigned integer types.
#[derive(Copy, Clone, Debug, PartialEq, Eq, Structural, Hash)]
pub enum UIntType {
    U1,
    U2,
    U4,
    U8,
    U16,
    U32,
    U64,
    U128,
    U256,
}

impl UIntType {
    /// The name of the type in a program.
    pub open spec fn name(self) -> Seq<char> {
        match self {
            UIntType::U1 => "u1"@,
            UIntType::U2 => "u2"@,
            UIntType::U4 => "u4"@,
            UIntType::U8 => "u8"@,
            UIntType::U16 => "u16"@,
            UIntType::U32 => "u32"@,
            UIntType::U64 => "u64"@,
            UIntType::U128 => "u128"@,
            UIntType::U256 => "u256"@,
        }
    }

    /// The type named `s`, if there is one.
    pub open spec fn from_name(s: Seq<char>) -> Option<UIntType> {
        if s == "u1"@ {
            Some(UIntType::U1)
        } else if s == "u2"@ {
            Some(UIntType::U2)
        } else if s == "u4"@ {
            Some(UIntType::U4)
        } else if s == "u8"@ {
            Some(UIntType::U8)
        } else if s == "u16"@ {
            Some(UIntType::U16)
        } else if s == "u32"@ {
            Some(UIntType::U32)
        } else if s == "u64"@ {
            Some(UIntType::U64)
        } else if s == "u128"@ {
            Some(UIntType::U128)
        } else if s == "u256"@ {
            Some(UIntType::U256)
        } else {
            None
        }
    }

    /// The type named by the characters `s`, if there is one.
    pub fn from_chars(s: &[char]) -> (res: Option<UIntType>)
        ensures
            res == Self::from_name(s@),
    {
        if text_is(s, "u1") {
            Some(UIntType::U1)
        } else if text_is(s, "u2") {
            Some(UIntType::U2)
        } else if text_is(s, "u4") {
            Some(UIntType::U4)
        } else if text_is(s, "u8") {
            Some(UIntType::U8)
        } else if text_is(s, "u16") {
            Some(UIntType::U16)
        } else if text_is(s, "u32") {
            Some(UIntType::U32)
        } else if text_is(s, "u64") {
            Some(UIntType::U64)
        } else if text_is(s, "u128") {
            Some(UIntType::U128)
        } else if text_is(s, "u256") {
            Some(UIntType::U256)
        } else {
            None
        }
    }
}

/// Type aliases that every program has.
#[derive(Copy, Clone, Debug, PartialEq, Eq, Structural, Hash)]
pub enum BuiltinAlias {
    Ctx8,
    Pubkey,
    Message64,
    Message,
    Signature,
    Scalar,
    Fe,
    Gej,
    Ge,
    Point,
    Height,
    Time,
    Distance,
    Duration,
    Lock,
    Outpoint,
    Confidential1,
    ExplicitAsset,
    Asset1,
    ExplicitAmount,
    Amount1,
    ExplicitNonce,
    Nonce,
    TokenAmount1,
}

impl BuiltinAlias {
    /// The alias named `s`, if there is one.
    pub open spec fn from_name(s: Seq<char>) -> Option<BuiltinAlias> {
        if s == "Ctx8"@ {
            Some(BuiltinAlias::Ctx8)
        } else if s == "Pubkey"@ {
            Some(BuiltinAlias::Pubkey)
        } else if s == "Message64"@ {
            Some(BuiltinAlias::Message64)
        } else if s == "Message"@ {
            Some(BuiltinAlias::Message)
        } else if s == "Signature"@ {
            Some(BuiltinAlias::Signature)
        } else if s == "Scalar"@ {
            Some(BuiltinAlias::Scalar)
        } else if s == "Fe"@ {
            Some(BuiltinAlias::Fe)
        } else if s == "Gej"@ {
            Some(BuiltinAlias::Gej)
        } else if s == "Ge"@ {
            Some(BuiltinAlias::Ge)
        } else if s == "Point"@ {
            Some(BuiltinAlias::Point)
        } else if s == "Height"@ {
            Some(BuiltinAlias::Height)
        } else if s == "Time"@ {
            Some(BuiltinAlias::Time)
        } else if s == "Distance"@ {
            Some(BuiltinAlias::Distance)
        } else if s == "Duration"@ {
            Some(BuiltinAlias::Duration)
        } else if s == "Lock"@ {
            Some(BuiltinAlias::Lock)
        } else if s == "Outpoint"@ {
            Some(BuiltinAlias::Outpoint)
        } else if s == "Confidential1"@ {
            Some(BuiltinAlias::Confidential1)
        } else if s == "ExplicitAsset"@ {
            Some(BuiltinAlias::ExplicitAsset)
        } else if s == "Asset1"@ {
            Some(BuiltinAlias::Asset1)
        } else if s == "ExplicitAmount"@ {
            Some(BuiltinAlias::ExplicitAmount)
        } else if s == "Amount1"@ {
            Some(BuiltinAlias::Amount1)
        } else if s == "ExplicitNonce"@ {
            Some(BuiltinAlias::ExplicitNonce)
        } else if s == "Nonce"@ {
            Some(BuiltinAlias::Nonce)
        } else if s == "TokenAmount1"@ {
            Some(BuiltinAlias::TokenAmount1)
        } else {
            None
        }
    }

    /// The message of a name that is no alias.
    pub open spec fn unknown_message(s: Seq<char>) -> Seq<char> {
        "Unknown alias: "@ + s
    }

    /// The alias named by the characters `s`, or the message of an unknown name.
    pub fn from_chars(s: &[char]) -> (res: Result<BuiltinAlias, String>)
        ensures
            match Self::from_name(s@) {
                Some(a) => res == Ok::<BuiltinAlias, String>(a),
                None => res matches Err(m) && m@ == Self::unknown_message(s@),
            },
    {
        if text_is(s, "Ctx8") {
            Ok(BuiltinAlias::Ctx8)
        } else if text_is(s, "Pubkey") {
            Ok(BuiltinAlias::Pubkey)
        } else if text_is(s, "Message64") {
            Ok(BuiltinAlias::Message64)
        } else if text_is(s, "Message") {
            Ok(BuiltinAlias::Message)
        } else if text_is(s, "Signature") {
            Ok(BuiltinAlias::Signature)
        } else if text_is(s, "Scalar") {
            Ok(BuiltinAlias::Scalar)
        } else if text_is(s, "Fe") {
            Ok(BuiltinAlias::Fe)
        } else if text_is(s, "Gej") {
            Ok(BuiltinAlias::Gej)
        } else if text_is(s, "Ge") {
            Ok(BuiltinAlias::Ge)
        } else if text_is(s, "Point") {
            Ok(BuiltinAlias::Point)
        } else if text_is(s, "Height") {
            Ok(BuiltinAlias::Height)
        } else if text_is(s, "Time") {
            Ok(BuiltinAlias::Time)
        } else if text_is(s, "Distance") {
            Ok(BuiltinAlias::Distance)
        } else if text_is(s, "Duration") {
            Ok(BuiltinAlias::Duration)
        } else if text_is(s, "Lock") {
            Ok(BuiltinAlias::Lock)
        } else if text_is(s, "Outpoint") {
            Ok(BuiltinAlias::Outpoint)
        } else if text_is(s, "Confidential1") {
            Ok(BuiltinAlias::Confidential1)
        } else if text_is(s, "ExplicitAsset") {
            Ok(BuiltinAlias::ExplicitAsset)
        } else if text_is(s, "Asset1") {
            Ok(BuiltinAlias::Asset1)
        } else if text_is(s, "ExplicitAmount") {
            Ok(BuiltinAlias::ExplicitAmount)
        } else if text_is(s, "Amount1") {
            Ok(BuiltinAlias::Amount1)
        } else if text_is(s, "ExplicitNonce") {
            Ok(BuiltinAlias::ExplicitNonce)
        } else if text_is(s, "Nonce") {
            Ok(BuiltinAlias::Nonce)
        } else if text_is(s, "TokenAmount1") {
            Ok(BuiltinAlias::TokenAmount1)
        } else {
            Err(string_concat("Unknown alias: ", s))
        }
    }
}

/// A type that may name aliases.
#[derive(Debug, PartialEq, Eq, Hash)]
pub enum AliasedType {
    /// A type alias, by its name.
    Alias(Identifier),
    /// A builtin type alias.
    Builtin(BuiltinAlias),
    /// Sum of a left and a right type.
    Either(Box<AliasedType>, Box<AliasedType>),
    /// An optional value of a type.
    Option(Box<AliasedType>),
    /// The boolean type.
    Boolean,
    /// An unsigned integer type.
    UInt(UIntType),
    /// Product of types.
    Tuple(Vec<AliasedType>),
    /// Array of a type, with a size.
    Array(Box<AliasedType>, usize),
    /// List of a type, with a bound that its length is less than.
    List(Box<AliasedType>, NonZeroPow2Usize),
}

/// A type as the mathematical value that it stands for.
pub enum TypeView {
    Alias(Seq<char>),
    Builtin(BuiltinAlias),
    Either(Box<TypeView>, Box<TypeView>),
    Option(Box<TypeView>),
    Boolean,
    UInt(UIntType),
    Tuple(Seq<TypeView>),
    Array(Box<TypeView>, usize),
    List(Box<TypeView>, usize),
}

/// The value that the type `t` stands for.
pub open spec fn type_view(t: AliasedType) -> TypeView
    decreases t,
{
    match t {
        AliasedType::Alias(i) => TypeView::Alias(i@),
        AliasedType::Builtin(b) => TypeView::Builtin(b),
        AliasedType::Either(l, r) => TypeView::Either(
            Box::new(type_view(*l)),
            Box::new(type_view(*r)),
        ),
        AliasedType::Option(t) => TypeView::Option(Box::new(type_view(*t))),
        AliasedType::Boolean => TypeView::Boolean,
        AliasedType::UInt(u) => TypeView::UInt(u),
        AliasedType::Tuple(v) => TypeView::Tuple(types_view(v@)),
        AliasedType::Array(t, n) => TypeView::Array(Box::new(type_view(*t)), n),
        AliasedType::List(t, b) => TypeView::List(Box::new(type_view(*t)), b.value()),
    }
}

/// The values that the types `s` stand for, in order.
pub open spec fn types_view(s: Seq<AliasedType>) -> Seq<TypeView>
    decreases s,
{
    if s.len() == 0 {
        Seq::empty()
    } else {
        types_view(s.drop_last()).push(type_view(s.last()))
    }
}

impl View for AliasedType {
    type V = TypeView;

    open spec fn view(&self) -> TypeView {
        type_view(*self)
    }
}

/// `types_view` keeps the length.
pub proof fn lemma_types_view_len(s: Seq<AliasedType>)
    ensures
        types_view(s).len() == s.len(),
    decreases s.len(),
{
    if s.len() > 0 {
        lemma_types_view_len(s.drop_last());
    }
}

impl AliasedType {
    /// Type alias with name.
    pub fn alias(name: Identifier) -> (res: Self)
        ensures
            res@ == TypeView::Alias(name@),
    {
        AliasedType::Alias(name)
    }

    /// Builtin type alias.
    pub fn builtin(builtin: BuiltinAlias) -> (res: Self)
        ensures
            res@ == TypeView::Builtin(builtin),
    {
        AliasedType::Builtin(builtin)
    }

    /// Sum of a left and a right type.
    pub fn either(left: Self, right: Self) -> (res: Self)
        ensures
            res@ == TypeView::Either(Box::new(left@), Box::new(right@)),
    {
        AliasedType::Either(Box::new(left), Box::new(right))
    }

    /// Option of an inner type.
    pub fn option(inner: Self) -> (res: Self)
        ensures
            res@ == TypeView::Option(Box::new(inner@)),
    {
        AliasedType::Option(Box::new(inner))
    }

    /// The boolean type.
    pub fn boolean() -> (res: Self)
        ensures
            res@ == TypeView::Boolean,
    {
        AliasedType::Boolean
    }

    /// An unsigned integer type.
    pub fn from_uint(ty: UIntType) -> (res: Self)
        ensures
            res@ == TypeView::UInt(ty),
    {
        AliasedType::UInt(ty)
    }

    /// Product of a sequence of types.
    pub fn tuple(elements: Vec<Self>) -> (res: Self)
        ensures
            res@ == TypeView::Tuple(types_view(elements@)),
    {
        AliasedType::Tuple(elements)
    }

    /// Array of an element type, with a size.
    pub fn array(element: Self, size: usize) -> (res: Self)
        ensures
            res@ == TypeView::Array(Box::new(element@), size),
    {
        AliasedType::Array(Box::new(element), size)
    }

    /// List of an element type, with a bound.
    pub fn list(element: Self, bound: NonZeroPow2Usize) -> (res: Self)
        ensures
            res@ == TypeView::List(Box::new(element@), bound.value()),
    {
        AliasedType::List(Box::new(element), bound)
    }

    /// A copy of the type.
    pub fn copy(&self) -> (res: Self)
        ensures
            res@ == self@,
        decreases self,
    {
        match self {
            AliasedType::Alias(i) => AliasedType::Alias(i.copy()),
            AliasedType::Builtin(b) => AliasedType::Builtin(*b),
            AliasedType::Either(l, r) => AliasedType::Either(
                Box::new(l.copy()),
                Box::new(r.copy()),
            ),
            AliasedType::Option(t) => AliasedType::Option(Box::new(t.copy())),
            AliasedType::Boolean => AliasedType::Boolean,
            AliasedType::UInt(u) => AliasedType::UInt(*u),
            AliasedType::Tuple(v) => {
                let mut res: Vec<AliasedType> = Vec::new();
                let mut i: usize = 0;
                while i < v.len()
                    invariant
                        i <= v@.len(),
                        *self == AliasedType::Tuple(*v),
                        types_view(res@) == types_view(v@.take(i as int)),
                    decreases v@.len() - i,
                {
                    proof {
                        assert(decreases_to!(*self => (*self)->Tuple_0));
                        assert((*self)->Tuple_0 == *v);
                        assert(decreases_to!(*v => v[i as int]));
                    }
                    let c = v[i].copy();
                    let ghost before = res@;
                    res.push(c);
                    proof {
                        assert(res@.drop_last() == before);
                        assert(v@.take(i as int + 1).drop_last() == v@.take(i as int));
                    }
                    i = i + 1;
                }
                assert(v@.take(v@.len() as int) == v@);
                AliasedType::Tuple(res)
            },
            AliasedType::Array(t, n) => AliasedType::Array(Box::new(t.copy()), *n),
            AliasedType::List(t, b) => AliasedType::List(Box::new(t.copy()), *b),
        }
    }
}


impl UIntType {
    /// The name of the type, as it is displayed.
    pub fn to_string(&self) -> (res: String)
        ensures
            res@ == self.name(),
    {
        match self {
            UIntType::U1 => String::from_str("u1"),
            UIntType::U2 => String::from_str("u2"),
            UIntType::U4 => String::from_str("u4"),
            UIntType::U8 => String::from_str("u8"),
            UIntType::U16 => String::from_str("u16"),
            UIntType::U32 => String::from_str("u32"),
            UIntType::U64 => String::from_str("u64"),
            UIntType::U128 => String::from_str("u128"),
            UIntType::U256 => String::from_str("u256"),
        }
    }
}

impl BuiltinAlias {
    /// The name of the alias in a program.
    pub open spec fn name(self) -> Seq<char> {
        match self {
            BuiltinAlias::Ctx8 => "Ctx8"@,
            BuiltinAlias::Pubkey => "Pubkey"@,
            BuiltinAlias::Message64 => "Message64"@,
            BuiltinAlias::Message => "Message"@,
            BuiltinAlias::Signature => "Signature"@,
            BuiltinAlias::Scalar => "Scalar"@,
            BuiltinAlias::Fe => "Fe"@,
            BuiltinAlias::Gej => "Gej"@,
            BuiltinAlias::Ge => "Ge"@,
            BuiltinAlias::Point => "Point"@,
            BuiltinAlias::Height => "Height"@,
            BuiltinAlias::Time => "Time"@,
            BuiltinAlias::Distance => "Distance"@,
            BuiltinAlias::Duration => "Duration"@,
            BuiltinAlias::Lock => "Lock"@,
            BuiltinAlias::Outpoint => "Outpoint"@,
            BuiltinAlias::Confidential1 => "Confidential1"@,
            BuiltinAlias::ExplicitAsset => "ExplicitAsset"@,
            BuiltinAlias::Asset1 => "Asset1"@,
            BuiltinAlias::ExplicitAmount => "ExplicitAmount"@,
            BuiltinAlias::Amount1 => "Amount1"@,
            BuiltinAlias::ExplicitNonce => "ExplicitNonce"@,
            BuiltinAlias::Nonce => "Nonce"@,
            BuiltinAlias::TokenAmount1 => "TokenAmount1"@,
        }
    }

    /// The name of the alias, as it is displayed.
    pub fn to_string(&self) -> (res: String)
        ensures
            res@ == self.name(),
    {
        match self {
            BuiltinAlias::Ctx8 => String::from_str("Ctx8"),
            BuiltinAlias::Pubkey => String::from_str("Pubkey"),
            BuiltinAlias::Message64 => String::from_str("Message64"),
            BuiltinAlias::Message => String::from_str("Message"),
            BuiltinAlias::Signature => String::from_str("Signature"),
            BuiltinAlias::Scalar => String::from_str("Scalar"),
            BuiltinAlias::Fe => String::from_str("Fe"),
            BuiltinAlias::Gej => String::from_str("Gej"),
            BuiltinAlias::Ge => String::from_str("Ge"),
            BuiltinAlias::Point => String::from_str("Point"),
            BuiltinAlias::Height => String::from_str("Height"),
            BuiltinAlias::Time => String::from_str("Time"),
            BuiltinAlias::Distance => String::from_str("Distance"),
            BuiltinAlias::Duration => String::from_str("Duration"),
            BuiltinAlias::Lock => String::from_str("Lock"),
            BuiltinAlias::Outpoint => String::from_str("Outpoint"),
            BuiltinAlias::Confidential1 => String::from_str("Confidential1"),
            BuiltinAlias::ExplicitAsset => String::from_str("ExplicitAsset"),
            BuiltinAlias::Asset1 => String::from_str("Asset1"),
            BuiltinAlias::ExplicitAmount => String::from_str("ExplicitAmount"),
            BuiltinAlias::Amount1 => String::from_str("Amount1"),
            BuiltinAlias::ExplicitNonce => String::from_str("ExplicitNonce"),
            BuiltinAlias::Nonce => String::from_str("Nonce"),
            BuiltinAlias::TokenAmount1 => String::from_str("TokenAmount1"),
        }
    }
}

/// The decimal digit of `d`, for `d` from 0 to 9.
pub open spec fn digit_char(d: nat) -> char {
    if d == 0 {
        '0'
    } else if d == 1 {
        '1'
    } else if d == 2 {
        '2'
    } else if d == 3 {
        '3'
    } else if d == 4 {
        '4'
    } else if d == 5 {
        '5'
    } else if d == 6 {
        '6'
    } else if d == 7 {
        '7'
    } else if d == 8 {
        '8'
    } else {
        '9'
    }
}

/// The digits of `n` in base ten, the most significant first, without leading zeros.
pub open spec fn decimal_text(n: nat) -> Seq<char>
    decreases n,
{
    if n < 10 {
        seq![digit_char(n)]
    } else {
        decimal_text(n / 10).push(digit_char(n % 10))
    }
}

/// The decimal digit of `d`.
fn digit(d: usize) -> (res: char)
    requires
        d < 10,
    ensures
        res == digit_char(d as nat),
{
    if d == 0 {
        '0'
    } else if d == 1 {
        '1'
    } else if d == 2 {
        '2'
    } else if d == 3 {
        '3'
    } else if d == 4 {
        '4'
    } else if d == 5 {
        '5'
    } else if d == 6 {
        '6'
    } else if d == 7 {
        '7'
    } else if d == 8 {
        '8'
    } else {
        '9'
    }
}

/// The number `n` written in base ten.
pub fn decimal_string(n: usize) -> (res: String)
    ensures
        res@ == decimal_text(n as nat),
    decreases n,
{
    if n < 10 {
        let mut s = String::new();
        push_char(&mut s, digit(n));
        proof {
            assert(Seq::<char>::empty().push(digit_char(n as nat)) == seq![digit_char(n as nat)]);
        }
        s
    } else {
        let mut s = decimal_string(n / 10);
        push_char(&mut s, digit(n % 10));
        s
    }
}

/// The text of the type that `t` stands for, in the syntax of a program: its name, or
/// `Either<L, R>`, `Option<T>`, a tuple `(A, B)` (one element is followed by a comma),
/// an array `[T; N]` or a list `List<T, N>`.
pub open spec fn type_text(t: TypeView) -> Seq<char>
    decreases t, 0int,
{
    match t {
        TypeView::Alias(name) => name,
        TypeView::Builtin(b) => b.name(),
        TypeView::Either(l, r) => "Either<"@ + type_text(*l) + ", "@ + type_text(*r) + ">"@,
        TypeView::Option(inner) => "Option<"@ + type_text(*inner) + ">"@,
        TypeView::Boolean => "bool"@,
        TypeView::UInt(u) => u.name(),
        TypeView::Tuple(ts) => "("@ + elements_text(ts, ts.len() as int) + (if ts.len() == 1 {
            ","@
        } else {
            ""@
        }) + ")"@,
        TypeView::Array(el, size) => "["@ + type_text(*el) + "; "@ + decimal_text(size as nat)
            + "]"@,
        TypeView::List(el, bound) => "List<"@ + type_text(*el) + ", "@ + decimal_text(
            bound as nat,
        ) + ">"@,
    }
}

/// The texts of the first `k` types `ts`, separated by `, `.
pub open spec fn elements_text(ts: Seq<TypeView>, k: int) -> Seq<char>
    decreases ts, k,
{
    if k <= 0 || k > ts.len() {
        Seq::empty()
    } else if k == 1 {
        type_text(ts[0])
    } else {
        elements_text(ts, k - 1) + ", "@ + type_text(ts[k - 1])
    }
}

/// The value of each type of `s` is the value at its index in `types_view(s)`.
pub proof fn lemma_types_view_index(s: Seq<AliasedType>, i: int)
    requires
        0 <= i < s.len(),
    ensures
        types_view(s).len() == s.len(),
        types_view(s)[i] == s[i]@,
    decreases s.len(),
{
    lemma_types_view_len(s);
    if i < s.len() - 1 {
        lemma_types_view_index(s.drop_last(), i);
    }
}

impl AliasedType {
    /// The text of the type, in the syntax of a program.
    pub fn to_string(&self) -> (res: String)
        ensures
            res@ == type_text(self@),
        decreases self,
    {
        match self {
            AliasedType::Alias(name) => name.to_string(),
            AliasedType::Builtin(b) => b.to_string(),
            AliasedType::Either(l, r) => {
                let mut s = String::from_str("Either<");
                s.append(l.to_string().as_str());
                s.append(", ");
                s.append(r.to_string().as_str());
                s.append(">");
                s
            },
            AliasedType::Option(inner) => {
                let mut s = String::from_str("Option<");
                s.append(inner.to_string().as_str());
                s.append(">");
                s
            },
            AliasedType::Boolean => String::from_str("bool"),
            AliasedType::UInt(u) => u.to_string(),
            AliasedType::Tuple(v) => {
                let ghost ts = types_view(v@);
                proof {
                    lemma_types_view_len(v@);
                }
                let mut s = String::from_str("(");
                let mut i: usize = 0;
                while i < v.len()
                    invariant
                        i <= v@.len(),
                        *self == AliasedType::Tuple(*v),
                        ts == types_view(v@),
                        ts.len() == v@.len(),
                        s@ == "("@ + elements_text(ts, i as int),
                    decreases v@.len() - i,
                {
                    proof {
                        assert(decreases_to!(*self => (*self)->Tuple_0));
                        assert((*self)->Tuple_0 == *v);
                        assert(decreases_to!(*v => v[i as int]));
                        lemma_types_view_index(v@, i as int);
                    }
                    let ghost before = s@;
                    if i > 0 {
                        s.append(", ");
                    }
                    let t = v[i].to_string();
                    s.append(t.as_str());
                    proof {
                        if i == 0 {
                            assert(elements_text(ts, 0) == Seq::<char>::empty());
                            assert(s@ == "("@ + elements_text(ts, 1));
                        } else {
                            assert(s@ == "("@ + elements_text(ts, i as int + 1));
                        }
                    }
                    i = i + 1;
                }
                if v.len() == 1 {
                    s.append(",");
                } else {
                    proof {
                        reveal_strlit("");
                        assert(s@ + ""@ == s@);
                    }
                }
                s.append(")");
                s
            },
            AliasedType::Array(el, size) => {
                let mut s = String::from_str("[");
                s.append(el.to_string().as_str());
                s.append("; ");
                s.append(decimal_string(*size).as_str());
                s.append("]");
                s
            },
            AliasedType::List(el, bound) => {
                let mut s = String::from_str("List<");
                s.append(el.to_string().as_str());
                s.append(", ");
                s.append(decimal_string(bound.get()).as_str());
                s.append(">");
                s
            },
        }
    }
}

} // verus!
