//! Parsing of type expressions and patterns by a walk through their trees in post-order:
//! each item is read after the items nested in it, from a stack of what they gave.

use vstd::prelude::*;
use crate::ast::Identifier;
use crate::error::{Error, ErrorView, RichError, RichErrorView, result_view};
use crate::num::NonZeroPow2Usize;
use crate::parse::{
    builtin_spec, error_at, first_name, item_type, item_view_kind, type_item_spec,
    type_items_spec, type_spec, uint_spec, ItemView,
};
use crate::span::Span;
use crate::text::{chars_of, decimal_usize, parse_usize};
use crate::tree::{
    is_pattern_rule, is_type_entry, is_type_item, is_type_rule, item_kind, ItemKind, Pair, Rule,
};
use crate::parse::{lemma_wf_inner, pattern_spec, patterns_spec};
use crate::pattern::{patterns_view, Pattern, PatternView};
use crate::types::{types_view, AliasedType, BuiltinAlias, TypeView, UIntType};

verus! {

/// The pairs that the references `s` point to.
pub open spec fn derefs(s: Seq<&Pair>) -> Seq<Pair> {
    s.map_values(|r: &Pair| *r)
}

/// How many nested pairs a walk through the type expression `p` visits: none for names,
/// builtin aliases, unsigned integer types, booleans, sizes and bounds; the first for a
/// parenthesized or an optional type; the first two for sums, arrays and lists; all for tuples.
pub open spec fn type_arity(p: Pair) -> int {
    match p.rule {
        Rule::ty | Rule::option_type => 1,
        Rule::sum_type | Rule::array_type | Rule::list_type => 2,
        Rule::tuple_type => p.inner.len() as int,
        _ => 0,
    }
}

/// The pairs of the type expression `p` in post-order: the nested pairs that the walk visits,
/// from left to right, each after its own, then `p`.
pub open spec fn type_post_order(p: Pair) -> Seq<Pair>
    decreases p, p.inner.len() + 1,
{
    let k = type_arity(p);
    if 0 <= k <= p.inner.len() {
        type_children_post_order(p, k).push(p)
    } else {
        seq![p]
    }
}

/// The post-orders of the first `k` nested pairs of `p`, one after the other.
pub open spec fn type_children_post_order(p: Pair, k: int) -> Seq<Pair>
    decreases p, k,
{
    if k <= 0 || k > p.inner.len() {
        Seq::empty()
    } else {
        type_children_post_order(p, k - 1) + type_post_order(p.inner[k - 1])
    }
}

/// The items `s` all stand for types.
pub open spec fn all_types(s: Seq<ItemView>) -> bool {
    forall|i: int| 0 <= i < s.len() ==> (#[trigger] s[i]) is Type
}

/// The types that the items `s` stand for, in order.
pub open spec fn item_types(s: Seq<ItemView>) -> Seq<TypeView>
    decreases s.len(),
{
    if s.len() == 0 {
        Seq::empty()
    } else {
        item_types(s.drop_last()).push(item_type(s.last()))
    }
}

/// One step of the walk: the stack `s` after reading the item `p`, or the error that reading
/// `p` gives; nothing where `s` does not hold what `p` takes from it.
pub open spec fn type_step(s: Seq<ItemView>, p: Pair) -> Option<Result<Seq<ItemView>, RichErrorView>> {
    let n = s.len();
    match p.rule {
        Rule::alias_name => Some(Ok(s.push(ItemView::Type(TypeView::Alias(first_name(p)))))),
        Rule::builtin_alias => Some(
            match builtin_spec(p) {
                Ok(a) => Ok(s.push(ItemView::Type(TypeView::Builtin(a)))),
                Err(e) => Err(e),
            },
        ),
        Rule::unsigned_type => Some(Ok(s.push(ItemView::Type(TypeView::UInt(uint_spec(p)))))),
        Rule::boolean_type => Some(Ok(s.push(ItemView::Type(TypeView::Boolean)))),
        Rule::sum_type => if n >= 2 && s[n - 2] is Type && s[n - 1] is Type {
            Some(
                Ok(
                    s.take(n - 2).push(
                        ItemView::Type(
                            TypeView::Either(
                                Box::new(item_type(s[n - 2])),
                                Box::new(item_type(s[n - 1])),
                            ),
                        ),
                    ),
                ),
            )
        } else {
            None
        },
        Rule::option_type => if n >= 1 && s[n - 1] is Type {
            Some(
                Ok(s.take(n - 1).push(ItemView::Type(TypeView::Option(Box::new(item_type(s[n - 1])))))),
            )
        } else {
            None
        },
        Rule::tuple_type => {
            let k = p.inner.len() as int;
            if k <= n && all_types(s.skip(n - k)) {
                Some(Ok(s.take(n - k).push(ItemView::Type(TypeView::Tuple(item_types(s.skip(n - k)))))))
            } else {
                None
            }
        },
        Rule::array_type => if n >= 2 && s[n - 2] is Type && s[n - 1] is Size {
            Some(
                Ok(
                    s.take(n - 2).push(
                        ItemView::Type(TypeView::Array(Box::new(item_type(s[n - 2])), s[n - 1]->Size_0)),
                    ),
                ),
            )
        } else {
            None
        },
        Rule::array_size => Some(
            match decimal_usize(p.text@) {
                Ok(size) => Ok(s.push(ItemView::Size(size))),
                Err(m) => Err(error_at(ErrorView::CannotParse(m), p)),
            },
        ),
        Rule::list_type => if n >= 2 && s[n - 2] is Type && s[n - 1] is Bound {
            Some(
                Ok(
                    s.take(n - 2).push(
                        ItemView::Type(TypeView::List(Box::new(item_type(s[n - 2])), s[n - 1]->Bound_0)),
                    ),
                ),
            )
        } else {
            None
        },
        Rule::list_bound => Some(
            match decimal_usize(p.text@) {
                Err(m) => Err(error_at(ErrorView::CannotParse(m), p)),
                Ok(bound) => if NonZeroPow2Usize::is_valid(bound as nat) {
                    Ok(s.push(ItemView::Bound(bound)))
                } else {
                    Err(error_at(ErrorView::ListBoundPow2(bound), p))
                },
            },
        ),
        Rule::ty => Some(Ok(s)),
        _ => None,
    }
}

/// The walk through the items `nodes` from the stack `s`: the stack at its end, or the first
/// error; nothing where a step does not find on the stack what it takes.
pub open spec fn type_run(s: Seq<ItemView>, nodes: Seq<Pair>) -> Option<Result<Seq<ItemView>, RichErrorView>>
    decreases nodes.len(),
{
    if nodes.len() == 0 {
        Some(Ok(s))
    } else {
        match type_run(s, nodes.drop_last()) {
            Some(Ok(t)) => type_step(t, nodes.last()),
            other => other,
        }
    }
}

/// What the first `k` items `s` give, in order, or the first error from left to right.
pub open spec fn items_spec(s: Seq<Pair>, k: int) -> Result<Seq<ItemView>, RichErrorView>
    decreases k,
{
    if k <= 0 || k > s.len() {
        Ok(Seq::empty())
    } else {
        match items_spec(s, k - 1) {
            Err(e) => Err(e),
            Ok(v) => match type_item_spec(s[k - 1]) {
                Err(e) => Err(e),
                Ok(i) => Ok(v.push(i)),
            },
        }
    }
}

/// What a walk through `p` from the stack `s` should leave: the stack with what `p` gives
/// on top, or the error that `p` gives.
pub open spec fn pushed(s: Seq<ItemView>, r: Result<ItemView, RichErrorView>) -> Option<
    Result<Seq<ItemView>, RichErrorView>,
> {
    match r {
        Ok(v) => Some(Ok(s.push(v))),
        Err(e) => Some(Err(e)),
    }
}

/// Walking through `a` then `b` is walking through `a`, then through `b` from where it ended.
proof fn lemma_type_run_append(s: Seq<ItemView>, a: Seq<Pair>, b: Seq<Pair>)
    ensures
        type_run(s, a + b) == match type_run(s, a) {
            Some(Ok(t)) => type_run(t, b),
            other => other,
        },
    decreases b.len(),
{
    if b.len() == 0 {
        assert(a + b == a);
    } else {
        assert((a + b).drop_last() == a + b.drop_last());
        lemma_type_run_append(s, a, b.drop_last());
    }
}

/// What an item of a type expression gives is of the kind of the item.
proof fn lemma_type_item_kind(p: Pair)
    requires
        p.wf(),
        is_type_rule(p.rule),
    ensures
        type_item_spec(p) matches Ok(v) ==> item_view_kind(v) == item_kind(p),
    decreases p,
{
    if p.rule == Rule::ty {
        assert(p.inner[0].wf());
        lemma_type_item_kind(p.inner[0]);
    }
}

/// The types of the items of a tuple are the types that its items give.
proof fn lemma_type_items_of_items(s: Seq<Pair>, k: int)
    requires
        0 <= k <= s.len(),
    ensures
        type_items_spec(s, k) == match items_spec(s, k) {
            Ok(vs) => Ok(item_types(vs)),
            Err(e) => Err::<Seq<TypeView>, RichErrorView>(e),
        },
        items_spec(s, k) matches Ok(vs) ==> vs.len() == k,
    decreases k,
{
    if k > 0 {
        lemma_type_items_of_items(s, k - 1);
        if let Ok(vs) = items_spec(s, k) {
            assert(vs.drop_last() == items_spec(s, k - 1)->Ok_0);
        }
    }
}

/// A walk through the nested items of `p` that it visits, up to the `k`-th, pushes what they
/// give, or ends in the first error.
proof fn lemma_type_children_walk(p: Pair, k: int, s: Seq<ItemView>)
    requires
        p.wf(),
        is_type_rule(p.rule),
        0 <= k <= type_arity(p) <= p.inner.len(),
    ensures
        type_run(s, type_children_post_order(p, k)) == match items_spec(p.inner@, k) {
            Ok(vs) => Some(Ok(s + vs)),
            Err(e) => Some(Err::<Seq<ItemView>, RichErrorView>(e)),
        },
    decreases p, k,
{
    if k == 0 {
        assert(s + Seq::<ItemView>::empty() == s);
    } else {
        let c = p.inner[k - 1];
        assert(c.wf());
        assert(is_type_rule(c.rule));
        lemma_type_children_walk(p, k - 1, s);
        lemma_type_run_append(s, type_children_post_order(p, k - 1), type_post_order(c));
        match items_spec(p.inner@, k - 1) {
            Ok(vs) => {
                lemma_type_walk(c, s + vs);
                if let Ok(v) = type_item_spec(c) {
                    assert((s + vs).push(v) == s + vs.push(v));
                }
            },
            Err(e) => {},
        }
    }
}

/// A walk through the type expression `p` from a stack pushes what `p` gives, or ends in
/// the error that it gives.
proof fn lemma_type_walk(p: Pair, s: Seq<ItemView>)
    requires
        p.wf(),
        is_type_rule(p.rule),
    ensures
        type_run(s, type_post_order(p)) == pushed(s, type_item_spec(p)),
    decreases p, p.inner.len() + 1,
{
    let k = type_arity(p);
    assert(0 <= k <= p.inner.len());
    lemma_type_children_walk(p, k, s);
    let children = type_children_post_order(p, k);
    assert(type_post_order(p) == children.push(p));
    assert(children.push(p).drop_last() == children);
    lemma_type_items_of_items(p.inner@, k);
    if k >= 1 {
        assert(p.inner[0].wf());
        lemma_type_item_kind(p.inner[0]);
    }
    if k >= 2 {
        assert(p.inner[1].wf());
        lemma_type_item_kind(p.inner[1]);
    }
    reveal_with_fuel(items_spec, 3);
    match items_spec(p.inner@, k) {
        Ok(vs) => {
            let t = s + vs;
            let n = t.len();
            assert(vs.len() == k);
            if p.rule == Rule::tuple_type {
                assert(t.skip(n - k) == vs);
                assert(t.take(n - k) == s);
                assert forall|i: int| 0 <= i < vs.len() implies (#[trigger] vs[i]) is Type by {
                    lemma_items_kinds(p.inner@, k, i);
                }
            } else if k == 2 {
                assert(t.take(n - 2) == s);
                assert(t[n - 2] == vs[0]);
                assert(t[n - 1] == vs[1]);
                assert(vs[0] == type_item_spec(p.inner[0])->Ok_0);
                assert(vs[1] == type_item_spec(p.inner[1])->Ok_0);
            } else if k == 1 {
                assert(t.take(n - 1) == s);
                assert(t[n - 1] == vs[0]);
                assert(vs[0] == type_item_spec(p.inner[0])->Ok_0);
                assert(t == s.push(vs[0]));
            } else {
                assert(t == s);
            }
        },
        Err(e) => {},
    }
}

/// The items of a tuple type that parse all give types.
proof fn lemma_items_kinds(s: Seq<Pair>, k: int, i: int)
    requires
        0 <= i < k <= s.len(),
        forall|j: int| 0 <= j < s.len() ==> (#[trigger] s[j]).wf() && is_type_item(s[j]),
        items_spec(s, k) is Ok,
    ensures
        items_spec(s, k)->Ok_0.len() == k,
        items_spec(s, k)->Ok_0[i] is Type,
    decreases k,
{
    lemma_type_items_of_items(s, k - 1);
    lemma_type_items_of_items(s, k);
    assert(s[k - 1].wf() && is_type_item(s[k - 1]));
    lemma_type_item_kind(s[k - 1]);
    let prev = items_spec(s, k - 1)->Ok_0;
    let v = type_item_spec(s[k - 1])->Ok_0;
    assert(items_spec(s, k)->Ok_0 == prev.push(v));
    if i < k - 1 {
        lemma_items_kinds(s, k - 1, i);
        assert(prev.push(v)[i] == prev[i]);
    }
}

/// The nested pairs of `p` that the walk visits are items of a type expression.
proof fn lemma_type_child(p: Pair, i: int)
    requires
        p.wf(),
        is_type_rule(p.rule),
        0 <= i < type_arity(p),
    ensures
        i < p.inner.len(),
        p.inner[i].wf(),
        is_type_rule(p.inner[i].rule),
{
    assert(p.inner[i].wf());
}

/// An item of a type expression: a type, the size of an array or the bound of a list.
enum Item {
    Type(AliasedType),
    Size(usize),
    Bound(NonZeroPow2Usize),
}

spec fn item_view(i: Item) -> ItemView {
    match i {
        Item::Type(t) => ItemView::Type(t@),
        Item::Size(n) => ItemView::Size(n),
        Item::Bound(b) => ItemView::Bound(b.value()),
    }
}

spec fn items_view(s: Seq<Item>) -> Seq<ItemView> {
    s.map_values(|i: Item| item_view(i))
}

impl Item {
    fn unwrap_type(self) -> (res: AliasedType)
        requires
            self is Type,
        ensures
            res@ == item_type(item_view(self)),
    {
        match self {
            Item::Type(ty) => ty,
            _ => unreached(),
        }
    }

    fn unwrap_size(self) -> (res: usize)
        requires
            self is Size,
        ensures
            item_view(self) == ItemView::Size(res),
    {
        match self {
            Item::Size(size) => size,
            _ => unreached(),
        }
    }

    fn unwrap_bound(self) -> (res: NonZeroPow2Usize)
        requires
            self is Bound,
        ensures
            item_view(self) == ItemView::Bound(res.value()),
    {
        match self {
            Item::Bound(bound) => bound,
            _ => unreached(),
        }
    }
}

/// Takes the item on top of the stack `output`.
fn pop_item(output: &mut Vec<Item>) -> (res: Item)
    requires
        old(output)@.len() >= 1,
    ensures
        final(output)@ == old(output)@.drop_last(),
        items_view(final(output)@) == items_view(old(output)@).drop_last(),
        item_view(res) == items_view(old(output)@).last(),
{
    let res = output.pop().unwrap();
    assert(items_view(output@) == items_view(old(output)@).drop_last());
    res
}

/// Puts the item `item` on top of the stack `output`.
fn push_item(output: &mut Vec<Item>, item: Item)
    ensures
        items_view(final(output)@) == items_view(old(output)@).push(item_view(item)),
{
    output.push(item);
    assert(items_view(output@) == items_view(old(output)@).push(item_view(item)));
}

/// How many nested pairs a walk through the type expression `p` visits: its shape as a node.
fn type_node_arity(p: &Pair) -> (res: usize)
    requires
        p.wf(),
        is_type_rule(p.rule),
    ensures
        res == type_arity(*p),
        res <= p.inner.len(),
{
    match p.rule {
        Rule::ty | Rule::option_type => 1,
        Rule::sum_type | Rule::array_type | Rule::list_type => 2,
        Rule::tuple_type => p.inner.len(),
        _ => 0,
    }
}

/// Appends the pairs of the type expression `p`, in post-order, to `out`.
fn push_type_post_order<'a>(p: &'a Pair, out: &mut Vec<&'a Pair>)
    requires
        p.wf(),
        is_type_rule(p.rule),
    ensures
        derefs(final(out)@) == derefs(old(out)@) + type_post_order(*p),
        forall|j: int|
            old(out)@.len() <= j < final(out)@.len() ==> (#[trigger] derefs(final(out)@)[j]).wf()
                && is_type_rule(derefs(final(out)@)[j].rule),
    decreases p,
{
    let ghost start = derefs(out@);
    let ghost start_len = out@.len();
    let k = type_node_arity(p);
    let mut i: usize = 0;
    while i < k
        invariant
            p.wf(),
            is_type_rule(p.rule),
            k == type_arity(*p),
            k <= p.inner.len(),
            i <= k,
            start_len == start.len(),
            derefs(out@) == start + type_children_post_order(*p, i as int),
            forall|j: int|
                start_len <= j < out@.len() ==> (#[trigger] derefs(out@)[j]).wf() && is_type_rule(
                    derefs(out@)[j].rule,
                ),
        decreases k - i,
    {
        proof {
            lemma_type_child(*p, i as int);
        }
        let ghost mid = derefs(out@);
        push_type_post_order(&p.inner[i], out);
        proof {
            assert(start + type_children_post_order(*p, i as int + 1) == start
                + type_children_post_order(*p, i as int) + type_post_order(p.inner[i as int]));
            assert forall|j: int| start_len <= j < out@.len() implies (#[trigger] derefs(out@)[j]).wf()
                && is_type_rule(derefs(out@)[j].rule) by {
                if j < mid.len() {
                    assert(derefs(out@)[j] == mid[j]);
                }
            }
        }
        i = i + 1;
    }
    let ghost before = derefs(out@);
    out.push(p);
    proof {
        assert(derefs(out@) == before.push(*p));
        assert(type_post_order(*p) == type_children_post_order(*p, k as int).push(*p));
        assert(derefs(out@) == start + type_post_order(*p));
    }
}

/// Takes the type on top of the stack `output`.
fn pop_type(output: &mut Vec<Item>) -> (res: AliasedType)
    requires
        old(output)@.len() >= 1,
        items_view(old(output)@).last() is Type,
    ensures
        items_view(final(output)@) == items_view(old(output)@).drop_last(),
        res@ == item_type(items_view(old(output)@).last()),
{
    let item = pop_item(output);
    item.unwrap_type()
}

impl AliasedType {
    /// The type that the type expression `pair` stands for.
    ///
    /// The items of the expression are read in post-order; each puts what it gives on a
    /// stack, after taking from it what the items nested in it gave.
    pub fn parse(pair: &Pair) -> (res: Result<Self, RichError>)
        requires
            pair.wf(),
            is_type_entry(*pair),
        ensures
            result_view(res) == type_spec(*pair),
    {
        let mut nodes: Vec<&Pair> = Vec::new();
        proof {
            assert(derefs(nodes@) == Seq::<Pair>::empty());
        }
        push_type_post_order(pair, &mut nodes);
        let ghost all = derefs(nodes@);
        proof {
            assert(Seq::<Pair>::empty() + type_post_order(*pair) == type_post_order(*pair));
            lemma_type_walk(*pair, Seq::empty());
            lemma_type_item_kind(*pair);
        }
        let mut output: Vec<Item> = Vec::new();
        proof {
            assert(items_view(output@) == Seq::<ItemView>::empty());
            assert(all.take(0) == Seq::<Pair>::empty());
        }
        let mut i: usize = 0;
        while i < nodes.len()
            invariant
                all == derefs(nodes@),
                all.len() == nodes@.len(),
                forall|j: int| 0 <= j < all.len() ==> (#[trigger] all[j]).wf() && is_type_rule(all[j].rule),
                type_run(Seq::empty(), all) == pushed(Seq::empty(), type_item_spec(*pair)),
                i <= nodes.len(),
                type_run(Seq::empty(), all.take(i as int)) == Some(
                    Ok::<Seq<ItemView>, RichErrorView>(items_view(output@)),
                ),
            decreases nodes.len() - i,
        {
            let node = nodes[i];
            let ghost before = items_view(output@);
            let ghost n = before.len();
            proof {
                assert(all[i as int] == *node);
                assert(all.take(i as int + 1).drop_last() == all.take(i as int));
                assert(all.take(i as int + 1) + all.skip(i as int + 1) == all);
                lemma_type_run_append(Seq::empty(), all.take(i as int + 1), all.skip(i as int + 1));
                assert(type_run(Seq::empty(), all.take(i as int + 1)) == type_step(before, *node));
                assert(node.wf());
                assert(output@.len() == n);
            }
            match node.rule {
                Rule::alias_name => {
                    let identifier = Identifier::parse(&node.inner[0])?;
                    push_item(&mut output, Item::Type(AliasedType::alias(identifier)));
                },
                Rule::builtin_alias => {
                    let builtin = BuiltinAlias::parse(node)?;
                    push_item(&mut output, Item::Type(AliasedType::builtin(builtin)));
                },
                Rule::unsigned_type => {
                    let uint_ty = UIntType::parse(node)?;
                    push_item(&mut output, Item::Type(AliasedType::from_uint(uint_ty)));
                },
                Rule::sum_type => {
                    let r = pop_type(&mut output);
                    let l = pop_type(&mut output);
                    proof {
                        assert(before.drop_last().drop_last() == before.take(n - 2));
                    }
                    push_item(&mut output, Item::Type(AliasedType::either(l, r)));
                },
                Rule::option_type => {
                    let r = pop_type(&mut output);
                    proof {
                        assert(before.drop_last() == before.take(n - 1));
                    }
                    push_item(&mut output, Item::Type(AliasedType::option(r)));
                },
                Rule::boolean_type => {
                    push_item(&mut output, Item::Type(AliasedType::boolean()));
                },
                Rule::tuple_type => {
                    let size = node.inner.len();
                    let elements = output.split_off(output.len() - size);
                    let ghost vs = items_view(elements@);
                    proof {
                        assert(items_view(output@) == before.take(n - size));
                        assert(vs == before.skip(n - size));
                    }
                    let tuple = collect_types(elements);
                    push_item(&mut output, Item::Type(AliasedType::tuple(tuple)));
                },
                Rule::array_type => {
                    let size = pop_item(&mut output).unwrap_size();
                    let el = pop_type(&mut output);
                    proof {
                        assert(before.drop_last().drop_last() == before.take(n - 2));
                    }
                    push_item(&mut output, Item::Type(AliasedType::array(el, size)));
                },
                Rule::array_size => {
                    let t = chars_of(node.text.as_str());
                    match parse_usize(t.as_slice()) {
                        Ok(size) => push_item(&mut output, Item::Size(size)),
                        Err(m) => {
                            return Err(RichError::new(Error::CannotParse(m), Span::from_pair(node)));
                        },
                    }
                },
                Rule::list_type => {
                    let bound = pop_item(&mut output).unwrap_bound();
                    let el = pop_type(&mut output);
                    proof {
                        assert(before.drop_last().drop_last() == before.take(n - 2));
                    }
                    push_item(&mut output, Item::Type(AliasedType::list(el, bound)));
                },
                Rule::list_bound => {
                    let t = chars_of(node.text.as_str());
                    let bound = match parse_usize(t.as_slice()) {
                        Ok(bound) => bound,
                        Err(m) => {
                            return Err(RichError::new(Error::CannotParse(m), Span::from_pair(node)));
                        },
                    };
                    match NonZeroPow2Usize::new(bound) {
                        Some(b) => push_item(&mut output, Item::Bound(b)),
                        None => {
                            return Err(
                                RichError::new(Error::ListBoundPow2(bound), Span::from_pair(node)),
                            );
                        },
                    }
                },
                Rule::ty => {},
                _ => unreached(),
            }
            i = i + 1;
        }
        proof {
            assert(all.take(all.len() as int) == all);
        }
        Ok(pop_type(&mut output))
    }
}

/// The types of the items `elements`, which all stand for types, in order.
fn collect_types(elements: Vec<Item>) -> (res: Vec<AliasedType>)
    requires
        all_types(items_view(elements@)),
    ensures
        types_view(res@) == item_types(items_view(elements@)),
{
    let ghost vs = items_view(elements@);
    let mut rest = elements;
    let mut res: Vec<AliasedType> = Vec::new();
    let ghost k = vs.len();
    while rest.len() > 0
        invariant
            vs.len() == k,
            all_types(vs),
            rest@.len() <= k,
            items_view(rest@) == vs.skip(k - rest@.len()),
            types_view(res@) == item_types(vs.take(k - rest@.len())),
        decreases rest@.len(),
    {
        let ghost j = k - rest@.len();
        let ghost old_rest = rest@;
        let item = rest.remove(0);
        proof {
            assert(item == old_rest[0]);
            assert(items_view(old_rest)[0] == item_view(old_rest[0]));
            assert(vs.skip(j)[0] == vs[j]);
            assert(item_view(item) == vs[j]);
            assert(vs[j] is Type);
            assert(rest@ == old_rest.skip(1));
            assert(items_view(rest@) == items_view(old_rest).skip(1));
            assert(vs.skip(j).skip(1) == vs.skip(j + 1));
            assert(vs.take(j + 1).drop_last() == vs.take(j));
        }
        let ghost before = res@;
        res.push(item.unwrap_type());
        proof {
            assert(res@.drop_last() == before);
        }
    }
    proof {
        assert(vs.take(k as int) == vs);
    }
    res
}


/// How many nested pairs a walk through the pattern `p` visits: the one of a pattern, all of
/// a tuple or an array pattern, none of a variable or of `_`.
pub open spec fn pattern_arity(p: Pair) -> int {
    match p.rule {
        Rule::pattern => 1,
        Rule::tuple_pattern | Rule::array_pattern => p.inner.len() as int,
        _ => 0,
    }
}

/// The pairs of the pattern `p` in post-order: its nested pairs from left to right, each
/// after its own, then `p`.
pub open spec fn pattern_post_order(p: Pair) -> Seq<Pair>
    decreases p, p.inner.len() + 1,
{
    let k = pattern_arity(p);
    if 0 <= k <= p.inner.len() {
        pattern_children_post_order(p, k).push(p)
    } else {
        seq![p]
    }
}

/// The post-orders of the first `k` nested pairs of the pattern `p`, one after the other.
pub open spec fn pattern_children_post_order(p: Pair, k: int) -> Seq<Pair>
    decreases p, k,
{
    if k <= 0 || k > p.inner.len() {
        Seq::empty()
    } else {
        pattern_children_post_order(p, k - 1) + pattern_post_order(p.inner[k - 1])
    }
}

/// One step of the walk through a pattern: the stack `s` after reading the item `p`;
/// nothing where `s` does not hold what `p` takes from it.
pub open spec fn pattern_step(s: Seq<PatternView>, p: Pair) -> Option<Seq<PatternView>> {
    let n = s.len();
    let k = p.inner.len() as int;
    match p.rule {
        Rule::pattern => Some(s),
        Rule::variable_pattern => Some(s.push(PatternView::Identifier(first_name(p)))),
        Rule::ignore_pattern => Some(s.push(PatternView::Ignore)),
        Rule::tuple_pattern => if k <= n {
            Some(s.take(n - k).push(PatternView::Tuple(s.skip(n - k))))
        } else {
            None
        },
        Rule::array_pattern => if k <= n {
            Some(s.take(n - k).push(PatternView::Array(s.skip(n - k))))
        } else {
            None
        },
        _ => None,
    }
}

/// The walk through the items `nodes` of a pattern from the stack `s`: the stack at its end;
/// nothing where a step does not find on the stack what it takes.
pub open spec fn pattern_run(s: Seq<PatternView>, nodes: Seq<Pair>) -> Option<Seq<PatternView>>
    decreases nodes.len(),
{
    if nodes.len() == 0 {
        Some(s)
    } else {
        match pattern_run(s, nodes.drop_last()) {
            Some(t) => pattern_step(t, nodes.last()),
            None => None,
        }
    }
}

/// Walking through `a` then `b` is walking through `a`, then through `b` from where it ended.
proof fn lemma_pattern_run_append(s: Seq<PatternView>, a: Seq<Pair>, b: Seq<Pair>)
    ensures
        pattern_run(s, a + b) == match pattern_run(s, a) {
            Some(t) => pattern_run(t, b),
            None => None,
        },
    decreases b.len(),
{
    if b.len() == 0 {
        assert(a + b == a);
    } else {
        assert((a + b).drop_last() == a + b.drop_last());
        lemma_pattern_run_append(s, a, b.drop_last());
    }
}

/// What the first `k` patterns of `s` give are `k` patterns.
proof fn lemma_patterns_spec_len(s: Seq<Pair>, k: int)
    requires
        0 <= k <= s.len(),
    ensures
        patterns_spec(s, k).len() == k,
    decreases k,
{
    if k > 0 {
        lemma_patterns_spec_len(s, k - 1);
    }
}

/// A walk through the nested patterns of `p`, up to the `k`-th, pushes what they give.
proof fn lemma_pattern_children_walk(p: Pair, k: int, s: Seq<PatternView>)
    requires
        p.wf(),
        is_pattern_rule(p.rule),
        0 <= k <= pattern_arity(p) <= p.inner.len(),
    ensures
        pattern_run(s, pattern_children_post_order(p, k)) == Some(s + patterns_spec(p.inner@, k)),
    decreases p, k,
{
    if k == 0 {
        assert(s + Seq::<PatternView>::empty() == s);
    } else {
        let c = p.inner[k - 1];
        assert(c.wf());
        assert(is_pattern_rule(c.rule));
        lemma_pattern_children_walk(p, k - 1, s);
        lemma_pattern_run_append(s, pattern_children_post_order(p, k - 1), pattern_post_order(c));
        let vs = patterns_spec(p.inner@, k - 1);
        lemma_pattern_walk(c, s + vs);
        assert((s + vs).push(pattern_spec(c)) == s + vs.push(pattern_spec(c)));
    }
}

/// A walk through the pattern `p` from a stack pushes the pattern that `p` gives.
proof fn lemma_pattern_walk(p: Pair, s: Seq<PatternView>)
    requires
        p.wf(),
        is_pattern_rule(p.rule),
    ensures
        pattern_run(s, pattern_post_order(p)) == Some(s.push(pattern_spec(p))),
    decreases p, p.inner.len() + 1,
{
    let k = pattern_arity(p);
    assert(0 <= k <= p.inner.len());
    lemma_pattern_children_walk(p, k, s);
    let children = pattern_children_post_order(p, k);
    assert(pattern_post_order(p) == children.push(p));
    assert(children.push(p).drop_last() == children);
    lemma_patterns_spec_len(p.inner@, k);
    let vs = patterns_spec(p.inner@, k);
    let t = s + vs;
    let n = t.len();
    if p.rule == Rule::tuple_pattern || p.rule == Rule::array_pattern {
        assert(t.skip(n - k) == vs);
        assert(t.take(n - k) == s);
    } else if p.rule == Rule::pattern {
        reveal_with_fuel(patterns_spec, 2);
        assert(vs == seq![pattern_spec(p.inner[0])]);
        assert(t == s.push(pattern_spec(p.inner[0])));
    } else {
        assert(t == s);
    }
}

/// The nested pairs of the pattern `p` that the walk visits are patterns.
proof fn lemma_pattern_child(p: Pair, i: int)
    requires
        p.wf(),
        is_pattern_rule(p.rule),
        0 <= i < pattern_arity(p),
    ensures
        i < p.inner.len(),
        p.inner[i].wf(),
        is_pattern_rule(p.inner[i].rule),
{
    assert(p.inner[i].wf());
}

/// The values of the patterns `s` are those of each pattern in turn.
proof fn lemma_patterns_view_map(s: Seq<Pattern>)
    ensures
        patterns_view(s) == s.map_values(|q: Pattern| q@),
        patterns_view(s).len() == s.len(),
    decreases s.len(),
{
    if s.len() > 0 {
        lemma_patterns_view_map(s.drop_last());
        assert(s.map_values(|q: Pattern| q@) == s.drop_last().map_values(|q: Pattern| q@).push(
            s.last()@,
        ));
    }
}

/// How many nested pairs a walk through the pattern `p` visits: its shape as a node.
fn pattern_node_arity(p: &Pair) -> (res: usize)
    requires
        p.wf(),
        is_pattern_rule(p.rule),
    ensures
        res == pattern_arity(*p),
        res <= p.inner.len(),
{
    match p.rule {
        Rule::pattern => 1,
        Rule::tuple_pattern | Rule::array_pattern => p.inner.len(),
        _ => 0,
    }
}

/// Appends the pairs of the pattern `p`, in post-order, to `out`.
fn push_pattern_post_order<'a>(p: &'a Pair, out: &mut Vec<&'a Pair>)
    requires
        p.wf(),
        is_pattern_rule(p.rule),
    ensures
        derefs(final(out)@) == derefs(old(out)@) + pattern_post_order(*p),
        forall|j: int|
            old(out)@.len() <= j < final(out)@.len() ==> (#[trigger] derefs(final(out)@)[j]).wf()
                && is_pattern_rule(derefs(final(out)@)[j].rule),
    decreases p,
{
    let ghost start = derefs(out@);
    let ghost start_len = out@.len();
    let k = pattern_node_arity(p);
    let mut i: usize = 0;
    while i < k
        invariant
            p.wf(),
            is_pattern_rule(p.rule),
            k == pattern_arity(*p),
            k <= p.inner.len(),
            i <= k,
            start_len == start.len(),
            derefs(out@) == start + pattern_children_post_order(*p, i as int),
            forall|j: int|
                start_len <= j < out@.len() ==> (#[trigger] derefs(out@)[j]).wf()
                    && is_pattern_rule(derefs(out@)[j].rule),
        decreases k - i,
    {
        proof {
            lemma_pattern_child(*p, i as int);
        }
        let ghost mid = derefs(out@);
        push_pattern_post_order(&p.inner[i], out);
        proof {
            assert(start + pattern_children_post_order(*p, i as int + 1) == start
                + pattern_children_post_order(*p, i as int) + pattern_post_order(
                p.inner[i as int],
            ));
            assert forall|j: int| start_len <= j < out@.len() implies (#[trigger] derefs(
                out@,
            )[j]).wf() && is_pattern_rule(derefs(out@)[j].rule) by {
                if j < mid.len() {
                    assert(derefs(out@)[j] == mid[j]);
                }
            }
        }
        i = i + 1;
    }
    let ghost before = derefs(out@);
    out.push(p);
    proof {
        assert(derefs(out@) == before.push(*p));
        assert(pattern_post_order(*p) == pattern_children_post_order(*p, k as int).push(*p));
        assert(derefs(out@) == start + pattern_post_order(*p));
    }
}

/// Puts the pattern `q` on top of the stack `output`.
fn push_pattern(output: &mut Vec<Pattern>, q: Pattern)
    ensures
        patterns_view(final(output)@) == patterns_view(old(output)@).push(q@),
{
    output.push(q);
    assert(output@.drop_last() == old(output)@);
}

/// Takes the top `size` patterns off the stack `output`, in order.
fn split_patterns(output: &mut Vec<Pattern>, size: usize) -> (res: Vec<Pattern>)
    requires
        size <= old(output)@.len(),
    ensures
        patterns_view(final(output)@) == patterns_view(old(output)@).take(
            old(output)@.len() - size,
        ),
        patterns_view(res@) == patterns_view(old(output)@).skip(old(output)@.len() - size),
{
    let ghost before = output@;
    let at = output.len() - size;
    let res = output.split_off(at);
    proof {
        lemma_patterns_view_map(before);
        lemma_patterns_view_map(output@);
        lemma_patterns_view_map(res@);
        assert(output@.map_values(|q: Pattern| q@) == before.map_values(|q: Pattern| q@).take(
            at as int,
        ));
        assert(res@.map_values(|q: Pattern| q@) == before.map_values(|q: Pattern| q@).skip(
            at as int,
        ));
    }
    res
}

impl Pattern {
    /// The pattern that `pair` stands for.
    ///
    /// The items of the pattern are read in post-order; each puts the pattern that it gives
    /// on a stack, after taking from it those of the items nested in it.
    pub fn parse(pair: &Pair) -> (res: Result<Self, RichError>)
        requires
            pair.wf(),
            pair.rule == Rule::pattern,
        ensures
            res matches Ok(p) && p@ == pattern_spec(*pair),
    {
        let mut nodes: Vec<&Pair> = Vec::new();
        proof {
            assert(derefs(nodes@) == Seq::<Pair>::empty());
        }
        push_pattern_post_order(pair, &mut nodes);
        let ghost all = derefs(nodes@);
        proof {
            assert(Seq::<Pair>::empty() + pattern_post_order(*pair) == pattern_post_order(*pair));
            lemma_pattern_walk(*pair, Seq::empty());
        }
        let mut output: Vec<Pattern> = Vec::new();
        proof {
            assert(patterns_view(output@) == Seq::<PatternView>::empty());
            assert(all.take(0) == Seq::<Pair>::empty());
        }
        let mut i: usize = 0;
        while i < nodes.len()
            invariant
                all == derefs(nodes@),
                all.len() == nodes@.len(),
                forall|j: int|
                    0 <= j < all.len() ==> (#[trigger] all[j]).wf() && is_pattern_rule(
                        all[j].rule,
                    ),
                pattern_run(Seq::empty(), all) == Some(seq![pattern_spec(*pair)]),
                i <= nodes.len(),
                pattern_run(Seq::empty(), all.take(i as int)) == Some(patterns_view(output@)),
            decreases nodes.len() - i,
        {
            let node = nodes[i];
            let ghost before = patterns_view(output@);
            proof {
                assert(all[i as int] == *node);
                assert(all.take(i as int + 1).drop_last() == all.take(i as int));
                assert(all.take(i as int + 1) + all.skip(i as int + 1) == all);
                lemma_pattern_run_append(
                    Seq::empty(),
                    all.take(i as int + 1),
                    all.skip(i as int + 1),
                );
                assert(pattern_run(Seq::empty(), all.take(i as int + 1)) == pattern_step(
                    before,
                    *node,
                ));
                assert(node.wf());
                lemma_patterns_view_map(output@);
            }
            match node.rule {
                Rule::pattern => {},
                Rule::variable_pattern => {
                    let identifier = Identifier::parse(&node.inner[0])?;
                    push_pattern(&mut output, Pattern::Identifier(identifier));
                },
                Rule::ignore_pattern => {
                    push_pattern(&mut output, Pattern::Ignore);
                },
                Rule::tuple_pattern => {
                    let size = node.inner.len();
                    let elements = split_patterns(&mut output, size);
                    push_pattern(&mut output, Pattern::tuple(elements));
                },
                Rule::array_pattern => {
                    let size = node.inner.len();
                    let elements = split_patterns(&mut output, size);
                    push_pattern(&mut output, Pattern::array(elements));
                },
                _ => unreached(),
            }
            i = i + 1;
        }
        let ghost last = output@;
        proof {
            assert(i == all.len());
            assert(all.take(all.len() as int) == all);
            assert(patterns_view(last) == seq![pattern_spec(*pair)]);
            lemma_patterns_view_map(last);
            assert(last.len() == 1);
            assert(last.drop_last() == Seq::<Pattern>::empty());
            assert(patterns_view(last)[0] == last[0]@);
            assert(seq![pattern_spec(*pair)][0] == pattern_spec(*pair));
            assert(last[0]@ == pattern_spec(*pair));
        }
        let res = output.pop().unwrap();
        proof {
            assert(res == last[0]);
        }
        Ok(res)
    }
}

} // verus!
