//! What the operations on types make of each type, in terms of what they make of its parts.
use crate::class::{ClassType, TArgs};
use crate::literal::Lit;
use crate::rewriting::{
    anonymous_step, explicit_step, promote_step, self_type_step, subst_step,
};
use crate::special_form::SpecialForm;
use crate::stdlib::{instance_tree, Stdlib};
use crate::tree::{tree_unfolds, trees, Node, TypeTree};
use crate::types::{
    first_occurrences, first_occurrences_are_all, fresh_types, fresh_var, quantified_is_its_parts,
    quantifieds_of, var_is_its_number, AnyStyle, Quantified, Type, Var,
};
use crate::uniques::{unique_is_its_number, UniqueFactory};
use crate::visitor::{
    is_rewrite, is_visit, rewrites_all, visits_all, Refs, TypeMutator, TypeVisitor,
};
use vstd::prelude::*;

verus! {

/// Whether rewriting with `g` leaves the root of a type as it is, and does to the types directly
/// inside what it does to each of them alone.
pub open spec fn only_parts_change(ty: Type, g: spec_fn(TypeTree) -> TypeTree) -> bool {
    let after = ty@.bottom_up(g);
    &&& after.node == ty.node()
    &&& after.children.len() == ty.children().len()
    &&& forall|i: int|
        0 <= i < ty.children().len() ==> (#[trigger] after.children[i])
            == ty.children()[i]@.bottom_up(g)
}

proof fn step_keeps_root(ty: Type, g: spec_fn(TypeTree) -> TypeTree)
    requires
        forall|x: TypeTree| x.node == ty.node() ==> #[trigger] g(x) == x,
    ensures
        only_parts_change(ty, g),
{
    tree_unfolds(ty);
    let x = TypeTree { node: ty.node(), children: ty@.children_bottom_up(g) };
    assert(g(x) == x);
    assert forall|i: int| 0 <= i < ty.children().len() implies (
    #[trigger] ty@.bottom_up(g).children[i]) == ty.children()[i]@.bottom_up(g) by {
        assert(ty@.children[i] == ty.children()[i]@);
    }
}

/// What a step of rewriting is given is the type with its parts rewritten.
pub proof fn rewriting_by_parts(ty: Type, mid: Type, g: spec_fn(TypeTree) -> TypeTree)
    requires
        mid.node() == ty.node(),
        mid.children().len() == ty.children().len(),
        forall|i: int|
            0 <= i < ty.children().len() ==> (#[trigger] mid.children()[i])@
                == ty.children()[i]@.bottom_up(g),
    ensures
        ty@.bottom_up(g) == g(mid@),
{
    tree_unfolds(ty);
    tree_unfolds(mid);
    assert forall|i: int| 0 <= i < ty.children().len() implies trees(mid.children())[i]
        == ty@.children_bottom_up(g)[i] by {
        assert(mid.children()[i]@ == ty.children()[i]@.bottom_up(g));
    }
    assert(trees(mid.children()) =~= ty@.children_bottom_up(g));
}

/// Substitution turns a type that is just a type parameter into exactly the type that the map has
/// for it. Of any other type it keeps the root and substitutes in the parts.
pub proof fn subst_by_parts(ty: Type, mp: Map<Quantified, Type>)
    ensures
        match ty {
            Type::Quantified(q) => ty@.bottom_up(subst_step(mp)) == if mp.contains_key(q) {
                mp[q]@
            } else {
                ty@
            },
            _ => only_parts_change(ty, subst_step(mp)),
        },
        forall|q: Quantified| #[trigger]
            mp.contains_key(q) ==> (TypeTree {
                node: Node::Quantified(q),
                children: seq![],
            }).bottom_up(subst_step(mp)) == mp[q]@,
{
    let g = subst_step(mp);
    tree_unfolds(ty);
    if let Type::Quantified(q) = ty {
        assert(trees(ty.children()) =~= seq![]);
        assert(ty@.children_bottom_up(g) =~= seq![]);
    } else {
        step_keeps_root(ty, g);
    }
}

/// Putting a type in the place of `Self` turns `Self` into exactly that type. Of any other type it
/// keeps the root and goes on in the parts.
pub proof fn self_type_by_parts(ty: Type, self_type: TypeTree)
    ensures
        match ty {
            Type::SpecialForm(SpecialForm::SelfType) => ty@.bottom_up(self_type_step(self_type))
                == self_type,
            _ => only_parts_change(ty, self_type_step(self_type)),
        },
        (TypeTree {
            node: Node::SpecialForm(SpecialForm::SelfType),
            children: seq![],
        }).bottom_up(self_type_step(self_type)) == self_type,
{
    let g = self_type_step(self_type);
    tree_unfolds(ty);
    if ty.node() != Node::SpecialForm(SpecialForm::SelfType) {
        step_keeps_root(ty, g);
    }
}

/// Whether a tree is that of the instances of a class without type arguments.
pub open spec fn is_instance_of(tree: TypeTree, class: ClassType) -> bool {
    class.1.0@.len() == 0 && tree == Type::ClassType(class)@
}

/// Promotion turns a literal into the instances of the class of its sort, whatever its value is:
/// `str`, `int`, `bool` or `bytes`. Literal strings without a value become `str`. Of any other type
/// it keeps the root and promotes the parts.
pub proof fn promotion_by_parts(ty: Type, stdlib: &Stdlib, none: TArgs)
    requires
        none.0@.len() == 0,
    ensures
        ({
            let after = ty@.bottom_up(promote_step(stdlib));
            match ty {
                Type::Literal(Lit::String(_)) => is_instance_of(
                    after,
                    ClassType(stdlib.str, none),
                ),
                Type::Literal(Lit::Int(_)) => is_instance_of(after, ClassType(stdlib.int, none)),
                Type::Literal(Lit::Bool(_)) => is_instance_of(after, ClassType(stdlib.bool, none)),
                Type::Literal(Lit::Bytes(_)) => is_instance_of(
                    after,
                    ClassType(stdlib.bytes, none),
                ),
                Type::LiteralString => is_instance_of(after, ClassType(stdlib.str, none)),
                _ => only_parts_change(ty, promote_step(stdlib)),
            }
        }),
{
    broadcast use tree_unfolds;

    let g = promote_step(stdlib);
    assert(trees(none.0@) =~= seq![]);
    match ty {
        Type::Literal(_) => {},
        Type::LiteralString => {},
        _ => step_keeps_root(ty, g),
    }
}

/// The class of a literal is that of its sort, whatever its value is.
pub proof fn literal_has_class_of_its_sort(lit: Lit, stdlib: &Stdlib)
    ensures
        match lit {
            Lit::String(_) => lit@.class(stdlib) == stdlib.str@,
            Lit::Int(_) => lit@.class(stdlib) == stdlib.int@,
            Lit::Bool(_) => lit@.class(stdlib) == stdlib.bool@,
            Lit::Bytes(_) => lit@.class(stdlib) == stdlib.bytes@,
        },
{
}

/// The instances of a class that is not generic are the class without type arguments.
pub proof fn instances_have_no_arguments(class: ClassType)
    requires
        class.1.0@.len() == 0,
    ensures
        instance_tree(class.0@) == Type::ClassType(class)@,
{
    tree_unfolds(Type::ClassType(class));
    assert(trees(class.1.0@) =~= seq![]);
}

/// [`Type::explicit_any`] turns any `Any` into the one that the user wrote. Of any other type it
/// keeps the root and goes on in the parts.
pub proof fn explicit_any_by_parts(ty: Type)
    ensures
        match ty {
            Type::Any(_) => ty@.bottom_up(explicit_step()) == Type::Any(AnyStyle::Explicit)@,
            _ => only_parts_change(ty, explicit_step()),
        },
{
    broadcast use tree_unfolds;

    let g = explicit_step();
    if let Type::Any(_) = ty {
        assert(ty@.children_bottom_up(g) =~= seq![]);
        assert(trees(Type::Any(AnyStyle::Explicit).children()) =~= seq![]);
    } else {
        step_keeps_root(ty, g);
    }
}

/// A factory can hand out every number from the next one on, up to the largest but one.
pub proof fn factory_hands_out_every_number(factory: UniqueFactory)
    ensures
        factory.next() + factory.left() == u64::MAX,
{
}

/// A type parameter without its identity has the identity zero and the kind that it had.
pub proof fn forgetting_an_identity_keeps_the_kind(q: Quantified)
    ensures
        q.zeroed().unique().number() == 0,
        q.zeroed().kind() == q.kind(),
{
    broadcast use {quantified_is_its_parts, unique_is_its_number};

}

/// [`Type::deterministic_printing`] takes the identity of each type parameter, each variable and
/// each `P.args` or `P.kwargs`, and nothing else. Type parameters keep their kinds and their order.
/// Of any other type it keeps the root and goes on in the parts.
pub proof fn deterministic_printing_by_parts(ty: Type)
    ensures
        ({
            let after = ty@.bottom_up(anonymous_step());
            match ty {
                Type::Forall(qs, body) => {
                    &&& after.node matches Node::Forall(rs) && rs.len() == qs@.len() && forall|
                        i: int,
                    |
                        0 <= i < rs.len() ==> (#[trigger] rs[i]).unique().number() == 0
                            && rs[i].kind() == qs@[i].kind()
                    &&& after.children == seq![(*body)@.bottom_up(anonymous_step())]
                },
                Type::Quantified(q) => after.children.len() == 0 && (after.node matches
                    Node::Quantified(r) && r.unique().number() == 0 && r.kind() == q.kind()),
                Type::Var(_) => after.children.len() == 0 && (after.node matches Node::Var(v)
                    && v.unique().number() == 0),
                Type::Args(_) => after.children.len() == 0 && (after.node matches Node::Args(id)
                    && id.number() == 0),
                Type::Kwargs(_) => after.children.len() == 0 && (after.node matches Node::Kwargs(id)
                    && id.number() == 0),
                _ => only_parts_change(ty, anonymous_step()),
            }
        }),
{
    broadcast use {
        quantified_is_its_parts,
        unique_is_its_number,
        var_is_its_number,
        tree_unfolds,
    };

    let g = anonymous_step();
    match ty {
        Type::Forall(_, body) => {
            assert(ty@.children[0] == (*body)@);
            assert(ty@.children_bottom_up(g) =~= seq![(*body)@.bottom_up(g)]);
        },
        Type::Quantified(_) => {},
        Type::Var(_) => {},
        Type::Args(_) => {},
        Type::Kwargs(_) => {},
        _ => step_keeps_root(ty, g),
    }
}

/// Python takes an integer for false just when it is zero, a text or bytes just when there is
/// nothing in it, and a Boolean just when it is false.
pub proof fn literal_is_false_just_when_empty(lit: Lit)
    ensures
        match lit {
            Lit::Int(value) => !lit@.truth() <==> value == 0,
            Lit::Bool(value) => !lit@.truth() <==> value == false,
            Lit::String(text) => !lit@.truth() <==> text@.len() == 0,
            Lit::Bytes(bytes) => !lit@.truth() <==> bytes@.len() == 0,
        },
{
}

/// What `bool()` gives is known of a literal, by its value, and of `None`, which is false. It is
/// known of a union just when it is known of all of its types, there are any, and it is the same of
/// all. It is known of no other type.
pub proof fn truth_by_parts(ty: Type, b: bool)
    ensures
        ty@.truth() == Some(b) <==> match ty {
            Type::Literal(Lit::Int(value)) => (value == 0) == !b,
            Type::Literal(Lit::Bool(value)) => value == b,
            Type::Literal(Lit::String(text)) => (text@.len() == 0) == !b,
            Type::Literal(Lit::Bytes(bytes)) => (bytes@.len() == 0) == !b,
            Type::NoneType => !b,
            Type::Union(types) => types@.len() > 0 && forall|i: int|
                0 <= i < types@.len() ==> (#[trigger] types@[i])@.truth() == Some(b),
            _ => false,
        },
{
    tree_unfolds(ty);
    if let Type::Union(types) = ty {
        let all = ty@.children;
        if ty@.truth() == Some(b) {
            assert forall|i: int| 0 <= i < types@.len() implies (#[trigger] types@[i])@.truth()
                == Some(b) by {
                assert(all[i] == types@[i]@);
            }
        }
        if types@.len() > 0 && forall|i: int|
            0 <= i < types@.len() ==> (#[trigger] types@[i])@.truth() == Some(b) {
            assert forall|i: int| 0 <= i < all.len() implies (#[trigger] all[i]).truth()
                == Some(b) by {
                assert(all[i] == types@[i]@);
            }
            assert(all[0].truth() == Some(b));
        }
    }
}

/// What is made out of an `Any` is an error just when that was one, and otherwise one that the user
/// did not write.
pub proof fn propagation_keeps_errors(style: AnyStyle)
    ensures
        style.propagated() == AnyStyle::Error <==> style == AnyStyle::Error,
        style.propagated() == AnyStyle::Implicit <==> style != AnyStyle::Error,
{
}

/// A generic type is taken apart into its type parameters, in order, and what they are parameters
/// of; any other type into no type parameters and itself.
pub proof fn as_forall_by_cases(ty: Type)
    ensures
        match ty {
            Type::Forall(qs, body) => ty.binders() == qs@ && ty.body() == *body,
            _ => ty.binders().len() == 0 && ty.body() == ty,
        },
{
}

/// A type with type parameters added has those, in order, and then the ones that it had, and says
/// apart from them what it said. Without any it is no generic type.
pub proof fn for_all_by_cases(res: Type, uniques: Seq<Quantified>, ty: Type)
    requires
        res.is_for_all(uniques, ty),
    ensures
        match ty {
            Type::Forall(more, body) => if uniques.len() + more@.len() == 0 {
                res@ == (*body)@
            } else {
                res matches Type::Forall(all, inner) && all@.len() == uniques.len() + more@.len()
                    && all@.take(uniques.len() as int) == uniques && all@.skip(
                    uniques.len() as int,
                ) == more@ && (*inner)@ == (*body)@
            },
            _ => if uniques.len() == 0 {
                res@ == ty@
            } else {
                res matches Type::Forall(all, inner) && all@ == uniques && (*inner)@ == ty@
            },
        },
{
    if let Type::Forall(more, body) = ty {
        assert((uniques + more@).take(uniques.len() as int) =~= uniques);
        assert((uniques + more@).skip(uniques.len() as int) =~= more@);
    } else {
        assert(uniques + ty.binders() =~= uniques);
    }
}

/// The variable for a type parameter has the number of the last place where the type parameter was
/// given, counted from the first number. It is what the type parameter becomes.
pub proof fn instantiation_by_place(gargs: Seq<Quantified>, first: u64, i: int)
    requires
        first + gargs.len() <= u64::MAX,
        0 <= i < gargs.len(),
        forall|j: int| i < j < gargs.len() ==> gargs[j] != gargs[i],
    ensures
        fresh_var(gargs, first, gargs[i]).unique().number() == first + i,
        Type::Quantified(gargs[i])@.bottom_up(subst_step(fresh_types(gargs, first))) == Type::Var(
            fresh_var(gargs, first, gargs[i]),
        )@,
{
    broadcast use {var_is_its_number, unique_is_its_number};

    fresh_var_by_place(gargs, first, i);
    subst_by_parts(Type::Quantified(gargs[i]), fresh_types(gargs, first));
    assert(gargs.contains(gargs[i]));
}

proof fn fresh_var_by_place(gargs: Seq<Quantified>, first: u64, i: int)
    requires
        first + gargs.len() <= u64::MAX,
        0 <= i < gargs.len(),
        forall|j: int| i < j < gargs.len() ==> gargs[j] != gargs[i],
    ensures
        fresh_var(gargs, first, gargs[i]) == Var::numbered((first + i) as u64),
    decreases gargs.len(),
{
    if i < gargs.len() - 1 {
        assert(gargs.last() != gargs[i]);
        fresh_var_by_place(gargs.drop_last(), first, i);
    }
}

/// A type parameter that was not given stays as it is.
pub proof fn instantiation_keeps_others(gargs: Seq<Quantified>, first: u64, q: Quantified)
    requires
        !gargs.contains(q),
    ensures
        Type::Quantified(q)@.bottom_up(subst_step(fresh_types(gargs, first))) == Type::Quantified(
            q,
        )@,
{
    subst_by_parts(Type::Quantified(q), fresh_types(gargs, first));
}

/// What occurs first comes first: of two elements, the one further left in [`first_occurrences`] has
/// a place in the list with none of the other up to there.
pub proof fn first_occurrences_keep_order(qs: Seq<Quantified>, i: int, j: int) -> (place: int)
    requires
        0 <= i < j < first_occurrences(qs).len(),
    ensures
        0 <= place < qs.len(),
        qs[place] == first_occurrences(qs)[i],
        forall|k: int| 0 <= k <= place ==> qs[k] != first_occurrences(qs)[j],
    decreases qs.len(),
{
    let rest = qs.drop_last();
    first_occurrences_are_all(rest);
    let (before, all) = (first_occurrences(rest), first_occurrences(qs));
    assert(qs.len() > 0);
    if j < before.len() {
        assert(all[i] == before[i] && all[j] == before[j]);
        let place = first_occurrences_keep_order(rest, i, j);
        assert(qs[place] == rest[place]);
        assert forall|k: int| 0 <= k <= place implies qs[k] != all[j] by {
            assert(qs[k] == rest[k]);
        }
        place
    } else {
        assert(!rest.contains(qs.last()) && all == before.push(qs.last()));
        assert(i < before.len() && j == before.len());
        assert(all[i] == before[i] && all[j] == qs.last());
        assert(before.contains(before[i]));
        assert(rest.contains(before[i]));
        let place = choose|p: int| 0 <= p < rest.len() && rest[p] == before[i];
        assert(qs[place] == rest[place]);
        assert forall|k: int| 0 <= k <= place implies qs[k] != all[j] by {
            assert(qs[k] == rest[k]);
            assert(rest.contains(rest[k]));
        }
        place
    }
}

/// [`first_occurrences`] has every element of the list, and has it once.
pub proof fn first_occurrences_are_the_elements(qs: Seq<Quantified>, q: Quantified)
    ensures
        first_occurrences(qs).contains(q) <==> qs.contains(q),
        forall|i: int, j: int|
            0 <= i < j < first_occurrences(qs).len() ==> first_occurrences(qs)[i]
                != first_occurrences(qs)[j],
{
    first_occurrences_are_all(qs);
}

/// The type parameters of a list, one after the other, are those of its parts, one after the other.
/// Of a single type that is the type parameter that it is, or none.
pub proof fn quantifieds_in_order(a: Seq<Type>, b: Seq<Type>, ty: Type)
    ensures
        quantifieds_of(a + b) == quantifieds_of(a) + quantifieds_of(b),
        quantifieds_of(seq![ty]) == match ty {
            Type::Quantified(q) => seq![q],
            _ => seq![],
        },
    decreases b.len(),
{
    assert(seq![ty].drop_last() =~= seq![]);
    assert(quantifieds_of(seq![ty].drop_last()) =~= seq![]);
    assert(quantifieds_of(seq![ty]) =~= match ty {
        Type::Quantified(q) => seq![q],
        _ => seq![],
    });
    if b.len() == 0 {
        assert(a + b =~= a);
        assert(quantifieds_of(a) + quantifieds_of(b) =~= quantifieds_of(a));
    } else {
        quantifieds_in_order(a, b.drop_last(), ty);
        assert((a + b).drop_last() =~= a + b.drop_last());
        assert((a + b).last() == b.last());
        assert(quantifieds_of(a + b) =~= quantifieds_of(a) + quantifieds_of(b));
    }
}

/// How many types [`Type::universe`] comes to in the first `n` types directly inside a type.
pub open spec fn visited_before(ty: Type, n: int) -> nat
    decreases n,
{
    if n <= 0 {
        0
    } else {
        visited_before(ty, n - 1) + ty.children()[n - 1].post_order().len()
    }
}

/// [`Type::universe`] goes through the types directly inside a type from left to right, through each
/// as it does alone, and then comes to the type itself. It comes to nothing else.
pub proof fn universe_by_parts(ty: Type)
    ensures
        ty.post_order().len() == visited_before(ty, ty.children().len() as int) + 1,
        ty.post_order().last() == ty,
        forall|i: int|
            0 <= i < ty.children().len() ==> ty.post_order().subrange(
                visited_before(ty, i) as int,
                visited_before(ty, i + 1) as int,
            ) == #[trigger] ty.children()[i].post_order(),
{
    let n = ty.children().len() as int;
    let orders = ty.child_orders();
    assert(orders.take(n) =~= orders);
    flatten_has_length(orders, n);
    let inner = orders.flatten();
    assert forall|i: int| 0 <= i <= n implies #[trigger] visited_before(ty, i) == lengths(
        orders,
        i,
    ) by {
        visited_before_is_lengths(ty, i);
    }
    assert(ty.post_order() == inner.push(ty));
    assert forall|i: int| 0 <= i < n implies ty.post_order().subrange(
        visited_before(ty, i) as int,
        visited_before(ty, i + 1) as int,
    ) == #[trigger] ty.children()[i].post_order() by {
        flatten_has_part(orders, n, i);
        let (a, b) = (lengths(orders, i) as int, lengths(orders, i + 1) as int);
        assert(visited_before(ty, i) == a && visited_before(ty, i + 1) == b);
        assert(orders[i] == ty.children()[i].post_order());
        assert(inner.push(ty).subrange(a, b) =~= inner.subrange(a, b));
    }
}

/// The lengths of the first `n` lists together.
spec fn lengths(orders: Seq<Seq<Type>>, n: int) -> nat
    decreases n,
{
    if n <= 0 {
        0
    } else {
        lengths(orders, n - 1) + orders[n - 1].len()
    }
}

proof fn visited_before_is_lengths(ty: Type, n: int)
    requires
        0 <= n <= ty.children().len(),
    ensures
        visited_before(ty, n) == lengths(ty.child_orders(), n),
    decreases n,
{
    if n > 0 {
        visited_before_is_lengths(ty, n - 1);
        assert(ty.child_orders()[n - 1] == ty.children()[n - 1].post_order());
    }
}

proof fn flatten_grows(orders: Seq<Seq<Type>>, n: int)
    requires
        0 < n <= orders.len(),
    ensures
        orders.take(n).flatten() == orders.take(n - 1).flatten() + orders[n - 1],
{
    assert(orders.take(n) =~= orders.take(n - 1).push(orders[n - 1]));
    orders.take(n - 1).lemma_flatten_push(orders[n - 1]);
}

proof fn flatten_has_length(orders: Seq<Seq<Type>>, n: int)
    requires
        0 <= n <= orders.len(),
    ensures
        orders.take(n).flatten().len() == lengths(orders, n),
    decreases n,
{
    if n > 0 {
        flatten_has_length(orders, n - 1);
        flatten_grows(orders, n);
    }
}

proof fn flatten_has_part(orders: Seq<Seq<Type>>, n: int, i: int)
    requires
        0 <= i < n <= orders.len(),
    ensures
        lengths(orders, i + 1) <= orders.take(n).flatten().len(),
        orders.take(n).flatten().subrange(
            lengths(orders, i) as int,
            lengths(orders, i + 1) as int,
        ) == orders[i],
    decreases n,
{
    let (a, b) = (lengths(orders, i) as int, lengths(orders, i + 1) as int);
    let (before, all) = (orders.take(n - 1).flatten(), orders.take(n).flatten());
    flatten_grows(orders, n);
    flatten_has_length(orders, n - 1);
    if i < n - 1 {
        flatten_has_part(orders, n - 1, i);
        assert(all.subrange(a, b) =~= before.subrange(a, b));
    } else {
        assert(all.subrange(a, b) =~= orders[i]);
    }
}

/// A visitor that is shown nothing stays as it is. One that is shown types is shown the last of them
/// once, after all the others.
pub proof fn visits_one_by_one<'a, V: TypeVisitor<'a>>(pre: V, tys: Seq<Type>, ty: Type, post: V)
    ensures
        visits_all(pre, Seq::<Type>::empty(), post) <==> pre == post,
        visits_all(pre, tys.push(ty), post) <==> exists|mid: V| #[trigger]
            visits_all(pre, tys, mid) && V::visits(mid, ty, post),
{
    let none = Seq::<Type>::empty();
    if visits_all(pre, none, post) {
        let states = choose|states: Seq<V>|
            #[trigger] is_visit(states, none) && states.first() == pre && states.last() == post;
        assert(states[0] == pre);
    }
    if pre == post {
        assert(is_visit(seq![pre], none));
    }
    let more = tys.push(ty);
    if visits_all(pre, more, post) {
        let states = choose|states: Seq<V>|
            #[trigger] is_visit(states, more) && states.first() == pre && states.last() == post;
        let shorter = states.drop_last();
        assert forall|i: int| 0 <= i < tys.len() implies V::visits(
            shorter[i],
            #[trigger] tys[i],
            shorter[i + 1],
        ) by {
            assert(more[i] == tys[i]);
        }
        assert(is_visit(shorter, tys));
        assert(more[tys.len() as int] == ty);
        assert(visits_all(pre, tys, shorter.last()) && V::visits(shorter.last(), ty, post));
    }
    if exists|mid: V| #[trigger] visits_all(pre, tys, mid) && V::visits(mid, ty, post) {
        let mid = choose|mid: V| #[trigger]
            visits_all(pre, tys, mid) && V::visits(mid, ty, post);
        let states = choose|states: Seq<V>|
            #[trigger] is_visit(states, tys) && states.first() == pre && states.last() == mid;
        let longer = states.push(post);
        assert forall|i: int| 0 <= i < more.len() implies V::visits(
            longer[i],
            #[trigger] more[i],
            longer[i + 1],
        ) by {
            if i < tys.len() {
                assert(more[i] == tys[i]);
            }
        }
        assert(is_visit(longer, more));
    }
}

/// A mutator that is given nothing stays as it is. One that is given types is given the last of them
/// once, after all the others, and what it leaves stands in the place of what it was given.
pub proof fn rewrites_one_by_one<M: TypeMutator>(
    pre: M,
    before: Seq<Type>,
    after: Seq<Type>,
    b: Type,
    a: Type,
    post: M,
)
    requires
        before.len() == after.len(),
    ensures
        rewrites_all(pre, Seq::<Type>::empty(), Seq::<Type>::empty(), post) <==> pre == post,
        rewrites_all(pre, before.push(b), after.push(a), post) <==> exists|mid: M| #[trigger]
            rewrites_all(pre, before, after, mid) && M::rewrites(mid, b, a, post),
        forall|more: Seq<Type>| #[trigger]
            rewrites_all(pre, before, more, post) ==> more.len() == before.len(),
{
    let none = Seq::<Type>::empty();
    if rewrites_all(pre, none, none, post) {
        let states = choose|states: Seq<M>|
            #[trigger] is_rewrite(states, none, none) && states.first() == pre && states.last()
                == post;
        assert(states[0] == pre);
    }
    if pre == post {
        assert(is_rewrite(seq![pre], none, none));
    }
    let (x, y) = (before.push(b), after.push(a));
    if rewrites_all(pre, x, y, post) {
        let states = choose|states: Seq<M>|
            #[trigger] is_rewrite(states, x, y) && states.first() == pre && states.last() == post;
        let shorter = states.drop_last();
        assert forall|i: int| 0 <= i < before.len() implies M::rewrites(
            shorter[i],
            #[trigger] before[i],
            after[i],
            shorter[i + 1],
        ) by {
            assert(x[i] == before[i]);
        }
        assert(is_rewrite(shorter, before, after));
        assert(x[before.len() as int] == b && y[before.len() as int] == a);
        assert(rewrites_all(pre, before, after, shorter.last()) && M::rewrites(
            shorter.last(),
            b,
            a,
            post,
        ));
    }
    if exists|mid: M| #[trigger]
        rewrites_all(pre, before, after, mid) && M::rewrites(mid, b, a, post) {
        let mid = choose|mid: M| #[trigger]
            rewrites_all(pre, before, after, mid) && M::rewrites(mid, b, a, post);
        let states = choose|states: Seq<M>|
            #[trigger] is_rewrite(states, before, after) && states.first() == pre && states.last()
                == mid;
        let longer = states.push(post);
        assert forall|i: int| 0 <= i < x.len() implies M::rewrites(
            longer[i],
            #[trigger] x[i],
            y[i],
            longer[i + 1],
        ) by {
            if i < before.len() {
                assert(x[i] == before[i]);
            }
        }
        assert(is_rewrite(longer, x, y));
    }
}

/// A closure that can be called on every type can be run over types. It looks at a type when it is
/// called on it.
pub proof fn closures_visit_by_being_called<'a, F: FnMut(&'a Type)>(pre: F, ty: Type, post: F)
    ensures
        (forall|x: &'a Type| call_requires(pre, (x,))) ==> TypeVisitor::ready(pre),
        <F as TypeVisitor<'a>>::visits(pre, ty, post) <==> call_ensures(pre, (&ty,), ()) && post
            == pre,
{
}

/// A closure that can be called on every type can be run over types. What it returns when it is
/// called on a type stands in the place of that type.
pub proof fn closures_rewrite_by_being_called<F: FnMut(Type) -> Type>(
    pre: F,
    before: Type,
    after: Type,
    post: F,
)
    ensures
        (forall|x: Type| call_requires(pre, (x,))) ==> TypeMutator::ready(pre),
        <F as TypeMutator>::rewrites(pre, before, after, post) <==> call_ensures(
            pre,
            (before,),
            after,
        ) && post == pre,
{
}

/// [`Refs`] can be shown types, and keeps each where it belongs: after those that it had.
pub proof fn refs_keep_what_they_are_shown<'a>(pre: Refs<'a>, ty: Type, post: Refs<'a>)
    ensures
        pre.ready(),
        Refs::visits(pre, ty, post) ==> post.seen@.len() == pre.seen@.len() + 1
            && post.seen@.drop_last() == pre.seen@ && *post.seen@.last() == ty,
{
    assert(pre.seen@.push(&ty).drop_last() =~= pre.seen@);
}

} // verus!
