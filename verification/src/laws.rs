//! What holds of types and of the ways to rewrite them.
use crate::rewriting::{
    anonymous_step, explicit_step, promote_step, self_type_step, subst_step,
};
use crate::special_form::SpecialForm;
use crate::stdlib::Stdlib;
use crate::tree::{tree_unfolds, trees, Node, TypeTree};
use crate::types::{
    first_occurrences, first_occurrences_are_all, fresh_types, fresh_var, parts_identify,
    quantified_is_its_parts, quantifieds_of, unique_identifies, var_is_its_number, AnyStyle,
    Quantified, QuantifiedKind, Type, Var,
};
use crate::uniques::{number_identifies, unique_is_its_number, Unique};
use crate::visitor::{is_rewrite, is_transform, rewrites_all, transforms, TypeMutator};
use vstd::prelude::*;

verus! {

/// The tree of a type that is one type parameter.
pub open spec fn quantified_tree(q: Quantified) -> TypeTree {
    TypeTree { node: Node::Quantified(q), children: seq![] }
}

/// Rewriting leaves a tree as it is if it leaves every tree in it as it is.
pub proof fn rewriting_fixed_points(tree: TypeTree, g: spec_fn(TypeTree) -> TypeTree)
    requires
        forall|x: TypeTree| #[trigger] tree.has(x) ==> g(x) == x,
    ensures
        tree.bottom_up(g) == tree,
    decreases tree,
{
    assert forall|i: int| 0 <= i < tree.children.len() implies (
    #[trigger] tree.children[i]).bottom_up(g) == tree.children[i] by {
        assert forall|x: TypeTree| #[trigger] tree.children[i].has(x) implies g(x) == x by {
            assert(tree.has(x));
        }
        rewriting_fixed_points(tree.children[i], g);
    }
    assert(tree.children_bottom_up(g) =~= tree.children);
    assert(tree.has(tree));
}

/// If each step of rewriting makes a tree all of whose parts are as `p` says into a tree that is so
/// throughout, then rewriting makes any tree into one that is so throughout.
pub proof fn rewriting_makes_all(
    tree: TypeTree,
    g: spec_fn(TypeTree) -> TypeTree,
    p: spec_fn(Node) -> bool,
)
    requires
        forall|x: TypeTree|
            (forall|i: int| 0 <= i < x.children.len() ==> (#[trigger] x.children[i]).all(p)) ==> (
            #[trigger] g(x)).all(p),
    ensures
        tree.bottom_up(g).all(p),
    decreases tree,
{
    let x = TypeTree { node: tree.node, children: tree.children_bottom_up(g) };
    assert forall|i: int| 0 <= i < x.children.len() implies (#[trigger] x.children[i]).all(p) by {
        rewriting_makes_all(tree.children[i], g, p);
    }
    assert(g(x).all(p));
}

/// Every tree in a tree that is as `p` says throughout is so at its root.
pub proof fn all_holds_of_parts(tree: TypeTree, p: spec_fn(Node) -> bool, x: TypeTree)
    requires
        tree.all(p),
        tree.has(x),
    ensures
        p(x.node),
    decreases tree,
{
    if tree != x {
        let i = choose|i: int|
            0 <= i < tree.children.len() && (#[trigger] tree.children[i]).has(x);
        all_holds_of_parts(tree.children[i], p, x);
    }
}

/// If rewriting leaves every tree as it is whose root is as `p` says, then it leaves a tree as it is
/// that is so throughout.
pub proof fn rewriting_keeps_all(
    tree: TypeTree,
    g: spec_fn(TypeTree) -> TypeTree,
    p: spec_fn(Node) -> bool,
)
    requires
        forall|x: TypeTree| p(x.node) ==> #[trigger] g(x) == x,
    ensures
        tree.all(p) ==> tree.bottom_up(g) == tree,
{
    if tree.all(p) {
        assert forall|x: TypeTree| #[trigger] tree.has(x) implies g(x) == x by {
            all_holds_of_parts(tree, p, x);
        }
        rewriting_fixed_points(tree, g);
    }
}

/// A type has itself in it, and what is in a type that is in it.
pub proof fn has_is_reflexive_and_transitive(a: TypeTree, b: TypeTree, c: TypeTree)
    ensures
        a.has(a),
        a.has(b) && b.has(c) ==> a.has(c),
    decreases a,
{
    if a.has(b) && b.has(c) && a != b {
        let i = choose|i: int| 0 <= i < a.children.len() && (#[trigger] a.children[i]).has(b);
        has_is_reflexive_and_transitive(a.children[i], b, c);
    }
}

/// What is in what a type says is what some type says.
pub proof fn parts_are_types(ty: Type, x: TypeTree) -> (part: Type)
    requires
        ty@.has(x),
    ensures
        part@ == x,
    decreases ty,
{
    tree_unfolds(ty);
    if ty@ == x {
        ty
    } else {
        let i = choose|i: int| 0 <= i < ty@.children.len() && (#[trigger] ty@.children[i]).has(x);
        ty.child_is_smaller(i);
        parts_are_types(ty.children()[i], x)
    }
}

/// Where the root of a type's part is a type parameter, that is the whole part.
proof fn quantified_is_leaf(ty: Type, x: TypeTree, q: Quantified)
    requires
        ty@.has(x),
        x.node == Node::Quantified(q),
    ensures
        x == quantified_tree(q),
{
    let part = parts_are_types(ty, x);
    tree_unfolds(part);
    assert(trees(part.children()) =~= seq![]);
}

/// Substitution leaves a type as it is if none of the type parameters that the map has types for is
/// in it. In particular, an empty map changes nothing.
pub proof fn subst_of_absent_parameters(ty: Type, mp: Map<Quantified, Type>)
    requires
        forall|q: Quantified| #[trigger] mp.contains_key(q) ==> !ty@.has(quantified_tree(q)),
    ensures
        ty@.bottom_up(subst_step(mp)) == ty@,
{
    assert forall|x: TypeTree| #[trigger] ty@.has(x) implies subst_step(mp)(x) == x by {
        if let Node::Quantified(q) = x.node {
            quantified_is_leaf(ty, x, q);
        }
    }
    rewriting_fixed_points(ty@, subst_step(mp));
}

/// Whether substitution puts a type in the place of one of a type's parameters that has the type
/// parameter `q` in it.
pub open spec fn brings_in(ty: TypeTree, mp: Map<Quantified, Type>, q: Quantified) -> bool {
    exists|k: Quantified| #[trigger]
        mp.contains_key(k) && ty.has(quantified_tree(k)) && mp[k]@.has(quantified_tree(q))
}

/// The type parameters in a type after substitution are those that the map has no types for, and
/// those in the types that have been put in.
pub proof fn subst_leaves_parameters(ty: Type, mp: Map<Quantified, Type>, q: Quantified)
    ensures
        ty@.bottom_up(subst_step(mp)).has(quantified_tree(q)) <==> (ty@.has(quantified_tree(q))
            && !mp.contains_key(q)) || brings_in(ty@, mp, q),
    decreases ty,
{
    let g = subst_step(mp);
    tree_unfolds(ty);
    if let Type::Quantified(p) = ty {
        assert(trees(ty.children()) =~= seq![]);
        assert(ty@ == quantified_tree(p));
        assert(ty@.children_bottom_up(g) =~= seq![]);
        assert(ty@.has(quantified_tree(p)));
        assert(forall|k: Quantified| #[trigger] ty@.has(quantified_tree(k)) ==> k == p);
        if mp.contains_key(p) {
            assert(brings_in(ty@, mp, q) <==> mp[p]@.has(quantified_tree(q)));
        }
    } else {
        let after = ty@.bottom_up(g);
        assert(after.node == ty@.node);
        assert forall|i: int| 0 <= i < ty.children().len() implies (
        #[trigger] after.children[i]).has(quantified_tree(q)) == ((ty@.children[i].has(
            quantified_tree(q),
        ) && !mp.contains_key(q)) || brings_in(ty@.children[i], mp, q)) by {
            ty.child_is_smaller(i);
            subst_leaves_parameters(ty.children()[i], mp, q);
        }
        if brings_in(ty@, mp, q) {
            let k = choose|k: Quantified| #[trigger]
                mp.contains_key(k) && ty@.has(quantified_tree(k)) && mp[k]@.has(quantified_tree(q));
            let i = choose|i: int|
                0 <= i < ty@.children.len() && (#[trigger] ty@.children[i]).has(quantified_tree(k));
            assert(brings_in(ty@.children[i], mp, q));
            assert(after.children[i].has(quantified_tree(q)));
        }
        if ty@.has(quantified_tree(q)) {
            let i = choose|i: int|
                0 <= i < ty@.children.len() && (#[trigger] ty@.children[i]).has(quantified_tree(q));
            assert(!mp.contains_key(q) ==> after.children[i].has(quantified_tree(q)));
        }
        if after.has(quantified_tree(q)) {
            let i = choose|i: int|
                0 <= i < after.children.len() && (#[trigger] after.children[i]).has(
                    quantified_tree(q),
                );
            assert(ty@.children[i].has(quantified_tree(q)) ==> ty@.has(quantified_tree(q)));
            if brings_in(ty@.children[i], mp, q) {
                let k = choose|k: Quantified| #[trigger]
                    mp.contains_key(k) && ty@.children[i].has(quantified_tree(k)) && mp[k]@.has(
                        quantified_tree(q),
                    );
                assert(ty@.has(quantified_tree(k)));
            }
        }
    }
}

/// After substitution, a type parameter that the map has a type for is in the type no more, unless
/// a type of the map brings it in.
pub proof fn subst_removes_parameter(ty: Type, mp: Map<Quantified, Type>, q: Quantified)
    requires
        mp.contains_key(q),
        forall|k: Quantified| #[trigger]
            mp.contains_key(k) && ty@.has(quantified_tree(k)) ==> !mp[k]@.has(quantified_tree(q)),
    ensures
        !ty@.bottom_up(subst_step(mp)).has(quantified_tree(q)),
{
    subst_leaves_parameters(ty, mp, q);
}

/// Two substitutions, one after the other, are one: the second map is applied to the types of the
/// first.
pub proof fn subst_composes(
    ty: TypeTree,
    first: Map<Quantified, Type>,
    second: Map<Quantified, Type>,
    both: Map<Quantified, Type>,
)
    requires
        both.dom() == first.dom().union(second.dom()),
        forall|q: Quantified| #[trigger]
            first.contains_key(q) ==> both[q]@ == first[q]@.bottom_up(subst_step(second)),
        forall|q: Quantified|
            second.contains_key(q) && !first.contains_key(q) ==> (#[trigger] both[q])@
                == second[q]@,
    ensures
        ty.bottom_up(subst_step(first)).bottom_up(subst_step(second)) == ty.bottom_up(
            subst_step(both),
        ),
    decreases ty,
{
    let (f, g, h) = (subst_step(first), subst_step(second), subst_step(both));
    assert forall|i: int| 0 <= i < ty.children.len() implies (
    #[trigger] ty.children[i]).bottom_up(f).bottom_up(g) == ty.children[i].bottom_up(h) by {
        subst_composes(ty.children[i], first, second, both);
    }
    let x = TypeTree { node: ty.node, children: ty.children_bottom_up(f) };
    assert(x.children_bottom_up(g) =~= ty.children_bottom_up(h));
    if let Node::Quantified(q) = ty.node {
        assert(both.contains_key(q) <==> first.contains_key(q) || second.contains_key(q));
    }
}

/// Whether a root is no literal.
pub open spec fn no_literal() -> spec_fn(Node) -> bool {
    |node: Node| !(node is Literal) && !(node is LiteralString)
}

/// After promotion there is no literal in the type. A type without literals stays as it is, so
/// promoting again changes nothing.
pub proof fn promotion_leaves_no_literals(ty: TypeTree, stdlib: &Stdlib)
    ensures
        ty.bottom_up(promote_step(stdlib)).all(no_literal()),
        ty.all(no_literal()) ==> ty.bottom_up(promote_step(stdlib)) == ty,
        ty.bottom_up(promote_step(stdlib)).bottom_up(promote_step(stdlib)) == ty.bottom_up(
            promote_step(stdlib),
        ),
{
    let g = promote_step(stdlib);
    rewriting_makes_all(ty, g, no_literal());
    rewriting_keeps_all(ty, g, no_literal());
    rewriting_keeps_all(ty.bottom_up(g), g, no_literal());
}

/// Whether a root is no `Any` but one that the user wrote.
pub open spec fn explicit_only() -> spec_fn(Node) -> bool {
    |node: Node| node matches Node::Any(style) ==> style == AnyStyle::Explicit
}

/// After [`Type::explicit_any`] every `Any` in the type is one that the user wrote. A type in which
/// that is so already stays as it is, so doing it again changes nothing.
pub proof fn explicit_any_leaves_explicit_only(ty: TypeTree)
    ensures
        ty.bottom_up(explicit_step()).all(explicit_only()),
        ty.all(explicit_only()) ==> ty.bottom_up(explicit_step()) == ty,
        ty.bottom_up(explicit_step()).bottom_up(explicit_step()) == ty.bottom_up(explicit_step()),
{
    let g = explicit_step();
    rewriting_makes_all(ty, g, explicit_only());
    rewriting_keeps_all(ty, g, explicit_only());
    rewriting_keeps_all(ty.bottom_up(g), g, explicit_only());
}

/// Whether a root is not `Self`.
pub open spec fn no_self() -> spec_fn(Node) -> bool {
    |node: Node| node != Node::SpecialForm(SpecialForm::SelfType)
}

/// There is no `Self` in a type after a type without `Self` has been put in its place. A type
/// without `Self` stays as it is, and one with `Self` in it has the other type in it afterwards.
pub proof fn self_type_is_replaced(ty: TypeTree, self_type: TypeTree)
    ensures
        self_type.all(no_self()) ==> ty.bottom_up(self_type_step(self_type)).all(no_self()),
        ty.all(no_self()) ==> ty.bottom_up(self_type_step(self_type)) == ty,
        !ty.all(no_self()) ==> ty.bottom_up(self_type_step(self_type)).has(self_type),
{
    let g = self_type_step(self_type);
    if self_type.all(no_self()) {
        rewriting_makes_all(ty, g, no_self());
    }
    rewriting_keeps_all(ty, g, no_self());
    if !ty.all(no_self()) {
        self_type_is_put_in(ty, self_type);
    }
}

proof fn self_type_is_put_in(ty: TypeTree, self_type: TypeTree)
    requires
        !ty.all(no_self()),
    ensures
        ty.bottom_up(self_type_step(self_type)).has(self_type),
    decreases ty,
{
    let g = self_type_step(self_type);
    if no_self()(ty.node) {
        let i = choose|i: int|
            0 <= i < ty.children.len() && !(#[trigger] ty.children[i]).all(no_self());
        self_type_is_put_in(ty.children[i], self_type);
        assert(ty.bottom_up(g).children[i].has(self_type));
    }
}

/// Whether none of the type parameters has an identity.
pub open spec fn have_no_identity(qs: Seq<Quantified>) -> bool {
    forall|i: int| 0 <= i < qs.len() ==> (#[trigger] qs[i]).unique() == Unique::numbered(0)
}

/// Whether a root shows no identity.
pub open spec fn shows_no_identity(node: Node) -> bool {
    match node {
        Node::Forall(qs) => have_no_identity(qs),
        Node::Quantified(q) => q.unique() == Unique::numbered(0),
        Node::Var(v) => v.unique() == Unique::numbered(0),
        Node::Args(id) => id == Unique::numbered(0),
        Node::Kwargs(id) => id == Unique::numbered(0),
        _ => true,
    }
}

/// [`shows_no_identity`], for [`TypeTree::all`].
pub open spec fn no_identity() -> spec_fn(Node) -> bool {
    |node: Node| shows_no_identity(node)
}

/// After [`Type::deterministic_printing`] no identity shows in the type. A type that shows none stays
/// as it is, so doing it again changes nothing.
pub proof fn deterministic_printing_hides_identities(ty: TypeTree)
    ensures
        ty.bottom_up(anonymous_step()).all(no_identity()),
        ty.all(no_identity()) ==> ty.bottom_up(anonymous_step()) == ty,
        ty.bottom_up(anonymous_step()).bottom_up(anonymous_step()) == ty.bottom_up(
            anonymous_step(),
        ),
{
    broadcast use {quantified_is_its_parts, var_is_its_number};

    let g = anonymous_step();
    assert forall|x: TypeTree| no_identity()(x.node) implies #[trigger] g(x) == x by {
        match x.node {
            Node::Forall(qs) => {
                assert forall|i: int| 0 <= i < qs.len() implies (#[trigger] qs[i]).zeroed()
                    == qs[i] by {
                    parts_identify(qs[i].zeroed(), qs[i]);
                }
                assert(qs.map_values(|q: Quantified| q.zeroed()) =~= qs);
            },
            Node::Quantified(q) => {
                parts_identify(q.zeroed(), q);
            },
            Node::Var(v) => {
                unique_identifies(v, Var::numbered(0));
            },
            _ => {},
        }
    }
    rewriting_makes_all(ty, g, no_identity());
    rewriting_keeps_all(ty, g, no_identity());
    rewriting_keeps_all(ty.bottom_up(g), g, no_identity());
}

/// Whether two lists of type parameters have the same kinds in the same order.
pub open spec fn have_same_kinds(p: Seq<Quantified>, q: Seq<Quantified>) -> bool {
    p.len() == q.len() && forall|i: int|
        0 <= i < p.len() ==> (#[trigger] p[i]).kind() == q[i].kind()
}

/// Whether two roots differ in identities at most.
pub open spec fn same_node_but_for_identities(a: Node, b: Node) -> bool {
    match (a, b) {
        (Node::Forall(p), Node::Forall(q)) => have_same_kinds(p, q),
        (Node::Quantified(p), Node::Quantified(q)) => p.kind() == q.kind(),
        (Node::Var(_), Node::Var(_)) => true,
        (Node::Args(_), Node::Args(_)) => true,
        (Node::Kwargs(_), Node::Kwargs(_)) => true,
        _ => a == b,
    }
}

/// Whether two trees differ in identities at most. Each identity may differ on its own: one that
/// stands in two places of one tree may face two different ones in the other.
pub open spec fn same_but_for_identities(a: TypeTree, b: TypeTree) -> bool
    decreases a,
{
    &&& same_node_but_for_identities(a.node, b.node)
    &&& a.children.len() == b.children.len()
    &&& forall|i: int|
        0 <= i < a.children.len() ==> same_but_for_identities(
            #[trigger] a.children[i],
            b.children[i],
        )
}

/// What [`Type::deterministic_printing`] makes of a type does not depend on which identities have
/// been handed out: it makes the same of two types just when they differ in identities at most.
pub proof fn deterministic_printing_is_deterministic(a: TypeTree, b: TypeTree)
    ensures
        a.bottom_up(anonymous_step()) == b.bottom_up(anonymous_step()) <==> same_but_for_identities(
            a,
            b,
        ),
    decreases a,
{
    broadcast use quantified_is_its_parts;

    let g = anonymous_step();
    let (x, y) = (a.bottom_up(g), b.bottom_up(g));
    assert(x.node == y.node <==> same_node_but_for_identities(a.node, b.node)) by {
        match (a.node, b.node) {
            (Node::Forall(p), Node::Forall(q)) => {
                let p0 = p.map_values(|q: Quantified| q.zeroed());
                let q0 = q.map_values(|q: Quantified| q.zeroed());
                if p0 == q0 {
                    assert(p0.len() == q0.len());
                    assert forall|i: int| 0 <= i < p.len() implies (#[trigger] p[i]).kind()
                        == q[i].kind() by {
                        assert(p0[i] == q0[i]);
                    }
                }
                if same_node_but_for_identities(a.node, b.node) {
                    assert(p0 =~= q0);
                }
            },
            _ => {},
        }
    }
    assert(x.children == a.children_bottom_up(g) && y.children == b.children_bottom_up(g));
    if a.children.len() == b.children.len() {
        assert forall|i: int| 0 <= i < a.children.len() implies (x.children[i] == y.children[i])
            == same_but_for_identities(#[trigger] a.children[i], b.children[i]) by {
            deterministic_printing_is_deterministic(a.children[i], b.children[i]);
        }
        if same_but_for_identities(a, b) {
            assert(x.children =~= y.children);
        }
    }
}

/// The style of an `Any` that was made out of another is never that of one that the user wrote, and
/// making one out of it keeps it.
pub proof fn propagation_is_stable(style: AnyStyle)
    ensures
        style.propagated() != AnyStyle::Explicit,
        style.propagated().propagated() == style.propagated(),
{
}

/// A union is surely true or surely false just when there are types in it and each of them is.
pub proof fn union_truth(ty: TypeTree, b: bool)
    requires
        ty.node == Node::Union,
    ensures
        ty.truth() == Some(b) <==> ty.children.len() > 0 && forall|i: int|
            0 <= i < ty.children.len() ==> (#[trigger] ty.children[i]).truth() == Some(b),
{
}

/// What is in a list of lists, one after the other, is what is in one of the lists.
proof fn flatten_contains(orders: Seq<Seq<Type>>, ty: Type)
    ensures
        orders.flatten().contains(ty) <==> exists|i: int|
            0 <= i < orders.len() && (#[trigger] orders[i]).contains(ty),
    decreases orders.len(),
{
    if orders.len() > 0 {
        let (first, rest) = (orders.first(), orders.drop_first());
        flatten_contains(rest, ty);
        let all = first + rest.flatten();
        assert(orders.flatten() == all);
        if first.contains(ty) {
            let j = choose|j: int| 0 <= j < first.len() && first[j] == ty;
            assert(all[j] == ty);
            assert(orders[0].contains(ty));
        }
        if rest.flatten().contains(ty) {
            let j = choose|j: int| 0 <= j < rest.flatten().len() && rest.flatten()[j] == ty;
            assert(all[first.len() + j] == ty);
            let i = choose|i: int| 0 <= i < rest.len() && (#[trigger] rest[i]).contains(ty);
            assert(orders[i + 1].contains(ty));
        }
        if all.contains(ty) && !first.contains(ty) {
            let j = choose|j: int| 0 <= j < all.len() && all[j] == ty;
            assert(j >= first.len() ==> rest.flatten()[j - first.len()] == ty);
            assert(j < first.len() ==> first[j] == ty);
            assert(rest.flatten().contains(ty));
        }
        assert forall|i: int| 0 <= i < orders.len() && (#[trigger] orders[i]).contains(ty) implies
            orders.flatten().contains(ty) by {
            if i > 0 {
                assert(rest[i - 1].contains(ty));
            }
        }
    }
}

/// Whether each type of a list stands after all types directly inside it.
pub open spec fn children_first(tys: Seq<Type>) -> bool {
    forall|i: int, j: int|
        0 <= i < tys.len() && 0 <= j < tys[i].children().len() ==> tys.take(i).contains(
            #[trigger] tys[i].children()[j],
        )
}

proof fn children_first_joins(a: Seq<Type>, b: Seq<Type>)
    requires
        children_first(a),
        children_first(b),
    ensures
        children_first(a + b),
{
    let all = a + b;
    assert forall|i: int, j: int|
        0 <= i < all.len() && 0 <= j < all[i].children().len() implies all.take(i).contains(
        #[trigger] all[i].children()[j],
    ) by {
        let child = all[i].children()[j];
        if i < a.len() {
            assert(a[i].children()[j] == child);
            let k = choose|k: int| 0 <= k < a.take(i).len() && a.take(i)[k] == child;
            assert(all.take(i)[k] == child);
        } else {
            let m = i - a.len();
            assert(b[m].children()[j] == child);
            let k = choose|k: int| 0 <= k < b.take(m).len() && b.take(m)[k] == child;
            assert(all.take(i)[a.len() + k] == child);
        }
    }
}

proof fn children_first_flattens(orders: Seq<Seq<Type>>)
    requires
        forall|i: int| 0 <= i < orders.len() ==> children_first(#[trigger] orders[i]),
    ensures
        children_first(orders.flatten()),
    decreases orders.len(),
{
    if orders.len() > 0 {
        let rest = orders.drop_first();
        assert forall|i: int| 0 <= i < rest.len() implies children_first(#[trigger] rest[i]) by {
            assert(rest[i] == orders[i + 1]);
        }
        children_first_flattens(rest);
        assert(children_first(orders[0]));
        children_first_joins(orders[0], rest.flatten());
    }
}

/// [`Type::universe`] comes to the types inside a type before it comes to the type.
pub proof fn universe_sees_included_types_first(ty: Type)
    ensures
        children_first(ty.post_order()),
    decreases ty,
{
    let orders = ty.child_orders();
    assert forall|i: int| 0 <= i < orders.len() implies children_first(#[trigger] orders[i]) by {
        ty.child_is_smaller(i);
        universe_sees_included_types_first(ty.children()[i]);
    }
    children_first_flattens(orders);
    let (inner, all) = (orders.flatten(), ty.post_order());
    assert forall|i: int, j: int|
        0 <= i < all.len() && 0 <= j < all[i].children().len() implies all.take(i).contains(
        #[trigger] all[i].children()[j],
    ) by {
        let child = all[i].children()[j];
        if i < inner.len() {
            assert(inner[i].children()[j] == child);
            assert(all.take(i) =~= inner.take(i));
        } else {
            assert(all.take(i) =~= inner);
            let order = child.post_order();
            assert(orders[j] == order);
            assert(order[order.len() - 1] == child);
            flatten_contains(orders, child);
        }
    }
}

/// Whether a type of the list says what the tree says.
pub open spec fn says(tys: Seq<Type>, x: TypeTree) -> bool {
    exists|part: Type| #[trigger] tys.contains(part) && part@ == x
}

/// [`Type::universe`] comes to all types in a type, and to no others.
pub proof fn universe_sees_every_type(ty: Type, x: TypeTree)
    ensures
        ty@.has(x) <==> says(ty.post_order(), x),
    decreases ty,
{
    tree_unfolds(ty);
    let (orders, all) = (ty.child_orders(), ty.post_order());
    let inner = orders.flatten();
    assert forall|part: Type| #[trigger] all.contains(part) <==> inner.contains(part)
        || part == ty by {
        if inner.contains(part) {
            let k = choose|k: int| 0 <= k < inner.len() && inner[k] == part;
            assert(all[k] == part);
        }
        assert(all[inner.len() as int] == ty);
    }
    assert forall|i: int| 0 <= i < ty.children().len() implies (#[trigger] ty@.children[i]).has(x)
        == says(orders[i], x) by {
        ty.child_is_smaller(i);
        universe_sees_every_type(ty.children()[i], x);
        assert(ty@.children[i] == ty.children()[i]@);
        assert(orders[i] == ty.children()[i].post_order());
    }
    if ty@.has(x) {
        if ty@ == x {
            assert(all.contains(ty));
        } else {
            let i = choose|i: int|
                0 <= i < ty@.children.len() && (#[trigger] ty@.children[i]).has(x);
            let part = choose|part: Type| #[trigger] orders[i].contains(part) && part@ == x;
            flatten_contains(orders, part);
            assert(all.contains(part));
        }
    }
    if says(all, x) {
        let part = choose|part: Type| #[trigger] all.contains(part) && part@ == x;
        if part != ty {
            flatten_contains(orders, part);
            let i = choose|i: int| 0 <= i < orders.len() && (#[trigger] orders[i]).contains(part);
            assert(says(orders[i], x));
            assert(ty@.children[i].has(x));
        }
    }
}

/// The type parameters that [`Type::collect_quantifieds`] finds are those in the type.
pub proof fn collects_every_quantified(ty: Type, q: Quantified)
    ensures
        quantifieds_of(ty.post_order()).contains(q) <==> ty@.has(quantified_tree(q)),
{
    let tree = quantified_tree(q);
    universe_sees_every_type(ty, tree);
    quantifieds_of_contains(ty.post_order(), q);
    let leaf = Type::Quantified(q);
    tree_unfolds(leaf);
    assert(trees(leaf.children()) =~= seq![]);
    if ty@.has(tree) {
        let part = choose|part: Type| #[trigger] ty.post_order().contains(part) && part@ == tree;
        tree_unfolds(part);
        assert(part == leaf);
    }
}

proof fn quantifieds_of_contains(tys: Seq<Type>, q: Quantified)
    ensures
        quantifieds_of(tys).contains(q) <==> tys.contains(Type::Quantified(q)),
    decreases tys.len(),
{
    if tys.len() > 0 {
        let rest = tys.drop_last();
        quantifieds_of_contains(rest, q);
        let (before, after) = (quantifieds_of(rest), quantifieds_of(tys));
        if rest.contains(Type::Quantified(q)) {
            let i = choose|i: int| 0 <= i < rest.len() && rest[i] == Type::Quantified(q);
            assert(tys[i] == Type::Quantified(q));
        }
        if before.contains(q) {
            let i = choose|i: int| 0 <= i < before.len() && before[i] == q;
            assert(after[i] == q);
        }
        if tys.last() == Type::Quantified(q) {
            assert(after[before.len() as int] == q);
            assert(tys[tys.len() - 1] == Type::Quantified(q));
        }
        if after.contains(q) {
            let i = choose|i: int| 0 <= i < after.len() && after[i] == q;
            if i < before.len() {
                assert(before[i] == q);
            }
        }
        if tys.contains(Type::Quantified(q)) {
            let i = choose|i: int| 0 <= i < tys.len() && tys[i] == Type::Quantified(q);
            if i < rest.len() {
                assert(rest[i] == Type::Quantified(q));
            }
        }
    }
}

/// Adding type parameters to a type twice is adding them once, those added last on the left. This
/// leaves out a type that has a place for type parameters, none in it, and a second such place
/// inside: if nothing is added the first time, the second time adds to the inner place.
pub proof fn for_all_joins(
    a: Seq<Quantified>,
    b: Seq<Quantified>,
    ty: Type,
    inner: Type,
    outer: Type,
    direct: Type,
)
    requires
        inner.is_for_all(b, ty),
        outer.is_for_all(a, inner),
        direct.is_for_all(a + b, ty),
        (b + ty.binders()).len() > 0 || !(ty.body() is Forall) || (a.len() == 0
            && ty.body().binders().len() > 0),
    ensures
        outer@ == direct@,
{
    broadcast use tree_unfolds;

    assert(a + (b + ty.binders()) =~= (a + b) + ty.binders());
    assert(outer.is_for_all(a, inner));
    if (a + b + ty.binders()).len() == 0 {
        assert(a =~= seq![] && b + ty.binders() =~= seq![]);
    } else if (b + ty.binders()).len() == 0 {
        assert(b =~= seq![] && ty.binders() =~= seq![]);
        assert(a + b =~= a);
    }
    assert(outer.node() == direct.node());
    assert(outer.children() =~= direct.children());
}

/// Adding the type parameters of a type to what they are parameters of gives the type back, if it
/// has any and what they are parameters of has no place for more.
pub proof fn for_all_undoes_as_forall(ty: Type, back: Type)
    requires
        back.is_for_all(ty.binders(), ty.body()),
        ty is Forall ==> ty.binders().len() > 0 && !(ty.body() is Forall),
    ensures
        back@ == ty@,
{
    broadcast use tree_unfolds;

    assert(ty.binders() + ty.body().binders() =~= ty.binders());
    assert(back.children() =~= ty.children());
}

/// Variables and type parameters made with different numbers are different. As no two calls on a
/// factory take the same number, no two of those that they make are the same.
pub proof fn numbers_tell_apart(a: u64, b: u64, kind: QuantifiedKind, other: QuantifiedKind)
    ensures
        Var::numbered(a) == Var::numbered(b) <==> a == b,
        Quantified::of(Unique::numbered(a), kind) == Quantified::of(Unique::numbered(b), other)
            <==> a == b && kind == other,
{
    broadcast use {quantified_is_its_parts, var_is_its_number, unique_is_its_number};

    parts_identify(
        Quantified::of(Unique::numbered(a), kind),
        Quantified::of(Unique::numbered(b), other),
    );
    unique_identifies(Var::numbered(a), Var::numbered(b));
    number_identifies(Unique::numbered(a), Unique::numbered(b));
}

/// The variable for a type parameter is the one with the number of one of its places.
proof fn fresh_var_has_place(gargs: Seq<Quantified>, first: u64, q: Quantified) -> (i: int)
    requires
        first + gargs.len() <= u64::MAX,
        gargs.contains(q),
    ensures
        0 <= i < gargs.len(),
        gargs[i] == q,
        fresh_var(gargs, first, q) == Var::numbered((first + i) as u64),
    decreases gargs.len(),
{
    if gargs.last() == q {
        gargs.len() - 1
    } else {
        let rest = gargs.drop_last();
        let i = choose|i: int| 0 <= i < gargs.len() && gargs[i] == q;
        assert(rest[i] == q);
        fresh_var_has_place(rest, first, q)
    }
}

/// [`Type::instantiate_fresh`] makes one variable for each type parameter. The variables are
/// different from each other and from all that have smaller numbers. None of the type parameters is
/// in the type any more.
pub proof fn instantiation_is_fresh(ty: Type, gargs: Seq<Quantified>, first: u64)
    requires
        first + gargs.len() <= u64::MAX,
    ensures
        ({
            let vars = first_occurrences(gargs).map_values(
                |q: Quantified| fresh_var(gargs, first, q),
            );
            let after = ty@.bottom_up(subst_step(fresh_types(gargs, first)));
            &&& vars.len() == gargs.to_set().len()
            &&& vars.no_duplicates()
            &&& forall|i: int|
                0 <= i < vars.len() ==> first <= (#[trigger] vars[i]).unique().number() < first
                    + gargs.len()
            &&& forall|q: Quantified| #[trigger]
                gargs.contains(q) ==> !after.has(quantified_tree(q))
        }),
{
    broadcast use {var_is_its_number, unique_is_its_number};

    let qs = first_occurrences(gargs);
    let vars = qs.map_values(|q: Quantified| fresh_var(gargs, first, q));
    let mp = fresh_types(gargs, first);
    first_occurrences_are_all(gargs);
    assert(qs.to_set() =~= gargs.to_set());
    qs.unique_seq_to_set();
    assert forall|i: int| 0 <= i < vars.len() implies first <= (
    #[trigger] vars[i]).unique().number() < first + gargs.len() by {
        assert(qs.contains(qs[i]));
        let place = fresh_var_has_place(gargs, first, qs[i]);
    }
    assert forall|i: int, j: int|
        0 <= i < vars.len() && 0 <= j < vars.len() && i != j implies vars[i] != vars[j] by {
        assert(qs.contains(qs[i]) && qs.contains(qs[j]));
        let a = fresh_var_has_place(gargs, first, qs[i]);
        let b = fresh_var_has_place(gargs, first, qs[j]);
        numbers_tell_apart(
            (first + a) as u64,
            (first + b) as u64,
            QuantifiedKind::TypeVar,
            QuantifiedKind::TypeVar,
        );
    }
    assert forall|q: Quantified| #[trigger] gargs.contains(q) implies !ty@.bottom_up(
        subst_step(mp),
    ).has(quantified_tree(q)) by {
        assert forall|k: Quantified| #[trigger] mp.contains_key(k) implies !mp[k]@.has(
            quantified_tree(q),
        ) by {
            tree_unfolds(mp[k]);
            assert(trees(mp[k].children()) =~= seq![]);
        }
        subst_removes_parameter(ty, mp, q);
    }
}

/// Whether a mutator may go from `pre` to `post` when it is given `given` from left to right and
/// leaves `left` in their places, where each type that it is given has the root of the one at the
/// same position of `order`, and as many types directly inside.
pub open spec fn runs_through<M: TypeMutator>(
    pre: M,
    order: Seq<Type>,
    given: Seq<Type>,
    left: Seq<Type>,
    post: M,
) -> bool {
    &&& rewrites_all(pre, given, left, post)
    &&& given.len() == order.len()
    &&& forall|i: int|
        0 <= i < order.len() ==> (#[trigger] given[i]).node() == order[i].node()
            && given[i].children().len() == order[i].children().len()
}

proof fn runs_join<M: TypeMutator>(
    pre: M,
    order: Seq<Type>,
    given: Seq<Type>,
    left: Seq<Type>,
    mid: M,
    order2: Seq<Type>,
    given2: Seq<Type>,
    left2: Seq<Type>,
    post: M,
)
    requires
        runs_through(pre, order, given, left, mid),
        runs_through(mid, order2, given2, left2, post),
    ensures
        runs_through(pre, order + order2, given + given2, left + left2, post),
{
    let a = choose|states: Seq<M>|
        #[trigger] is_rewrite(states, given, left) && states.first() == pre && states.last() == mid;
    let b = choose|states: Seq<M>|
        #[trigger] is_rewrite(states, given2, left2) && states.first() == mid && states.last()
            == post;
    let states = a + b.skip(1);
    let (all_given, all_left) = (given + given2, left + left2);
    assert forall|i: int| 0 <= i < all_given.len() implies M::rewrites(
        states[i],
        #[trigger] all_given[i],
        all_left[i],
        states[i + 1],
    ) by {
        if i < given.len() {
            assert(all_given[i] == given[i]);
        } else {
            assert(all_given[i] == given2[i - given.len()]);
            if i == given.len() {
                assert(states[i] == b[0]);
            }
            assert(states[i + 1] == b[i - given.len() + 1]);
        }
    }
    assert(is_rewrite(states, all_given, all_left));
    assert(states.last() == b.last());
    assert forall|i: int| 0 <= i < (order + order2).len() implies (
    #[trigger] all_given[i]).node() == (order + order2)[i].node() && all_given[i].children().len()
        == (order + order2)[i].children().len() by {
        if i < given.len() {
            assert(all_given[i] == given[i]);
        } else {
            assert(all_given[i] == given2[i - given.len()]);
        }
    }
}

/// [`Type::transform_mut`] gives the mutator as many types as [`Type::universe`] visits. They come
/// in the order of `universe`, each with the root of the type that `universe` comes to. The last
/// one leaves what the whole has become.
pub proof fn transform_follows_universe<M: TypeMutator>(
    pre: M,
    before: Type,
    after: Type,
    post: M,
)
    requires
        transforms(pre, before, after, post),
    ensures
        exists|given: Seq<Type>, left: Seq<Type>| #[trigger]
            runs_through(pre, before.post_order(), given, left, post) && left.last() == after,
    decreases before, before.children().len() + 1,
{
    let (states, mid) = choose|states: Seq<M>, mid: Type|
        {
            &&& #[trigger] is_transform(states, before, mid)
            &&& states.first() == pre
            &&& forall|i: int|
                0 <= i < before.children().len() ==> transforms(
                    states[i],
                    #[trigger] before.children()[i],
                    mid.children()[i],
                    states[i + 1],
                )
            &&& M::rewrites(states.last(), mid, after, post)
        };
    let n = before.children().len() as int;
    let orders = before.child_orders();
    let (given, left) = transform_follows_children(states, before, mid, n);
    assert(orders.take(n) =~= orders);
    assert(is_rewrite(seq![states.last(), post], seq![mid], seq![after]));
    assert(rewrites_all(states.last(), seq![mid], seq![after], post));
    runs_join(
        pre,
        orders.flatten(),
        given,
        left,
        states[n],
        seq![before],
        seq![mid],
        seq![after],
        post,
    );
    assert(orders.flatten() + seq![before] =~= before.post_order());
    assert((left + seq![after]).last() == after);
}

proof fn transform_follows_children<M: TypeMutator>(
    states: Seq<M>,
    before: Type,
    mid: Type,
    n: int,
) -> (run: (Seq<Type>, Seq<Type>))
    requires
        is_transform(states, before, mid),
        0 <= n <= before.children().len(),
        forall|i: int|
            0 <= i < before.children().len() ==> transforms(
                states[i],
                #[trigger] before.children()[i],
                mid.children()[i],
                states[i + 1],
            ),
    ensures
        runs_through(states[0], before.child_orders().take(n).flatten(), run.0, run.1, states[n]),
    decreases before, n,
{
    let orders = before.child_orders();
    if n == 0 {
        let none = Seq::<Type>::empty();
        assert(orders.take(0).flatten() =~= none);
        assert(is_rewrite(seq![states[0]], none, none));
        (none, none)
    } else {
        let (given, left) = transform_follows_children(states, before, mid, n - 1);
        let child = before.children()[n - 1];
        before.child_is_smaller(n - 1);
        transform_follows_universe(states[n - 1], child, mid.children()[n - 1], states[n]);
        let (given2, left2) = choose|given: Seq<Type>, left: Seq<Type>| #[trigger]
            runs_through(states[n - 1], child.post_order(), given, left, states[n]) && left.last()
                == mid.children()[n - 1];
        runs_join(
            states[0],
            orders.take(n - 1).flatten(),
            given,
            left,
            states[n - 1],
            child.post_order(),
            given2,
            left2,
            states[n],
        );
        assert(orders.take(n) =~= orders.take(n - 1).push(orders[n - 1]));
        orders.take(n - 1).lemma_flatten_push(orders[n - 1]);
        (given + given2, left + left2)
    }
}

} // verus!
