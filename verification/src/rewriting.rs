//! The ways in which types are rewritten from the leaves to the root.
use crate::small::{map_contents, map_get};
use crate::special_form::SpecialForm;
use crate::stdlib::{instance_tree, Stdlib};
use crate::tree::{tree_unfolds, trees, Node, TypeTree};
use crate::types::{AnyStyle, Quantified, Type, Var};
use crate::uniques::Unique;
use crate::visitor::{is_transform, transforms, TypeMutator};
use starlark_map::small_map::SmallMap;
use vstd::prelude::*;

verus! {

/// If giving a type to the mutator always applies `g` to what the type says and leaves the mutator
/// as it is, then running it over all types in a type applies `g` from the leaves to the root.
pub proof fn transforms_bottom_up<M: TypeMutator>(
    pre: M,
    before: Type,
    after: Type,
    post: M,
    g: spec_fn(TypeTree) -> TypeTree,
)
    requires
        transforms(pre, before, after, post),
        forall|b: Type, a: Type, p: M| #[trigger]
            M::rewrites(pre, b, a, p) ==> p == pre && a@ == g(b@),
    ensures
        post == pre,
        after@ == before@.bottom_up(g),
    decreases before,
{
    let n = before.children().len() as int;
    let (states, mid) = choose|states: Seq<M>, mid: Type|
        {
            &&& #[trigger] is_transform(states, before, mid)
            &&& states.first() == pre
            &&& forall|i: int|
                0 <= i < before.children().len() ==> transforms(
                    states[i],
                    #[trigger] before.children()[i],
                    mid.children()[i],
                    states[i + 1],
                )
            &&& M::rewrites(states.last(), mid, after, post)
        };
    children_bottom_up(states, before, mid, g, n);
    tree_unfolds(before);
    tree_unfolds(mid);
    assert(trees(mid.children()) =~= before@.children_bottom_up(g)) by {
        assert forall|i: int| 0 <= i < n implies trees(mid.children())[i]
            == before@.children_bottom_up(g)[i] by {
            assert(mid.children()[i]@ == before.children()[i]@.bottom_up(g));
        }
    }
}

proof fn children_bottom_up<M: TypeMutator>(
    states: Seq<M>,
    before: Type,
    mid: Type,
    g: spec_fn(TypeTree) -> TypeTree,
    n: int,
)
    requires
        is_transform(states, before, mid),
        0 <= n <= before.children().len(),
        forall|i: int|
            0 <= i < before.children().len() ==> transforms(
                states[i],
                #[trigger] before.children()[i],
                mid.children()[i],
                states[i + 1],
            ),
        forall|b: Type, a: Type, p: M| #[trigger]
            M::rewrites(states[0], b, a, p) ==> p == states[0] && a@ == g(b@),
    ensures
        states[n] == states[0],
        forall|i: int|
            0 <= i < n ==> (#[trigger] mid.children()[i])@ == before.children()[i]@.bottom_up(g),
    decreases before, n,
{
    if n > 0 {
        children_bottom_up(states, before, mid, g, n - 1);
        before.child_is_smaller(n - 1);
        transforms_bottom_up(
            states[n - 1],
            before.children()[n - 1],
            mid.children()[n - 1],
            states[n],
            g,
        );
    }
}

/// Puts the types of a map in the place of the type parameters that it has them for.
pub open spec fn subst_step(mp: Map<Quantified, Type>) -> spec_fn(TypeTree) -> TypeTree {
    |tree: TypeTree|
        match tree.node {
            Node::Quantified(x) => if mp.contains_key(x) {
                mp[x]@
            } else {
                tree
            },
            _ => tree,
        }
}

pub(crate) struct Subst<'a> {
    pub mp: &'a SmallMap<Quantified, Type>,
}

impl<'a> TypeMutator for Subst<'a> {
    open spec fn ready(self) -> bool {
        true
    }

    closed spec fn rewrites(pre: Subst<'a>, before: Type, after: Type, post: Subst<'a>) -> bool {
        post == pre && after@ == subst_step(map_contents(*pre.mp))(before@)
    }

    fn rewrite_type(&mut self, ty: &mut Type) {
        broadcast use tree_unfolds;

        if let Type::Quantified(x) = &*ty {
            if let Some(w) = map_get(self.mp, x) {
                *ty = w.clone();
            }
        }
    }
}

impl<'a> Subst<'a> {
    pub(crate) proof fn is_subst(self, before: Type, after: Type, post: Subst<'a>)
        requires
            transforms(self, before, after, post),
        ensures
            after@ == before@.bottom_up(subst_step(map_contents(*self.mp))),
    {
        transforms_bottom_up(self, before, after, post, subst_step(map_contents(*self.mp)));
    }
}

/// Puts a type in the place of `Self`.
pub open spec fn self_type_step(self_type: TypeTree) -> spec_fn(TypeTree) -> TypeTree {
    |tree: TypeTree|
        if tree.node == Node::SpecialForm(SpecialForm::SelfType) {
            self_type
        } else {
            tree
        }
}

pub(crate) struct SubstSelfType<'a> {
    pub self_type: &'a Type,
}

impl<'a> TypeMutator for SubstSelfType<'a> {
    open spec fn ready(self) -> bool {
        true
    }

    closed spec fn rewrites(
        pre: SubstSelfType<'a>,
        before: Type,
        after: Type,
        post: SubstSelfType<'a>,
    ) -> bool {
        post == pre && after@ == self_type_step(pre.self_type@)(before@)
    }

    fn rewrite_type(&mut self, ty: &mut Type) {
        broadcast use tree_unfolds;

        let marker = Type::SpecialForm(SpecialForm::SelfType);
        proof {
            assert(trees(marker.children()) =~= seq![]);
            if ty.node() == marker.node() {
                assert(trees(ty.children()) =~= seq![]);
            }
        }
        if *ty == marker {
            *ty = self.self_type.clone();
        }
    }
}

impl<'a> SubstSelfType<'a> {
    pub(crate) proof fn is_subst(self, before: Type, after: Type, post: SubstSelfType<'a>)
        requires
            transforms(self, before, after, post),
        ensures
            after@ == before@.bottom_up(self_type_step(self.self_type@)),
    {
        transforms_bottom_up(self, before, after, post, self_type_step(self.self_type@));
    }
}

/// Puts the classes of literals in the place of literals.
pub open spec fn promote_step(stdlib: &Stdlib) -> spec_fn(TypeTree) -> TypeTree {
    |tree: TypeTree|
        match tree.node {
            Node::Literal(lit) => instance_tree(lit.class(stdlib)),
            Node::LiteralString => instance_tree(stdlib.str@),
            _ => tree,
        }
}

pub(crate) struct PromoteLiterals<'a> {
    pub stdlib: &'a Stdlib,
}

impl<'a> TypeMutator for PromoteLiterals<'a> {
    open spec fn ready(self) -> bool {
        true
    }

    closed spec fn rewrites(
        pre: PromoteLiterals<'a>,
        before: Type,
        after: Type,
        post: PromoteLiterals<'a>,
    ) -> bool {
        post == pre && after@ == promote_step(pre.stdlib)(before@)
    }

    fn rewrite_type(&mut self, ty: &mut Type) {
        broadcast use tree_unfolds;

        match &*ty {
            Type::Literal(lit) => *ty = lit.general_type(self.stdlib),
            Type::LiteralString => *ty = self.stdlib.str(),
            _ => {},
        }
    }
}

impl<'a> PromoteLiterals<'a> {
    pub(crate) proof fn is_promotion(self, before: Type, after: Type, post: PromoteLiterals<'a>)
        requires
            transforms(self, before, after, post),
        ensures
            after@ == before@.bottom_up(promote_step(self.stdlib)),
    {
        transforms_bottom_up(self, before, after, post, promote_step(self.stdlib));
    }
}

/// Makes every `Any` one that the user wrote.
pub open spec fn explicit_step() -> spec_fn(TypeTree) -> TypeTree {
    |tree: TypeTree|
        match tree.node {
            Node::Any(_) => TypeTree {
                node: Node::Any(AnyStyle::Explicit),
                children: tree.children,
            },
            _ => tree,
        }
}

pub(crate) struct ExplicitAny;

impl TypeMutator for ExplicitAny {
    open spec fn ready(self) -> bool {
        true
    }

    closed spec fn rewrites(
        pre: ExplicitAny,
        before: Type,
        after: Type,
        post: ExplicitAny,
    ) -> bool {
        post == pre && after@ == explicit_step()(before@)
    }

    fn rewrite_type(&mut self, ty: &mut Type) {
        broadcast use tree_unfolds;

        if let Type::Any(style) = ty {
            *style = AnyStyle::Explicit;
        }
    }
}

impl ExplicitAny {
    pub(crate) proof fn is_explicit(self, before: Type, after: Type, post: ExplicitAny)
        requires
            transforms(self, before, after, post),
        ensures
            after@ == before@.bottom_up(explicit_step()),
    {
        transforms_bottom_up(self, before, after, post, explicit_step());
    }
}

/// Puts the zero in the place of every identity.
pub open spec fn anonymous_step() -> spec_fn(TypeTree) -> TypeTree {
    |tree: TypeTree|
        TypeTree {
            node: match tree.node {
                Node::Forall(qs) => Node::Forall(qs.map_values(|q: Quantified| q.zeroed())),
                Node::Quantified(q) => Node::Quantified(q.zeroed()),
                Node::Var(_) => Node::Var(Var::numbered(0)),
                Node::Args(_) => Node::Args(Unique::numbered(0)),
                Node::Kwargs(_) => Node::Kwargs(Unique::numbered(0)),
                node => node,
            },
            children: tree.children,
        }
}

fn zero_all(qs: &mut Vec<Quantified>)
    ensures
        final(qs)@ == old(qs)@.map_values(|q: Quantified| q.zeroed()),
{
    let n = qs.len();
    for i in 0..n
        invariant
            qs.len() == n,
            n == old(qs).len(),
            forall|j: int| 0 <= j < i ==> qs@[j] == old(qs)@[j].zeroed(),
            forall|j: int| i <= j < n ==> qs@[j] == old(qs)@[j],
    {
        qs[i].zero();
    }
}

pub(crate) struct Anonymous;

impl TypeMutator for Anonymous {
    open spec fn ready(self) -> bool {
        true
    }

    closed spec fn rewrites(pre: Anonymous, before: Type, after: Type, post: Anonymous) -> bool {
        post == pre && after@ == anonymous_step()(before@)
    }

    fn rewrite_type(&mut self, ty: &mut Type) {
        broadcast use tree_unfolds;

        match ty {
            Type::Forall(qs, _) => {
                zero_all(qs);
            },
            Type::Quantified(q) => {
                q.zero();
            },
            Type::Var(v) => {
                v.zero();
            },
            Type::Args(id) => {
                *id = Unique::zero();
            },
            Type::Kwargs(id) => {
                *id = Unique::zero();
            },
            _ => {},
        }
    }
}

impl Anonymous {
    pub(crate) proof fn is_anonymous(self, before: Type, after: Type, post: Anonymous)
        requires
            transforms(self, before, after, post),
        ensures
            after@ == before@.bottom_up(anonymous_step()),
    {
        transforms_bottom_up(self, before, after, post, anonymous_step());
    }
}

} // verus!
