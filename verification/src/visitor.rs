//! What can be run over the types inside a type.
//!
//! A visitor or a mutator is a value with a state, so that what it has done after a run can be told
//! from its state. Closures can be passed as well. What a closure has changed outside of it is not
//! part of what is said about it.
use crate::types::Type;
use vstd::prelude::*;

verus! {

broadcast use vstd::function::group_function_axioms;

/// Something that looks at types, one after another. What it does with a type may depend on the
/// types that it has seen before. Where an implementation does not say what it does, it may do
/// anything.
pub trait TypeVisitor<'a>: Sized {
    /// Whether it can be shown a type.
    open spec fn ready(self) -> bool {
        true
    }

    /// Whether being shown `ty` may take the visitor from `pre` to `post`.
    open spec fn visits(pre: Self, ty: Type, post: Self) -> bool {
        true
    }

    fn visit_type(&mut self, ty: &'a Type)
        requires
            old(self).ready(),
        ensures
            final(self).ready(),
            Self::visits(*old(self), *ty, *final(self)),
    ;
}

/// A closure looks at a type when it is called on it.
impl<'a, F: FnMut(&'a Type)> TypeVisitor<'a> for F {
    open spec fn ready(self) -> bool {
        forall|ty: &'a Type| call_requires(self, (ty,))
    }

    open spec fn visits(pre: F, ty: Type, post: F) -> bool {
        call_ensures(pre, (&ty,), ()) && post == pre
    }

    fn visit_type(&mut self, ty: &'a Type) {
        self(ty)
    }
}

/// `states` are the states of a visitor that is shown `tys` from left to right: the one before
/// the first type, and the one after each type.
pub open spec fn is_visit<'a, V: TypeVisitor<'a>>(states: Seq<V>, tys: Seq<Type>) -> bool {
    &&& states.len() == tys.len() + 1
    &&& forall|i: int|
        0 <= i < tys.len() ==> V::visits(states[i], #[trigger] tys[i], states[i + 1])
}

/// Whether being shown `tys` from left to right may take a visitor from `pre` to `post`.
pub open spec fn visits_all<'a, V: TypeVisitor<'a>>(pre: V, tys: Seq<Type>, post: V) -> bool {
    exists|states: Seq<V>|
        #[trigger] is_visit(states, tys) && states.first() == pre && states.last() == post
}

pub proof fn visits_none<'a, V: TypeVisitor<'a>>(pre: V)
    ensures
        visits_all(pre, Seq::<Type>::empty(), pre),
{
    assert(is_visit(seq![pre], Seq::<Type>::empty()));
}

pub proof fn visits_one<'a, V: TypeVisitor<'a>>(pre: V, ty: Type, post: V)
    requires
        V::visits(pre, ty, post),
    ensures
        visits_all(pre, seq![ty], post),
{
    assert(is_visit(seq![pre, post], seq![ty]));
}

/// What is shown in two goes may be shown in one.
pub proof fn visits_both<'a, V: TypeVisitor<'a>>(
    pre: V,
    left: Seq<Type>,
    mid: V,
    right: Seq<Type>,
    post: V,
)
    requires
        visits_all(pre, left, mid),
        visits_all(mid, right, post),
    ensures
        visits_all(pre, left + right, post),
{
    let a = choose|states: Seq<V>|
        #[trigger] is_visit(states, left) && states.first() == pre && states.last() == mid;
    let b = choose|states: Seq<V>|
        #[trigger] is_visit(states, right) && states.first() == mid && states.last() == post;
    let states = a + b.skip(1);
    assert forall|i: int| 0 <= i < (left + right).len() implies V::visits(
        states[i],
        #[trigger] (left + right)[i],
        states[i + 1],
    ) by {
        if i < left.len() {
            assert((left + right)[i] == left[i]);
        } else {
            assert((left + right)[i] == right[i - left.len()]);
            if i == left.len() {
                assert(states[i] == b[0]);
            }
            assert(states[i + 1] == b[i - left.len() + 1]);
        }
    }
    assert(is_visit(states, left + right));
    assert(states.last() == b.last());
}

/// Shows the types of a list to a visitor, from left to right.
pub(crate) fn visit_types<'a, V: TypeVisitor<'a>>(types: &'a Vec<Type>, f: &mut V)
    requires
        old(f).ready(),
    ensures
        final(f).ready(),
        visits_all(*old(f), types@, *final(f)),
{
    let ghost pre = *f;
    proof {
        visits_none(pre);
        assert(types@.take(0) == Seq::<Type>::empty());
    }
    for i in 0..types.len()
        invariant
            f.ready(),
            visits_all(pre, types@.take(i as int), *f),
    {
        let ghost mid = *f;
        f.visit_type(&types[i]);
        proof {
            visits_one(mid, types@[i as int], *f);
            visits_both(pre, types@.take(i as int), mid, seq![types@[i as int]], *f);
            assert(types@.take(i + 1) == types@.take(i as int) + seq![types@[i as int]]);
        }
    }
    assert(types@.take(types.len() as int) == types@);
}

/// A visitor that keeps the types it is shown, in that order.
pub struct Refs<'a> {
    pub seen: Vec<&'a Type>,
}

impl<'a> TypeVisitor<'a> for Refs<'a> {
    open spec fn ready(self) -> bool {
        true
    }

    open spec fn visits(pre: Refs<'a>, ty: Type, post: Refs<'a>) -> bool {
        post.seen@ == pre.seen@.push(&ty)
    }

    fn visit_type(&mut self, ty: &'a Type) {
        self.seen.push(ty);
    }
}

/// Showing types to [`Refs`] appends them.
pub proof fn refs_append<'a>(pre: Refs<'a>, tys: Seq<Type>, post: Refs<'a>)
    requires
        visits_all(pre, tys, post),
    ensures
        post.seen@ == pre.seen@ + tys.map_values(|ty: Type| &ty),
{
    let states = choose|states: Seq<Refs<'a>>|
        #[trigger] is_visit(states, tys) && states.first() == pre && states.last() == post;
    refs_append_upto(states, tys, tys.len() as int);
    assert(tys.take(tys.len() as int) == tys);
}

proof fn refs_append_upto<'a>(states: Seq<Refs<'a>>, tys: Seq<Type>, n: int)
    requires
        is_visit(states, tys),
        0 <= n <= tys.len(),
    ensures
        states[n].seen@ == states[0].seen@ + tys.take(n).map_values(|ty: Type| &ty),
    decreases n,
{
    if n > 0 {
        refs_append_upto(states, tys, n - 1);
        assert(Refs::visits(states[n - 1], tys[n - 1], states[n]));
        assert(tys.take(n) == tys.take(n - 1).push(tys[n - 1]));
    }
}

/// Something that changes types in place, one after another. Where an implementation does not say
/// what it does, it may do anything.
pub trait TypeMutator: Sized {
    /// Whether it can be given a type.
    open spec fn ready(self) -> bool {
        true
    }

    /// Whether being given `before` may leave `after` in its place and take the mutator from `pre`
    /// to `post`.
    open spec fn rewrites(pre: Self, before: Type, after: Type, post: Self) -> bool {
        true
    }

    fn rewrite_type(&mut self, ty: &mut Type)
        requires
            old(self).ready(),
        ensures
            final(self).ready(),
            Self::rewrites(*old(self), *old(ty), *final(ty), *final(self)),
    ;
}

/// A closure gives each type back changed.
impl<F: FnMut(Type) -> Type> TypeMutator for F {
    open spec fn ready(self) -> bool {
        forall|ty: Type| call_requires(self, (ty,))
    }

    open spec fn rewrites(pre: F, before: Type, after: Type, post: F) -> bool {
        call_ensures(pre, (before,), after) && post == pre
    }

    fn rewrite_type(&mut self, ty: &mut Type) {
        let mut before = Type::Ellipsis;
        std::mem::swap(&mut before, ty);
        *ty = self(before);
    }
}

/// `states` are the states of a mutator that is given the types `before` from left to right and
/// leaves `after` in their place.
pub open spec fn is_rewrite<M: TypeMutator>(
    states: Seq<M>,
    before: Seq<Type>,
    after: Seq<Type>,
) -> bool {
    &&& states.len() == before.len() + 1
    &&& after.len() == before.len()
    &&& forall|i: int|
        0 <= i < before.len() ==> M::rewrites(
            states[i],
            #[trigger] before[i],
            after[i],
            states[i + 1],
        )
}

/// Whether being given the types `before` from left to right may leave `after` in their place and
/// take a mutator from `pre` to `post`.
pub open spec fn rewrites_all<M: TypeMutator>(
    pre: M,
    before: Seq<Type>,
    after: Seq<Type>,
    post: M,
) -> bool {
    exists|states: Seq<M>|
        #[trigger] is_rewrite(states, before, after) && states.first() == pre && states.last()
            == post
}

/// `mid` may differ from `before` in the types directly inside it only, and there is a state before
/// the first of them and one after each of them.
pub open spec fn is_transform<M: TypeMutator>(states: Seq<M>, before: Type, mid: Type) -> bool {
    &&& states.len() == before.children().len() + 1
    &&& mid.node() == before.node()
    &&& mid.children().len() == before.children().len()
}

/// Whether a mutator that is run over all types in `before`, those directly inside a type from
/// left to right and then the type itself, may leave `after` and go from `pre` to `post`.
///
/// `mid` is the type that the root has become when the mutator gets to it.
pub open spec fn transforms<M: TypeMutator>(pre: M, before: Type, after: Type, post: M) -> bool
    decreases before,
{
    proof {
        assert forall|i: int| 0 <= i < before.children().len() implies decreases_to!(
            before => #[trigger] before.children()[i]
        ) by {
            before.child_is_smaller(i);
        }
    }
    exists|states: Seq<M>, mid: Type|
        {
            &&& #[trigger] is_transform(states, before, mid)
            &&& states.first() == pre
            &&& forall|i: int|
                0 <= i < before.children().len() ==> transforms(
                    states[i],
                    #[trigger] before.children()[i],
                    mid.children()[i],
                    states[i + 1],
                )
            &&& M::rewrites(states.last(), mid, after, post)
        }
}

} // verus!
