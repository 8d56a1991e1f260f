//! Which types say the same, and what is directly inside a type.
//!
//! Two types say the same just when they are built alike out of parts that say the same, so nothing
//! that a type is built of is left out of what it says. `==` goes by what types say.
use crate::callable::{Arg, Callable, Params};
use crate::class::ClassType;
use crate::literal::Lit;
use crate::tree::{tree_unfolds, trees};
use crate::tuple::Tuple;
use crate::types::{Type, TypeAlias};
use vstd::prelude::*;

verus! {

/// Whether the types at the same positions of two lists say the same, and there are no others.
pub open spec fn same_types(a: Seq<Type>, b: Seq<Type>) -> bool {
    a.len() == b.len() && forall|i: int| 0 <= i < a.len() ==> (#[trigger] a[i])@ == b[i]@
}

pub(crate) proof fn same_types_have_same_trees(a: Seq<Type>, b: Seq<Type>)
    ensures
        same_types(a, b) <==> trees(a) == trees(b),
{
    let (x, y) = (trees(a), trees(b));
    if same_types(a, b) {
        assert forall|i: int| 0 <= i < a.len() implies x[i] == y[i] by {
            assert(a[i]@ == b[i]@);
        }
        assert(x =~= y);
    }
    if x == y {
        assert(a.len() == x.len() && b.len() == y.len());
        assert forall|i: int| 0 <= i < a.len() implies (#[trigger] a[i])@ == b[i]@ by {
            assert(x[i] == y[i]);
        }
    }
}

/// Whether two parameters of callables say the same: how they are passed, what they are called,
/// whether they must be passed, and their types.
pub open spec fn same_arg(a: Arg, b: Arg) -> bool {
    &&& a.kind == b.kind
    &&& match (a.name, b.name) {
        (Some(x), Some(y)) => x@ == y@,
        (None, None) => true,
        _ => false,
    }
    &&& a.required == b.required
    &&& a.ty@ == b.ty@
}

/// Whether the parameters at the same positions of two lists say the same, and there are no others.
pub open spec fn same_args(a: Seq<Arg>, b: Seq<Arg>) -> bool {
    a.len() == b.len() && forall|i: int| 0 <= i < a.len() ==> same_arg(#[trigger] a[i], b[i])
}

pub(crate) proof fn same_params_have_same_trees(a: Params, b: Params)
    ensures
        a.shape() == b.shape() && trees(a.types()) == trees(b.types()) <==> match (a, b) {
            (Params::List(x), Params::List(y)) => same_args(x@, y@),
            (Params::Ellipsis, Params::Ellipsis) => true,
            (Params::ParamSpec(x), Params::ParamSpec(y)) => x@ == y@,
            _ => false,
        },
{
    let (u, v) = (trees(a.types()), trees(b.types()));
    match (a, b) {
        (Params::List(x), Params::List(y)) => {
            let (s, t) = (
                x@.map_values(|arg: Arg| arg.shape()),
                y@.map_values(|arg: Arg| arg.shape()),
            );
            if same_args(x@, y@) {
                assert forall|i: int| 0 <= i < x@.len() implies s[i] == t[i] && u[i] == v[i] by {
                    assert(same_arg(x@[i], y@[i]));
                }
                assert(s =~= t);
                assert(u =~= v);
            }
            if s == t && u == v {
                assert(s.len() == t.len());
                assert forall|i: int| 0 <= i < x@.len() implies same_arg(
                    #[trigger] x@[i],
                    y@[i],
                ) by {
                    assert(s[i] == t[i] && u[i] == v[i]);
                }
            }
        },
        (Params::ParamSpec(x), Params::ParamSpec(y)) => {
            assert(u[0] == x@ && v[0] == y@);
            if x@ == y@ {
                assert(u =~= v);
            }
        },
        _ => {},
    }
}

/// Literals say the same just when they are of one sort and have the same value.
pub proof fn literals_say_their_value(a: Lit, b: Lit)
    ensures
        a@ == b@ <==> match (a, b) {
            (Lit::String(x), Lit::String(y)) => x@ == y@,
            (Lit::Int(x), Lit::Int(y)) => x == y,
            (Lit::Bool(x), Lit::Bool(y)) => x == y,
            (Lit::Bytes(x), Lit::Bytes(y)) => x@ == y@,
            _ => false,
        },
{
}

/// Types say the same just when they are built alike out of parts that say the same.
pub proof fn types_say_the_same_by_parts(a: Type, b: Type)
    ensures
        a@ == b@ <==> match (a, b) {
            (Type::Literal(x), Type::Literal(y)) => x@ == y@,
            (Type::LiteralString, Type::LiteralString) => true,
            (Type::Callable(x), Type::Callable(y)) => x.ret@ == y.ret@ && match (
                x.params,
                y.params,
            ) {
                (Params::List(p), Params::List(q)) => same_args(p@, q@),
                (Params::Ellipsis, Params::Ellipsis) => true,
                (Params::ParamSpec(p), Params::ParamSpec(q)) => p@ == q@,
                _ => false,
            },
            (Type::Union(x), Type::Union(y)) => same_types(x@, y@),
            (Type::Intersect(x), Type::Intersect(y)) => same_types(x@, y@),
            (Type::ClassDef(x), Type::ClassDef(y)) => x@.module == y@.module && x@.id == y@.id,
            (Type::ClassType(x), Type::ClassType(y)) => x.0@.module == y.0@.module && x.0@.id
                == y.0@.id && same_types(x.1.0@, y.1.0@),
            (Type::Tuple(Tuple::Concrete(x)), Type::Tuple(Tuple::Concrete(y))) => same_types(
                x@,
                y@,
            ),
            (Type::Tuple(Tuple::Unbounded(x)), Type::Tuple(Tuple::Unbounded(y))) => x@ == y@,
            (Type::Module(x), Type::Module(y)) => x@ == y@,
            (Type::Forall(x, s), Type::Forall(y, t)) => x@ == y@ && s@ == t@,
            (Type::Var(x), Type::Var(y)) => x == y,
            (Type::Quantified(x), Type::Quantified(y)) => x == y,
            (Type::TypeGuard(x), Type::TypeGuard(y)) => x@ == y@,
            (Type::TypeIs(x), Type::TypeIs(y)) => x@ == y@,
            (Type::Unpack(x), Type::Unpack(y)) => x@ == y@,
            (Type::TypeVar(x), Type::TypeVar(y)) => x@.module == y@.module && x@.id == y@.id,
            (Type::ParamSpec(x), Type::ParamSpec(y)) => x@.module == y@.module && x@.id == y@.id,
            (Type::TypeVarTuple(x), Type::TypeVarTuple(y)) => x@.module == y@.module && x@.id
                == y@.id,
            (Type::SpecialForm(x), Type::SpecialForm(y)) => x == y,
            (Type::Args(x), Type::Args(y)) => x == y,
            (Type::Kwargs(x), Type::Kwargs(y)) => x == y,
            (Type::Type(x), Type::Type(y)) => x@ == y@,
            (Type::Ellipsis, Type::Ellipsis) => true,
            (Type::Any(x), Type::Any(y)) => x == y,
            (Type::Never(x), Type::Never(y)) => x == y,
            (Type::TypeAlias(x), Type::TypeAlias(y)) => x.name@ == y.name@ && x.ty@ == y.ty@
                && x.style == y.style,
            (Type::NoneType, Type::NoneType) => true,
            _ => false,
        },
{
    broadcast use tree_unfolds;

    let (u, v) = (trees(a.children()), trees(b.children()));
    if a.children().len() == 1 && b.children().len() == 1 {
        assert(u[0] == a.children()[0]@ && v[0] == b.children()[0]@);
        if u[0] == v[0] {
            assert(u =~= v);
        }
    }
    if a.children().len() == 0 && b.children().len() == 0 {
        assert(u =~= v);
    }
    match (a, b) {
        (Type::Callable(x), Type::Callable(y)) => {
            let (p, q) = (trees(x.params.types()), trees(y.params.types()));
            assert(u =~= p.push(x.ret@) && v =~= q.push(y.ret@));
            if u == v {
                assert(u.drop_last() == p && v.drop_last() == q);
                assert(u.last() == x.ret@ && v.last() == y.ret@);
            }
            same_params_have_same_trees(x.params, y.params);
        },
        (Type::Union(x), Type::Union(y)) => same_types_have_same_trees(x@, y@),
        (Type::Intersect(x), Type::Intersect(y)) => same_types_have_same_trees(x@, y@),
        (Type::ClassDef(x), Type::ClassDef(y)) => {
            assert(x@ == y@ <==> x@.module == y@.module && x@.id == y@.id);
        },
        (Type::ClassType(x), Type::ClassType(y)) => {
            assert(x.0@ == y.0@ <==> x.0@.module == y.0@.module && x.0@.id == y.0@.id);
            same_types_have_same_trees(x.1.0@, y.1.0@);
        },
        (Type::Tuple(Tuple::Concrete(x)), Type::Tuple(Tuple::Concrete(y))) => {
            same_types_have_same_trees(x@, y@);
        },
        (Type::TypeVar(x), Type::TypeVar(y)) => {
            assert(x@ == y@ <==> x@.module == y@.module && x@.id == y@.id);
        },
        (Type::ParamSpec(x), Type::ParamSpec(y)) => {
            assert(x@ == y@ <==> x@.module == y@.module && x@.id == y@.id);
        },
        (Type::TypeVarTuple(x), Type::TypeVarTuple(y)) => {
            assert(x@ == y@ <==> x@.module == y@.module && x@.id == y@.id);
        },
        _ => {},
    }
}

/// The types that [`Type::visit`] and [`Type::visit_mut`] come to are the types that a type is built
/// of, from left to right: of a callable, those of the parameters and then the returned one.
pub proof fn parts_are_visited_in_order(ty: Type)
    ensures
        match ty {
            Type::Callable(c) => {
                &&& ty.children().len() > 0 && ty.children().last() == c.ret
                &&& match c.params {
                    Params::List(args) => ty.children().len() == args@.len() + 1 && forall|i: int|
                        0 <= i < args@.len() ==> #[trigger] ty.children()[i] == args@[i].ty,
                    Params::Ellipsis => ty.children().len() == 1,
                    Params::ParamSpec(p) => ty.children().len() == 2 && ty.children()[0] == p,
                }
            },
            Type::Union(xs) => ty.children() == xs@,
            Type::Intersect(xs) => ty.children() == xs@,
            Type::ClassType(x) => ty.children() == x.1.0@,
            Type::Tuple(Tuple::Concrete(xs)) => ty.children() == xs@,
            Type::Tuple(Tuple::Unbounded(x)) => ty.children() == seq![*x],
            Type::Forall(_, x) => ty.children() == seq![*x],
            Type::TypeGuard(x) => ty.children() == seq![*x],
            Type::TypeIs(x) => ty.children() == seq![*x],
            Type::Unpack(x) => ty.children() == seq![*x],
            Type::Type(x) => ty.children() == seq![*x],
            Type::TypeAlias(alias) => ty.children() == seq![*alias.ty],
            _ => ty.children().len() == 0,
        },
        ty@.node == ty.node(),
        ty@.children.len() == ty.children().len(),
        forall|i: int|
            0 <= i < ty.children().len() ==> (#[trigger] ty@.children[i]) == ty.children()[i]@,
{
    tree_unfolds(ty);
}

/// The types of a callable, a class with type arguments or a tuple are visited as those of the type
/// that it is.
pub proof fn parts_visit_as_types(c: Callable, x: ClassType, t: Tuple)
    ensures
        c.children() == Type::Callable(Box::new(c)).children(),
        x.children() == Type::ClassType(x).children(),
        t.children() == Type::Tuple(t).children(),
{
}

/// A type is in another just when it says the same or is in one of the types directly inside it.
pub proof fn contains_by_parts(ty: Type, x: Type)
    ensures
        ty@.has(x@) <==> ty@ == x@ || exists|i: int|
            0 <= i < ty.children().len() && (#[trigger] ty.children()[i])@.has(x@),
{
    tree_unfolds(ty);
    if ty@.has(x@) && ty@ != x@ {
        let i = choose|i: int| 0 <= i < ty@.children.len() && (#[trigger] ty@.children[i]).has(x@);
        assert(ty.children()[i]@.has(x@));
    }
    assert forall|i: int| 0 <= i < ty.children().len() && (#[trigger] ty.children()[i])@.has(
        x@,
    ) implies ty@.has(x@) by {
        assert(ty@.children[i].has(x@));
    }
}

} // verus!
