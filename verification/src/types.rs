//! Types.
use crate::callable::{Arg, Callable, Params};
use crate::class::{Class, ClassType, TArgs};
use crate::literal::Lit;
use crate::module::Module;
use crate::name::Name;
use crate::rewriting::{
    anonymous_step, explicit_step, promote_step, self_type_step, subst_step, Anonymous, ExplicitAny,
    PromoteLiterals, Subst, SubstSelfType,
};
use crate::small::{
    map_contents, map_entries, map_insert, map_into_values, new_map, set_contents, set_elements,
    set_insert,
};
use crate::special_form::SpecialForm;
use crate::stdlib::Stdlib;
use crate::tree::{tree_unfolds, trees, Node, TypeTree};
use crate::tuple::Tuple;
use crate::type_var::{ParamSpec, TypeVar, TypeVarTuple};
use crate::uniques::{number_identifies, Unique, UniqueFactory};
use crate::visitor::{
    is_rewrite, is_transform, refs_append, rewrites_all, transforms, visit_types, visits_all,
    visits_both, visits_none, visits_one, Refs, TypeMutator, TypeVisitor,
};
use starlark_map::small_map::SmallMap;
use starlark_map::small_set::SmallSet;
use std::sync::Arc;
use vstd::prelude::*;

verus! {

/// An introduced synthetic variable to range over as yet unknown types.
#[derive(Debug, Clone, Copy, PartialEq, Eq, PartialOrd, Ord, Hash, Structural)]
pub struct Var(Unique);

/// A type parameter of a function or a class.
#[derive(Debug, Clone, Copy, PartialEq, Eq, PartialOrd, Ord, Hash, Structural)]
pub struct Quantified(Unique, QuantifiedKind);

#[derive(Debug, Clone, Copy, PartialEq, Eq, PartialOrd, Ord, Hash, Structural)]
pub enum QuantifiedKind {
    TypeVar,
    ParamSpec,
    TypeVarTuple,
}

impl Var {
    /// The variable with the given number.
    pub closed spec fn numbered(number: u64) -> Var {
        Var(Unique::numbered(number))
    }

    /// The identity of the variable.
    pub closed spec fn unique(self) -> Unique {
        self.0
    }

    /// A variable that has not been used before.
    pub fn new(uniques: &mut UniqueFactory) -> (var: Var)
        requires
            old(uniques).left() > 0,
        ensures
            var == Var::numbered(old(uniques).next()),
            var.unique() != Unique::numbered(0),
            final(uniques).next() == old(uniques).next() + 1,
    {
        let unique = uniques.fresh();
        proof {
            number_identifies(unique, unique);
        }
        Var(unique)
    }

    pub fn to_type(self) -> (ty: Type)
        ensures
            ty == Type::Var(self),
    {
        Type::Var(self)
    }

    pub(crate) fn zero(&mut self)
        ensures
            *final(self) == Var::numbered(0),
    {
        self.0 = Unique::zero();
    }

    pub(crate) fn id(&self) -> (id: Unique)
        ensures
            id == self.unique(),
    {
        self.0
    }
}

impl Quantified {
    /// The identity of the type parameter.
    pub closed spec fn unique(self) -> Unique {
        self.0
    }

    /// What the type parameter stands for.
    pub closed spec fn kind(self) -> QuantifiedKind {
        self.1
    }

    /// The type parameter of the given identity and kind.
    pub closed spec fn of(unique: Unique, kind: QuantifiedKind) -> Quantified {
        Quantified(unique, kind)
    }

    /// The type parameter without its identity.
    pub open spec fn zeroed(self) -> Quantified {
        Quantified::of(Unique::numbered(0), self.kind())
    }

    /// A type parameter that has not been used before.
    pub fn new(uniques: &mut UniqueFactory, kind: QuantifiedKind) -> (quantified: Quantified)
        requires
            old(uniques).left() > 0,
        ensures
            quantified == Quantified::of(Unique::numbered(old(uniques).next()), kind),
            quantified.unique() != Unique::numbered(0),
            final(uniques).next() == old(uniques).next() + 1,
    {
        let unique = uniques.fresh();
        proof {
            number_identifies(unique, unique);
        }
        Quantified(unique, kind)
    }

    pub fn type_var(uniques: &mut UniqueFactory) -> (quantified: Quantified)
        requires
            old(uniques).left() > 0,
        ensures
            quantified == Quantified::of(
                Unique::numbered(old(uniques).next()),
                QuantifiedKind::TypeVar,
            ),
            quantified.unique() != Unique::numbered(0),
            final(uniques).next() == old(uniques).next() + 1,
    {
        Quantified::new(uniques, QuantifiedKind::TypeVar)
    }

    pub fn param_spec(uniques: &mut UniqueFactory) -> (quantified: Quantified)
        requires
            old(uniques).left() > 0,
        ensures
            quantified == Quantified::of(
                Unique::numbered(old(uniques).next()),
                QuantifiedKind::ParamSpec,
            ),
            quantified.unique() != Unique::numbered(0),
            final(uniques).next() == old(uniques).next() + 1,
    {
        Quantified::new(uniques, QuantifiedKind::ParamSpec)
    }

    pub fn type_var_tuple(uniques: &mut UniqueFactory) -> (quantified: Quantified)
        requires
            old(uniques).left() > 0,
        ensures
            quantified == Quantified::of(
                Unique::numbered(old(uniques).next()),
                QuantifiedKind::TypeVarTuple,
            ),
            quantified.unique() != Unique::numbered(0),
            final(uniques).next() == old(uniques).next() + 1,
    {
        Quantified::new(uniques, QuantifiedKind::TypeVarTuple)
    }

    pub fn to_type(self) -> (ty: Type)
        ensures
            ty == Type::Quantified(self),
    {
        Type::Quantified(self)
    }

    pub fn is_param_spec(&self) -> (is: bool)
        ensures
            is == (self.kind() == QuantifiedKind::ParamSpec),
    {
        matches!(self.1, QuantifiedKind::ParamSpec)
    }

    pub fn id(&self) -> (id: Unique)
        ensures
            id == self.unique(),
    {
        self.0
    }

    pub fn zero(&mut self)
        ensures
            *final(self) == old(self).zeroed(),
    {
        self.0 = Unique::zero();
    }
}

/// A type parameter is its identity and its kind.
pub broadcast proof fn quantified_is_its_parts(unique: Unique, kind: QuantifiedKind)
    ensures
        (#[trigger] Quantified::of(unique, kind)).unique() == unique,
        Quantified::of(unique, kind).kind() == kind,
{
}

/// Two type parameters with the same identity and the same kind are the same type parameter.
pub proof fn parts_identify(a: Quantified, b: Quantified)
    ensures
        a.unique() == b.unique() && a.kind() == b.kind() <==> a == b,
{
}

/// A variable is its identity.
pub broadcast proof fn var_is_its_number(number: u64)
    ensures
        (#[trigger] Var::numbered(number)).unique() == Unique::numbered(number),
{
}

/// Two variables with the same identity are the same variable.
pub proof fn unique_identifies(a: Var, b: Var)
    ensures
        a.unique() == b.unique() <==> a == b,
{
}

/// We sometimes need a vector of these - mostly done to give them a nice rendering.
#[derive(Debug)]
pub struct QuantifiedVec(pub Vec<Quantified>);

impl Default for QuantifiedVec {
    fn default() -> (empty: QuantifiedVec)
        ensures
            empty.0@ == Seq::<Quantified>::empty(),
    {
        QuantifiedVec(Vec::new())
    }
}

impl QuantifiedVec {
    pub fn len(&self) -> (len: usize)
        ensures
            len == self.0@.len(),
    {
        self.0.len()
    }

    pub fn as_slice(&self) -> (slice: &[Quantified])
        ensures
            slice@ == self.0@,
    {
        self.0.as_slice()
    }
}

// Python's legacy (pre-PEP 695) type variable syntax is not syntactic at all, it requires
// name resolution of global variables plus multiple sets of rules for when a global that
// is a type variable placeholder is allowed to be used as a type parameter.
//
// This type represents the result of such a lookup: given a name appearing in a function or
// a class, we either determine that the name is *not* a type variable and return the type
// for the name, or we determine that it is one and create a `Quantified` that
// represents that variable as a type parameter.
#[derive(Debug, Eq, PartialOrd, Ord, Hash)]
pub enum LegacyTypeParameterLookup {
    Parameter(Quantified),
    NotParameter(Type),
}

impl LegacyTypeParameterLookup {
    pub fn parameter(&self) -> (quantified: Option<&Quantified>)
        ensures
            quantified == match *self {
                LegacyTypeParameterLookup::Parameter(q) => Some(&q),
                LegacyTypeParameterLookup::NotParameter(_) => None,
            },
    {
        match self {
            LegacyTypeParameterLookup::Parameter(q) => Some(q),
            LegacyTypeParameterLookup::NotParameter(_) => None,
        }
    }

    pub fn not_parameter_mut(&mut self) -> (ty: Option<&mut Type>)
        ensures
            match *old(self) {
                LegacyTypeParameterLookup::Parameter(_) => ty is None && *final(self) == *old(self),
                LegacyTypeParameterLookup::NotParameter(before) => ty matches Some(after) && *after
                    == before && *final(self) == LegacyTypeParameterLookup::NotParameter(
                    *final(after),
                ),
            },
    {
        match self {
            LegacyTypeParameterLookup::Parameter(_) => None,
            LegacyTypeParameterLookup::NotParameter(ty) => Some(ty),
        }
    }
}

#[derive(Debug, Clone, Copy, PartialEq, Eq, PartialOrd, Ord, Hash, Structural)]
pub enum NeverStyle {
    Never,
    NoReturn,
}

#[derive(Debug, Clone, Copy, PartialEq, Eq, PartialOrd, Ord, Hash, Structural)]
pub enum AnyStyle {
    /// The user wrote `Any` literally.
    Explicit,
    /// The user didn't write a type, so we inferred `Any`.
    Implicit,
    /// There was an error, so we made up `Any`.
    /// If this `Any` is used in an error position, don't report another error.
    Error,
}

impl AnyStyle {
    /// The style of the `Any` that is made out of an `Any` of this style.
    pub open spec fn propagated(self) -> AnyStyle {
        match self {
            AnyStyle::Implicit | AnyStyle::Error => self,
            AnyStyle::Explicit => AnyStyle::Implicit,
        }
    }

    /// The `Any` for what is made out of an `Any` of this style: the user did not write it.
    pub fn propagate(self) -> (ty: Type)
        ensures
            ty == Type::Any(self.propagated()),
    {
        match self {
            AnyStyle::Implicit | AnyStyle::Error => Type::Any(self),
            AnyStyle::Explicit => Type::Any(AnyStyle::Implicit),
        }
    }
}

#[derive(Debug, Clone, Copy, PartialEq, Eq, PartialOrd, Ord, Hash, Structural)]
pub enum TypeAliasStyle {
    /// A type alias declared with the `type` keyword
    Scoped,
    /// A type alias declared with a `: TypeAlias` annotation
    LegacyExplicit,
    /// An unannotated assignment that may be either an implicit type alias or an untyped value
    LegacyImplicit,
}

#[derive(Debug, Eq, PartialOrd, Ord, Hash)]
pub struct TypeAlias {
    pub name: Name,
    pub ty: Box<Type>,
    pub style: TypeAliasStyle,
}

impl TypeAlias {
    pub fn new(name: Name, ty: Type, style: TypeAliasStyle) -> (alias: TypeAlias)
        ensures
            alias == (TypeAlias { name, ty: Box::new(ty), style }),
    {
        TypeAlias { name, ty: Box::new(ty), style }
    }

    /// Gets the type contained within the type alias for use in a value
    /// position - for example, for a function call or attribute access.
    pub fn as_value(&self) -> (ty: Option<Type>)
        ensures
            self.style == TypeAliasStyle::Scoped ==> ty is None,
            self.style != TypeAliasStyle::Scoped ==> (ty matches Some(ty) && ty@ == self.ty@),
    {
        if self.style == TypeAliasStyle::Scoped {
            None
        } else {
            let ty: &Type = &self.ty;
            Some(ty.clone())
        }
    }

    /// Gets the type contained within the type alias for use in a type
    /// position - for example, in a variable type annotation. Note that
    /// the caller is still responsible for untyping the type. That is,
    /// `type X = int` is represented as `TypeAlias(X, type[int])`, and
    /// `as_type` returns `type[int]`; the caller must turn it into `int`.
    pub fn as_type(&self) -> (ty: Type)
        ensures
            ty@ == self.ty@,
    {
        let ty: &Type = &self.ty;
        ty.clone()
    }
}

#[derive(Debug, Eq, PartialOrd, Ord, Hash)]
pub enum Type {
    Literal(Lit),
    LiteralString,
    Callable(Box<Callable>),
    Union(Vec<Type>),
    Intersect(Vec<Type>),
    /// A class definition has type `Type::ClassDef(cls)`. This type
    /// has special value semantics, and can also be implicitly promoted
    /// to `Type::Type(box Type::ClassType(cls, default_targs))` by looking
    /// up the class `tparams` and setting defaults using gradual types: for
    /// example `list` in an annotation position means `list[Any]`.
    ClassDef(Class),
    /// A value that indicates a concrete, instantiated type with known type
    /// arguments that are validated against the class type parameters. If the
    /// class is not generic, the arguments are empty.
    ///
    /// Instances of classes have this type, and a term of the form `C[arg1, arg2]`
    /// would have the form `Type::Type(box Type::ClassType(C, [arg1, arg2]))`.
    ClassType(ClassType),
    Tuple(Tuple),
    Module(Module),
    Forall(Vec<Quantified>, Box<Type>),
    Var(Var),
    Quantified(Quantified),
    TypeGuard(Box<Type>),
    TypeIs(Box<Type>),
    Unpack(Box<Type>),
    TypeVar(TypeVar),
    ParamSpec(ParamSpec),
    TypeVarTuple(TypeVarTuple),
    SpecialForm(SpecialForm),
    /// Used to represent `P.args`. The spec describes it as an annotation,
    /// but it's easier to think of it as a type that can't occur in nested positions.
    Args(Unique),
    Kwargs(Unique),
    /// Used to represent a type that has a value representation, e.g. a class
    Type(Box<Type>),
    Ellipsis,
    Any(AnyStyle),
    Never(NeverStyle),
    TypeAlias(TypeAlias),
    /// The type of `None`.
    NoneType,
}

impl Type {
    /// What the root of this type says.
    pub open spec fn node(self) -> Node {
        match self {
            Type::Literal(lit) => Node::Literal(lit@),
            Type::LiteralString => Node::LiteralString,
            Type::Callable(callable) => Node::Callable(callable.shape()),
            Type::Union(_) => Node::Union,
            Type::Intersect(_) => Node::Intersect,
            Type::ClassDef(class) => Node::ClassDef(class@),
            Type::ClassType(class_type) => Node::ClassType(class_type.0@),
            Type::Tuple(tuple) => Node::Tuple(tuple.shape()),
            Type::Module(module) => Node::Module(module@),
            Type::Forall(uniques, _) => Node::Forall(uniques@),
            Type::Var(var) => Node::Var(var),
            Type::Quantified(quantified) => Node::Quantified(quantified),
            Type::TypeGuard(_) => Node::TypeGuard,
            Type::TypeIs(_) => Node::TypeIs,
            Type::Unpack(_) => Node::Unpack,
            Type::TypeVar(x) => Node::TypeVar(x@),
            Type::ParamSpec(x) => Node::ParamSpec(x@),
            Type::TypeVarTuple(x) => Node::TypeVarTuple(x@),
            Type::SpecialForm(form) => Node::SpecialForm(form),
            Type::Args(unique) => Node::Args(unique),
            Type::Kwargs(unique) => Node::Kwargs(unique),
            Type::Type(_) => Node::Type,
            Type::Ellipsis => Node::Ellipsis,
            Type::Any(style) => Node::Any(style),
            Type::Never(style) => Node::Never(style),
            Type::TypeAlias(alias) => Node::TypeAlias(alias.name@, alias.style),
            Type::NoneType => Node::NoneType,
        }
    }

    /// The types directly inside this type, from left to right.
    pub open spec fn children(self) -> Seq<Type> {
        match self {
            Type::Callable(callable) => callable.children(),
            Type::Union(types) | Type::Intersect(types) => types@,
            Type::ClassType(class_type) => class_type.children(),
            Type::Tuple(tuple) => tuple.children(),
            Type::Forall(_, ty) => seq![*ty],
            Type::Type(ty) | Type::TypeGuard(ty) | Type::TypeIs(ty) | Type::Unpack(ty) => seq![*ty],
            Type::TypeAlias(alias) => seq![*alias.ty],
            _ => seq![],
        }
    }

    /// A type is bigger than the types directly inside it.
    pub proof fn child_is_smaller(self, i: int)
        requires
            0 <= i < self.children().len(),
        ensures
            decreases_to!(self => self.children()[i]),
    {
        match self {
            Type::Callable(callable) => {
                assert(decreases_to!(self => callable));
                match callable.params {
                    Params::List(args) => {
                        assert(decreases_to!(callable => callable.params));
                        assert(decreases_to!(callable.params => args));
                        assert(decreases_to!(args => args@));
                        if i < args@.len() {
                            assert(decreases_to!(args@ => args@[i]));
                            assert(decreases_to!(args@[i] => args@[i].ty));
                        } else {
                            assert(decreases_to!(callable => callable.ret));
                        }
                    },
                    Params::Ellipsis => {
                        assert(decreases_to!(callable => callable.ret));
                    },
                    Params::ParamSpec(ty) => {
                        assert(decreases_to!(callable => callable.params));
                        assert(decreases_to!(callable.params => ty));
                        assert(decreases_to!(callable => callable.ret));
                    },
                }
            },
            Type::Union(types) | Type::Intersect(types) => {
                assert(decreases_to!(self => types));
                assert(decreases_to!(types => types@));
                assert(decreases_to!(types@ => types@[i]));
            },
            Type::ClassType(class_type) => {
                assert(decreases_to!(self => class_type));
                assert(decreases_to!(class_type => class_type.1));
                assert(decreases_to!(class_type.1 => class_type.1.0));
                assert(decreases_to!(class_type.1.0 => class_type.1.0@));
                assert(decreases_to!(class_type.1.0@ => class_type.1.0@[i]));
            },
            Type::Tuple(tuple) => {
                assert(decreases_to!(self => tuple));
                match tuple {
                    Tuple::Concrete(elts) => {
                        assert(decreases_to!(tuple => elts));
                        assert(decreases_to!(elts => elts@));
                        assert(decreases_to!(elts@ => elts@[i]));
                    },
                    Tuple::Unbounded(ty) => {
                        assert(decreases_to!(tuple => ty));
                    },
                }
            },
            Type::Forall(_, ty) => {
                assert(decreases_to!(self => ty));
            },
            Type::Type(ty) | Type::TypeGuard(ty) | Type::TypeIs(ty) | Type::Unpack(ty) => {
                assert(decreases_to!(self => ty));
            },
            Type::TypeAlias(alias) => {
                assert(decreases_to!(self => alias));
                assert(decreases_to!(alias => alias.ty));
            },
            _ => {},
        }
    }

    /// What this type says.
    pub open spec fn tree(self) -> TypeTree
        decreases self,
    {
        proof {
            assert forall|i: int| 0 <= i < self.children().len() implies decreases_to!(
                self => #[trigger] self.children()[i]
            ) by {
                self.child_is_smaller(i);
            }
        }
        TypeTree {
            node: self.node(),
            children: Seq::new(
                self.children().len(),
                |i: int|
                    if 0 <= i < self.children().len() {
                        self.children()[i].tree()
                    } else {
                        arbitrary()
                    },
            ),
        }
    }
}

impl View for Type {
    type V = TypeTree;

    open spec fn view(&self) -> TypeTree {
        self.tree()
    }
}

impl Type {
    /// Shows the types directly inside this type to a visitor, from left to right.
    pub fn visit<'a, V: TypeVisitor<'a>>(&'a self, f: &mut V)
        requires
            old(f).ready(),
        ensures
            final(f).ready(),
            visits_all(*old(f), self.children(), *final(f)),
    {
        match self {
            Type::Callable(c) => c.visit(f),
            Type::Union(xs) | Type::Intersect(xs) => visit_types(xs, f),
            Type::ClassType(x) => x.visit(f),
            Type::Tuple(t) => t.visit(f),
            Type::Forall(_, x) => {
                f.visit_type(x);
                proof {
                    visits_one(*old(f), **x, *f);
                }
            },
            Type::Type(x)
            | Type::TypeGuard(x)
            | Type::TypeIs(x)
            | Type::Unpack(x)
            | Type::TypeAlias(TypeAlias { ty: x, .. }) => {
                f.visit_type(x);
                proof {
                    visits_one(*old(f), **x, *f);
                }
            },
            Type::Literal(_)
            | Type::Never(_)
            | Type::LiteralString
            | Type::Any(_)
            | Type::ClassDef(_)
            | Type::Var(_)
            | Type::NoneType
            | Type::Module(_)
            | Type::SpecialForm(_)
            | Type::Quantified(_)
            | Type::TypeVar(_)
            | Type::ParamSpec(_)
            | Type::Args(_)
            | Type::Kwargs(_)
            | Type::TypeVarTuple(_)
            | Type::Ellipsis => {
                proof {
                    visits_none(*f);
                }
            },
        }
    }

    /// The types directly inside this type, from left to right.
    pub(crate) fn child_refs(&self) -> (refs: Vec<&Type>)
        ensures
            refs.len() == self.children().len(),
            forall|i: int| 0 <= i < refs.len() ==> *(#[trigger] refs@[i]) == self.children()[i],
    {
        let mut refs = Refs { seen: Vec::new() };
        let ghost pre = refs;
        self.visit(&mut refs);
        proof {
            refs_append(pre, self.children(), refs);
        }
        refs.seen
    }

    /// The type at the given position of [`Type::children`].
    fn child_mut(&mut self, i: usize) -> (child: &mut Type)
        requires
            i < old(self).children().len(),
        ensures
            *child == old(self).children()[i as int],
            final(self).node() == old(self).node(),
            final(self).children() == old(self).children().update(i as int, *final(child)),
    {
        match self {
            Type::Callable(c) => c.child_mut(i),
            Type::Union(xs) => &mut xs[i],
            Type::Intersect(xs) => &mut xs[i],
            Type::ClassType(x) => x.child_mut(i),
            Type::Tuple(t) => t.child_mut(i),
            Type::Forall(_, x) => x,
            Type::Type(x) => x,
            Type::TypeGuard(x) => x,
            Type::TypeIs(x) => x,
            Type::Unpack(x) => x,
            Type::TypeAlias(TypeAlias { ty: x, .. }) => x,
            _ => self,
        }
    }

    /// Gives the types directly inside this type to a mutator, from left to right.
    pub fn visit_mut<M: TypeMutator>(&mut self, f: &mut M)
        requires
            old(f).ready(),
        ensures
            final(f).ready(),
            final(self).node() == old(self).node(),
            rewrites_all(*old(f), old(self).children(), final(self).children(), *final(f)),
    {
        let n = self.child_refs().len();
        let ghost before = self.children();
        let ghost mut states: Seq<M> = seq![*f];
        for i in 0..n
            invariant
                f.ready(),
                n == before.len(),
                self.node() == old(self).node(),
                before == old(self).children(),
                self.children().len() == n,
                self.children().skip(i as int) == before.skip(i as int),
                states.first() == *old(f),
                states.last() == *f,
                is_rewrite(states, before.take(i as int), self.children().take(i as int)),
        {
            let ghost mid = self.children();
            assert(mid[i as int] == mid.skip(i as int)[0] && before[i as int] == before.skip(
                i as int,
            )[0]);
            let child = self.child_mut(i);
            f.rewrite_type(child);
            proof {
                states = states.push(*f);
                let (x, y) = (before.take(i + 1), self.children().take(i + 1));
                assert forall|j: int| 0 <= j < x.len() implies M::rewrites(
                    states[j],
                    #[trigger] x[j],
                    y[j],
                    states[j + 1],
                ) by {
                    if j < i {
                        assert(x[j] == before.take(i as int)[j]);
                        assert(y[j] == mid.take(i as int)[j]);
                    }
                }
                assert forall|j: int| 0 <= j < n - i - 1 implies self.children().skip(i + 1)[j]
                    == #[trigger] before.skip(i + 1)[j] by {
                    assert(mid.skip(i as int)[j + 1] == before.skip(i as int)[j + 1]);
                }
                assert(self.children().skip(i + 1) == before.skip(i + 1));
            }
        }
        assert(before.take(n as int) == before);
        assert(self.children().take(n as int) == self.children());
    }

    /// For each of the types directly inside this type, the types in it.
    pub open spec fn child_orders(self) -> Seq<Seq<Type>>
        decreases self, 0nat,
    {
        proof {
            assert forall|i: int| 0 <= i < self.children().len() implies decreases_to!(
                self => #[trigger] self.children()[i]
            ) by {
                self.child_is_smaller(i);
            }
        }
        Seq::new(
            self.children().len(),
            |i: int|
                if 0 <= i < self.children().len() {
                    self.children()[i].post_order()
                } else {
                    arbitrary()
                },
        )
    }

    /// This type and the types inside it, from left to right, each after the types inside it.
    pub open spec fn post_order(self) -> Seq<Type>
        decreases self, 1nat,
    {
        self.child_orders().flatten().push(self)
    }

    /// Visit every type, with the guarantee you will have seen included types before the parent.
    pub fn universe<'a, V: TypeVisitor<'a>>(&'a self, f: &mut V)
        requires
            old(f).ready(),
        ensures
            final(f).ready(),
            visits_all(*old(f), self.post_order(), *final(f)),
        decreases self,
    {
        let refs = self.child_refs();
        let ghost pre = *f;
        let ghost orders = self.child_orders();
        proof {
            visits_none(pre);
            assert(orders.take(0).flatten() == Seq::<Type>::empty());
        }
        for i in 0..refs.len()
            invariant
                f.ready(),
                refs.len() == self.children().len(),
                forall|j: int| 0 <= j < refs.len() ==> *(#[trigger] refs@[j]) == self.children()[j],
                orders == self.child_orders(),
                visits_all(pre, orders.take(i as int).flatten(), *f),
        {
            let ghost mid = *f;
            proof {
                self.child_is_smaller(i as int);
            }
            refs[i].universe(f);
            proof {
                assert(orders.take(i + 1) == orders.take(i as int).push(orders[i as int]));
                orders.take(i as int).lemma_flatten_push(orders[i as int]);
                visits_both(pre, orders.take(i as int).flatten(), mid, orders[i as int], *f);
            }
        }
        let ghost mid = *f;
        f.visit_type(self);
        proof {
            assert(orders.take(refs.len() as int) == orders);
            visits_one(mid, *self, *f);
            visits_both(pre, orders.flatten(), mid, seq![*self], *f);
            assert(self.post_order() == orders.flatten() + seq![*self]);
        }
    }

    /// Visit every type, with the guarantee you will have seen included types before the parent.
    pub fn transform_mut<M: TypeMutator>(&mut self, f: &mut M)
        requires
            old(f).ready(),
        ensures
            final(f).ready(),
            transforms(*old(f), *old(self), *final(self), *final(f)),
        decreases *old(self),
    {
        let n = self.child_refs().len();
        let ghost before = *self;
        let ghost mut states: Seq<M> = seq![*f];
        for i in 0..n
            invariant
                f.ready(),
                n == before.children().len(),
                self.node() == before.node(),
                before == *old(self),
                self.children().len() == n,
                forall|j: int| i <= j < n ==> #[trigger] self.children()[j] == before.children()[j],
                states.len() == i + 1,
                states.first() == *old(f),
                states.last() == *f,
                forall|j: int|
                    0 <= j < i ==> transforms(
                        states[j],
                        #[trigger] before.children()[j],
                        self.children()[j],
                        states[j + 1],
                    ),
        {
            let ghost mid = self.children();
            let ghost was = states;
            proof {
                before.child_is_smaller(i as int);
            }
            let child = self.child_mut(i);
            assert(*child == before.children()[i as int]);
            child.transform_mut(f);
            proof {
                states = states.push(*f);
                assert forall|j: int| 0 <= j < i + 1 implies transforms(
                    states[j],
                    #[trigger] before.children()[j],
                    self.children()[j],
                    states[j + 1],
                ) by {
                    if j < i {
                        assert(transforms(was[j], before.children()[j], mid[j], was[j + 1]));
                    }
                }
            }
        }
        let ghost mid = *self;
        f.rewrite_type(self);
        assert(is_transform(states, before, mid));
    }

    pub fn transform<M: TypeMutator>(self, f: &mut M) -> (ty: Type)
        requires
            old(f).ready(),
        ensures
            final(f).ready(),
            transforms(*old(f), self, ty, *final(f)),
    {
        let mut ty = self;
        ty.transform_mut(f);
        ty
    }
}

/// The types of a list that are type parameters, as type parameters.
pub open spec fn quantifieds_of(tys: Seq<Type>) -> Seq<Quantified>
    decreases tys.len(),
{
    if tys.len() == 0 {
        seq![]
    } else {
        match tys.last() {
            Type::Quantified(q) => quantifieds_of(tys.drop_last()).push(q),
            _ => quantifieds_of(tys.drop_last()),
        }
    }
}

/// The elements of a list without those that stand further left as well.
pub open spec fn first_occurrences(qs: Seq<Quantified>) -> Seq<Quantified>
    decreases qs.len(),
{
    if qs.len() == 0 {
        seq![]
    } else {
        let rest = first_occurrences(qs.drop_last());
        if qs.drop_last().contains(qs.last()) {
            rest
        } else {
            rest.push(qs.last())
        }
    }
}

/// The variable that stands for a type parameter when the numbers from `first` on are handed out to
/// `gargs` from left to right. If the type parameter occurs more than once, it is the last variable
/// that counts.
pub open spec fn fresh_var(gargs: Seq<Quantified>, first: u64, q: Quantified) -> Var
    decreases gargs.len(),
{
    if gargs.len() == 0 {
        Var::numbered(0)
    } else if gargs.last() == q {
        Var::numbered((first + gargs.len() - 1) as u64)
    } else {
        fresh_var(gargs.drop_last(), first, q)
    }
}

/// The types that stand for type parameters when the numbers from `first` on are handed out to them
/// from left to right.
pub open spec fn fresh_types(gargs: Seq<Quantified>, first: u64) -> Map<Quantified, Type> {
    Map::new(
        |q: Quantified| gargs.contains(q),
        |q: Quantified| Type::Var(fresh_var(gargs, first, q)),
    )
}

/// The entries of a map that is filled with [`fresh_types`] from left to right.
pub(crate) open spec fn fresh_entries(gargs: Seq<Quantified>, first: u64) -> Seq<(Quantified, Type)> {
    first_occurrences(gargs).map_values(
        |q: Quantified| (q, Type::Var(fresh_var(gargs, first, q))),
    )
}

/// [`first_occurrences`] has every element of the list, and has it once.
pub proof fn first_occurrences_are_all(qs: Seq<Quantified>)
    ensures
        first_occurrences(qs).no_duplicates(),
        forall|q: Quantified| first_occurrences(qs).contains(q) <==> qs.contains(q),
    decreases qs.len(),
{
    if qs.len() > 0 {
        let (rest, last) = (qs.drop_last(), qs.last());
        first_occurrences_are_all(rest);
        let (a, b) = (first_occurrences(rest), first_occurrences(qs));
        assert forall|q: Quantified| b.contains(q) <==> qs.contains(q) by {
            assert(qs.contains(q) <==> rest.contains(q) || q == last) by {
                if rest.contains(q) {
                    let i = choose|i: int| 0 <= i < rest.len() && rest[i] == q;
                    assert(qs[i] == q);
                }
                assert(qs[qs.len() - 1] == last);
                if qs.contains(q) && q != last {
                    let i = choose|i: int| 0 <= i < qs.len() && qs[i] == q;
                    assert(rest[i] == q);
                }
            }
            if !rest.contains(last) {
                assert(b == a.push(last));
                assert(b[a.len() as int] == last);
                if a.contains(q) {
                    let i = choose|i: int| 0 <= i < a.len() && a[i] == q;
                    assert(b[i] == q);
                }
            }
        }
        if !rest.contains(last) {
            assert(!a.contains(last));
            assert(b == a.push(last));
        }
    }
}

proof fn fresh_types_step(
    was: SmallMap<Quantified, Type>,
    mp: SmallMap<Quantified, Type>,
    gargs: Seq<Quantified>,
    first: u64,
    x: Quantified,
    value: Type,
)
    requires
        first + gargs.len() <= u64::MAX,
        map_contents(was) == fresh_types(gargs, first),
        map_entries(was) == fresh_entries(gargs, first),
        value == Type::Var(Var::numbered((first + gargs.len()) as u64)),
        map_contents(mp) == map_contents(was).insert(x, value),
        !map_contents(was).contains_key(x) ==> map_entries(mp) == map_entries(was).push((x, value)),
        map_contents(was).contains_key(x) ==> exists|i: int|
            0 <= i < map_entries(was).len() && #[trigger] map_entries(was)[i] == (
                x,
                map_contents(was)[x],
            ) && map_entries(mp) == map_entries(was).update(i, (x, value)),
    ensures
        map_contents(mp) == fresh_types(gargs.push(x), first),
        map_entries(mp) == fresh_entries(gargs.push(x), first),
{
    let more = gargs.push(x);
    let occurrences = first_occurrences(gargs);
    assert(more.drop_last() == gargs);
    first_occurrences_are_all(gargs);
    assert forall|q: Quantified| more.contains(q) <==> gargs.contains(q) || q == x by {
        if gargs.contains(q) {
            let i = choose|i: int| 0 <= i < gargs.len() && gargs[i] == q;
            assert(more[i] == q);
        }
        assert(more[gargs.len() as int] == x);
    }
    assert(map_contents(mp) =~= fresh_types(more, first));
    if gargs.contains(x) {
        let i = choose|i: int|
            0 <= i < map_entries(was).len() && #[trigger] map_entries(was)[i] == (
                x,
                map_contents(was)[x],
            ) && map_entries(mp) == map_entries(was).update(i, (x, value));
        assert(first_occurrences(more) == occurrences);
        assert(occurrences[i] == x);
        assert(map_entries(mp) =~= fresh_entries(more, first)) by {
            assert forall|j: int| 0 <= j < occurrences.len() && j != i implies occurrences[j]
                != x by {}
        }
    } else {
        assert(first_occurrences(more) == occurrences.push(x));
        assert forall|j: int| 0 <= j < occurrences.len() implies occurrences[j] != x by {
            assert(occurrences.contains(occurrences[j]));
        }
        assert(map_entries(mp) =~= fresh_entries(more, first));
    }
}

/// What is in a set when the elements of a list have been added to it from left to right.
pub(crate) open spec fn collected(
    before: SmallSet<Quantified>,
    qs: Seq<Quantified>,
    after: SmallSet<Quantified>,
) -> bool {
    &&& set_contents(after) == set_contents(before).union(qs.to_set())
    &&& set_elements(after) == set_elements(before) + first_occurrences(qs).filter(
        |q: Quantified| !set_contents(before).contains(q),
    )
}

proof fn collected_push(
    before: SmallSet<Quantified>,
    qs: Seq<Quantified>,
    mid: SmallSet<Quantified>,
    after: SmallSet<Quantified>,
    q: Quantified,
)
    requires
        collected(before, qs, mid),
        set_contents(after) == set_contents(mid).insert(q),
        set_elements(after) == if set_contents(mid).contains(q) {
            set_elements(mid)
        } else {
            set_elements(mid).push(q)
        },
    ensures
        collected(before, qs.push(q), after),
{
    let new = |q: Quantified| !set_contents(before).contains(q);
    let (olds, news) = (first_occurrences(qs), first_occurrences(qs.push(q)));
    assert(qs.push(q).drop_last() == qs);
    assert(set_contents(after) =~= set_contents(before).union(qs.push(q).to_set())) by {
        assert forall|x: Quantified| qs.push(q).contains(x) <==> qs.contains(x) || x == q by {
            if qs.contains(x) {
                let i = choose|i: int| 0 <= i < qs.len() && qs[i] == x;
                assert(qs.push(q)[i] == x);
            }
            assert(qs.push(q)[qs.len() as int] == q);
        }
    }
    if qs.contains(q) {
        assert(set_elements(after) =~= set_elements(before) + news.filter(new));
    } else {
        assert(news == olds.push(q));
        Seq::<Quantified>::filter_distributes_over_add(olds, seq![q], new);
        assert(olds.push(q) == olds + seq![q]);
        reveal_with_fuel(Seq::filter, 2);
        assert(set_elements(after) =~= set_elements(before) + news.filter(new));
    }
}

/// A slice of one element: `std::slice::from_ref`.
#[verifier::external_body]
fn slice_from_ref(ty: &Type) -> (slice: &[Type])
    ensures
        slice@ == seq![*ty],
{
    std::slice::from_ref(ty)
}

/// `Arc::unwrap_or_clone`: what the `Arc` holds, which is cloned if it is shared.
#[verifier::external_body]
fn arc_unwrap_or_clone(arc: Arc<Type>) -> (ty: Type)
    ensures
        ty == *arc || cloned::<Type>(*arc, ty),
{
    Arc::unwrap_or_clone(arc)
}

impl Type {
    pub fn arc_clone(self: Arc<Self>) -> (ty: Self)
        ensures
            ty@ == self@,
    {
        arc_unwrap_or_clone(self)
    }

    /// The types that a union is made of. A type that is no union is made of itself.
    pub fn as_union(&self) -> (types: &[Type])
        ensures
            types@ == match *self {
                Type::Union(types) => types@,
                _ => seq![*self],
            },
    {
        match self {
            Type::Union(types) => types.as_slice(),
            _ => slice_from_ref(self),
        }
    }

    /// The types that an intersection is made of. A type that is no intersection is made of
    /// itself.
    pub fn as_intersect(&self) -> (types: &[Type])
        ensures
            types@ == match *self {
                Type::Intersect(types) => types@,
                _ => seq![*self],
            },
    {
        match self {
            Type::Intersect(types) => types.as_slice(),
            _ => slice_from_ref(self),
        }
    }

    pub fn never() -> (ty: Self)
        ensures
            ty == Type::Never(NeverStyle::Never),
    {
        Type::Never(NeverStyle::Never)
    }

    pub fn is_never(&self) -> (is: bool)
        ensures
            is == (self is Never),
    {
        match self {
            Type::Never(_) => true,
            _ => false,
        }
    }

    pub fn is_var(&self) -> (is: bool)
        ensures
            is == (self is Var),
    {
        matches!(self, Type::Var(_))
    }

    pub fn is_callable(&self) -> (is: bool)
        ensures
            is == (self is Callable),
    {
        matches!(self, Type::Callable(_))
    }

    pub fn as_class_with_args(&self) -> (class: Option<(&Class, &TArgs)>)
        ensures
            class == match *self {
                Type::ClassType(ClassType(cls, targs)) => Some((&cls, &targs)),
                _ => None,
            },
    {
        match self {
            Type::ClassType(ClassType(cls, targs)) => Some((cls, targs)),
            _ => None,
        }
    }

    pub fn as_var(&self) -> (var: Option<Var>)
        ensures
            var == match *self {
                Type::Var(v) => Some(v),
                _ => None,
            },
    {
        match self {
            Type::Var(v) => Some(*v),
            _ => None,
        }
    }

    pub fn as_module(&self) -> (module: Option<&Module>)
        ensures
            module == match *self {
                Type::Module(m) => Some(&m),
                _ => None,
            },
    {
        match self {
            Type::Module(m) => Some(m),
            _ => None,
        }
    }

    /// The type parameters of a type and what they are parameters of. A type that has none is what
    /// it is.
    pub fn as_forall(&self) -> (parts: (&[Quantified], &Type))
        ensures
            parts.0@ == self.binders(),
            *parts.1 == self.body(),
    {
        match self {
            Type::Forall(uniques, ty) => (uniques.as_slice(), ty),
            _ => (&[], self),
        }
    }

    /// The type parameters of the type.
    pub open spec fn binders(self) -> Seq<Quantified> {
        match self {
            Type::Forall(uniques, _) => uniques@,
            _ => seq![],
        }
    }

    /// The type without its type parameters.
    pub open spec fn body(self) -> Type {
        match self {
            Type::Forall(_, ty) => *ty,
            _ => self,
        }
    }

    /// Whether this is `ty` with type parameters added on the left of those that it has. With none
    /// at all, that is `ty` without the place for them.
    pub open spec fn is_for_all(self, uniques: Seq<Quantified>, ty: Type) -> bool {
        let binders = uniques + ty.binders();
        if binders.len() == 0 {
            self == ty.body()
        } else {
            self is Forall && self.binders() == binders && self.body() == ty.body()
        }
    }

    /// The type with type parameters added on the left of those that it has. With none at all, it
    /// is no generic type.
    pub fn for_all(uniques: Vec<Quantified>, ty: Type) -> (res: Self)
        ensures
            res.is_for_all(uniques@, ty),
    {
        let ghost binders = uniques@ + ty.binders();
        let mut uniques = uniques;
        let ty = match ty {
            Type::Forall(vars2, ty) => {
                let mut vars2 = vars2;
                uniques.append(&mut vars2);
                *ty
            },
            _ => ty,
        };
        assert(uniques@ =~= binders);
        if uniques.is_empty() {
            ty
        } else {
            Type::Forall(uniques, Box::new(ty))
        }
    }

    pub fn callable(args: Vec<Arg>, ret: Type) -> (ty: Self)
        ensures
            ty == Type::Callable(Box::new(Callable { params: Params::List(args), ret })),
    {
        Type::Callable(Box::new(Callable::list(args, ret)))
    }

    pub fn callable_ellipsis(ret: Type) -> (ty: Self)
        ensures
            ty == Type::Callable(Box::new(Callable { params: Params::Ellipsis, ret })),
    {
        Type::Callable(Box::new(Callable::ellipsis(ret)))
    }

    pub fn callable_param_spec(p: Type, ret: Type) -> (ty: Self)
        ensures
            ty == Type::Callable(Box::new(Callable { params: Params::ParamSpec(p), ret })),
    {
        Type::Callable(Box::new(Callable::param_spec(p, ret)))
    }

    pub fn class_type(cls: &Class, targs: TArgs) -> (ty: Self)
        ensures
            ty == Type::ClassType(ClassType(*cls, targs)),
    {
        Type::ClassType(ClassType(cls.dupe(), targs))
    }

    pub fn tuple(elts: Vec<Type>) -> (ty: Self)
        ensures
            ty == Type::Tuple(Tuple::Concrete(elts)),
    {
        Type::Tuple(Tuple::concrete(elts))
    }

    pub fn is_any(&self) -> (is: bool)
        ensures
            is == (self is Any),
    {
        matches!(self, Type::Any(_))
    }

    pub fn is_forall(&self) -> (is: bool)
        ensures
            is == (self is Forall),
    {
        matches!(self, Type::Forall(_, _))
    }

    /// Whether the type is the declaration of a type parameter of the given name.
    pub fn is_tvar_declaration(&self, name: &Name) -> (is: bool)
        ensures
            is == match *self {
                Type::TypeVar(x) => x@.id == name@,
                Type::TypeVarTuple(x) => x@.id == name@,
                Type::ParamSpec(x) => x@.id == name@,
                _ => false,
            },
    {
        match self {
            Type::TypeVar(x) => *x.qname().id() == *name,
            Type::TypeVarTuple(x) => *x.qname().id() == *name,
            Type::ParamSpec(x) => *x.qname().id() == *name,
            _ => false,
        }
    }

    pub fn is_none(&self) -> (is: bool)
        ensures
            is == (self is NoneType),
    {
        matches!(self, Type::NoneType)
    }

    /// Puts the types of a map in the place of the type parameters that it has them for. The types
    /// that are put in are left as they are.
    pub fn subst(self, mp: &SmallMap<Quantified, Type>) -> (ty: Self)
        ensures
            ty@ == self@.bottom_up(subst_step(map_contents(*mp))),
    {
        let mut f = Subst { mp };
        let ghost pre = f;
        let ghost before = self;
        let ty = self.transform(&mut f);
        proof {
            pre.is_subst(before, ty, f);
        }
        ty
    }

    /// Puts a type in the place of `Self`.
    pub fn subst_self_type_mut(&mut self, self_type: &Type)
        ensures
            final(self)@ == old(self)@.bottom_up(self_type_step(self_type@)),
    {
        let mut f = SubstSelfType { self_type };
        let ghost pre = f;
        self.transform_mut(&mut f);
        proof {
            pre.is_subst(*old(self), *self, f);
        }
    }

    /// Puts fresh variables in the place of type parameters. Returns the variables, in the order
    /// of the type parameters, and the type. A type parameter that is given more than once has one
    /// variable, the last of those made for it, in the place of its first occurrence.
    pub fn instantiate_fresh(self, gargs: &[Quantified], uniques: &mut UniqueFactory) -> (res: (
        Vec<Var>,
        Self,
    ))
        requires
            gargs.len() <= old(uniques).left(),
        ensures
            final(uniques).next() == old(uniques).next() + gargs.len(),
            res.0@ == first_occurrences(gargs@).map_values(
                |q: Quantified| fresh_var(gargs@, old(uniques).next(), q),
            ),
            res.1@ == self@.bottom_up(subst_step(fresh_types(gargs@, old(uniques).next()))),
    {
        let ghost first = uniques.next();
        let mut mp = new_map();
        for i in 0..gargs.len()
            invariant
                gargs.len() <= u64::MAX - first,
                uniques.next() == first + i,
                map_contents(mp) == fresh_types(gargs@.take(i as int), first),
                map_entries(mp) == fresh_entries(gargs@.take(i as int), first),
        {
            let x = gargs[i];
            let ghost was = mp;
            let ty = Var::new(uniques).to_type();
            let ghost value = ty;
            map_insert(&mut mp, x, ty);
            proof {
                fresh_types_step(was, mp, gargs@.take(i as int), first, x, value);
                assert(gargs@.take(i + 1) == gargs@.take(i as int).push(x));
            }
        }
        proof {
            assert(gargs@.take(gargs.len() as int) == gargs@);
        }
        let res = self.subst(&mp);
        let values = map_into_values(mp);
        let mut vars: Vec<Var> = Vec::new();
        for i in 0..values.len()
            invariant
                values@ == fresh_entries(gargs@, first).map_values(
                    |entry: (Quantified, Type)| entry.1,
                ),
                vars.len() == i,
                forall|j: int|
                    0 <= j < i ==> vars@[j] == fresh_var(
                        gargs@,
                        first,
                        first_occurrences(gargs@)[j],
                    ),
        {
            vars.push(values[i].as_var().unwrap());
        }
        (vars, res)
    }

    /// Adds the type parameters in this type to a set, in the order in which [`Type::universe`]
    /// comes to them.
    pub fn collect_quantifieds(&self, acc: &mut SmallSet<Quantified>)
        ensures
            set_contents(*final(acc)) == set_contents(*old(acc)).union(
                quantifieds_of(self.post_order()).to_set(),
            ),
            set_elements(*final(acc)) == set_elements(*old(acc)) + first_occurrences(
                quantifieds_of(self.post_order()),
            ).filter(|q: Quantified| !set_contents(*old(acc)).contains(q)),
    {
        let mut refs = Refs { seen: Vec::new() };
        let ghost pre = refs;
        self.universe(&mut refs);
        proof {
            refs_append(pre, self.post_order(), refs);
        }
        let ghost tys = self.post_order();
        proof {
            let qs = quantifieds_of(tys.take(0));
            assert(qs.to_set() =~= Set::empty());
            assert(set_contents(*acc).union(qs.to_set()) =~= set_contents(*acc));
            reveal(Seq::filter);
            assert(collected(*acc, qs, *acc));
        }
        for i in 0..refs.seen.len()
            invariant
                refs.seen.len() == tys.len(),
                forall|j: int| 0 <= j < tys.len() ==> *(#[trigger] refs.seen@[j]) == tys[j],
                collected(*old(acc), quantifieds_of(tys.take(i as int)), *acc),
        {
            let ghost was = *acc;
            proof {
                assert(tys.take(i + 1).drop_last() == tys.take(i as int));
            }
            if let Type::Quantified(x) = refs.seen[i] {
                set_insert(acc, *x);
                proof {
                    collected_push(*old(acc), quantifieds_of(tys.take(i as int)), was, *acc, *x);
                }
            }
        }
        assert(tys.take(tys.len() as int) == tys);
    }

    /// Whether a type is this type or a type inside it.
    pub fn contains(&self, x: &Type) -> (is: bool)
        ensures
            is == self@.has(x@),
        decreases self,
    {
        proof {
            tree_unfolds(*self);
        }
        if *self == *x {
            return true;
        }
        let refs = self.child_refs();
        for i in 0..refs.len()
            invariant
                self@ != x@,
                self@.children == trees(self.children()),
                refs.len() == self.children().len(),
                forall|j: int| 0 <= j < refs.len() ==> *(#[trigger] refs@[j]) == self.children()[j],
                forall|j: int| 0 <= j < i ==> !(#[trigger] self@.children[j]).has(x@),
        {
            proof {
                self.child_is_smaller(i as int);
            }
            if refs[i].contains(x) {
                assert(self@.children[i as int].has(x@));
                return true;
            }
        }
        false
    }

    /// Puts the types of all strings, numbers and so on in the place of literal types.
    pub fn promote_literals(self, stdlib: &Stdlib) -> (ty: Type)
        ensures
            ty@ == self@.bottom_up(promote_step(stdlib)),
    {
        let mut f = PromoteLiterals { stdlib };
        let ghost pre = f;
        let ghost before = self;
        let ty = self.transform(&mut f);
        proof {
            pre.is_promotion(before, ty, f);
        }
        ty
    }

    pub fn any_implicit() -> (ty: Self)
        ensures
            ty == Type::Any(AnyStyle::Implicit),
    {
        Type::Any(AnyStyle::Implicit)
    }

    pub fn any_explicit() -> (ty: Self)
        ensures
            ty == Type::Any(AnyStyle::Explicit),
    {
        Type::Any(AnyStyle::Explicit)
    }

    pub fn any_error() -> (ty: Self)
        ensures
            ty == Type::Any(AnyStyle::Error),
    {
        Type::Any(AnyStyle::Error)
    }

    /// Makes every `Any` in the type one that the user wrote.
    pub fn explicit_any(self) -> (ty: Self)
        ensures
            ty@ == self@.bottom_up(explicit_step()),
    {
        let mut f = ExplicitAny;
        let ghost pre = f;
        let ghost before = self;
        let ty = self.transform(&mut f);
        proof {
            pre.is_explicit(before, ty, f);
        }
        ty
    }

    /// Used prior to display to ensure unique variables don't leak out non-deterministically.
    pub fn deterministic_printing(self) -> (ty: Self)
        ensures
            ty@ == self@.bottom_up(anonymous_step()),
    {
        let mut f = Anonymous;
        let ghost pre = f;
        let ghost before = self;
        let ty = self.transform(&mut f);
        proof {
            pre.is_anonymous(before, ty, f);
        }
        ty
    }

    /// The result of calling bool() on a value of this type if we can get a definitive answer, None
    /// otherwise.
    pub fn as_bool(&self) -> (answer: Option<bool>)
        ensures
            answer == self@.truth(),
        decreases self,
    {
        proof {
            tree_unfolds(*self);
        }
        match self {
            Type::Literal(Lit::Bool(x)) => Some(*x),
            Type::Literal(Lit::Int(x)) => Some(*x != 0),
            Type::Literal(Lit::Bytes(x)) => Some(!x.is_empty()),
            Type::Literal(Lit::String(x)) => Some(!x.as_str().is_empty()),
            Type::NoneType => Some(false),
            Type::Union(options) => {
                let mut answer: Option<bool> = None;
                for i in 0..options.len()
                    invariant
                        *self == Type::Union(*options),
                        self@.node == Node::Union,
                        self@.children == trees(options@),
                        i == 0 ==> answer is None,
                        i > 0 ==> answer is Some,
                        forall|j: int|
                            0 <= j < i ==> (#[trigger] self@.children[j]).truth() == answer,
                {
                    proof {
                        self.child_is_smaller(i as int);
                        assert(self.children()[i as int] == options@[i as int]);
                        assert(self@.children[i as int] == options@[i as int]@);
                    }
                    let option_bool = options[i].as_bool();
                    if option_bool.is_none() {
                        return None;
                    }
                    if answer.is_none() {
                        answer = option_bool;
                    } else if answer != option_bool {
                        return None;
                    }
                }
                answer
            },
            _ => None,
        }
    }
}

} // verus!
