//! Copying types and telling them apart.
//!
//! Both go by what a type says, its [`TypeTree`](crate::tree::TypeTree).
use crate::callable::{Arg, Callable, Params};
use crate::class::{ClassType, TArgs};
use crate::laws_of_equality::{
    same_args, same_params_have_same_trees, same_types_have_same_trees,
};
use crate::name::Name;
use crate::tuple::Tuple;
use crate::tree::{tree_unfolds, trees};
use crate::types::{LegacyTypeParameterLookup, Quantified, QuantifiedVec, Type, TypeAlias};
use vstd::prelude::*;

verus! {

fn clone_name(name: &Option<Name>) -> (copy: Option<Name>)
    ensures
        match *name {
            Some(name) => copy matches Some(c) && c@ == name@,
            None => copy is None,
        },
{
    match name {
        Some(name) => Some(name.clone()),
        None => None,
    }
}

fn same_name(a: &Option<Name>, b: &Option<Name>) -> (same: bool)
    ensures
        same == match (*a, *b) {
            (Some(x), Some(y)) => x@ == y@,
            (None, None) => true,
            _ => false,
        },
{
    match (a, b) {
        (Some(x), Some(y)) => *x == *y,
        (None, None) => true,
        _ => false,
    }
}

/// The same type parameters in the same order.
pub(crate) fn clone_quantifieds(quantifieds: &Vec<Quantified>) -> (copy: Vec<Quantified>)
    ensures
        copy@ == quantifieds@,
{
    let mut copy: Vec<Quantified> = Vec::new();
    for i in 0..quantifieds.len()
        invariant
            copy@ == quantifieds@.take(i as int),
    {
        copy.push(quantifieds[i]);
    }
    copy
}

fn same_quantifieds(a: &Vec<Quantified>, b: &Vec<Quantified>) -> (same: bool)
    ensures
        same == (a@ == b@),
{
    if a.len() != b.len() {
        return false;
    }
    for i in 0..a.len()
        invariant
            a.len() == b.len(),
            forall|j: int| 0 <= j < i ==> a@[j] == b@[j],
    {
        if a[i] != b[i] {
            return false;
        }
    }
    assert(a@ =~= b@);
    true
}

fn clone_types(types: &Vec<Type>) -> (copy: Vec<Type>)
    ensures
        trees(copy@) == trees(types@),
    decreases types, 0nat,
{
    let mut copy: Vec<Type> = Vec::new();
    for i in 0..types.len()
        invariant
            copy.len() == i,
            forall|j: int| 0 <= j < i ==> (#[trigger] copy@[j])@ == types@[j]@,
    {
        assert(decreases_to!(types => types@));
        assert(decreases_to!(types@ => types@[i as int]));
        copy.push(clone_type(&types[i]));
    }
    copy
}

fn clone_args(args: &Vec<Arg>) -> (copy: Vec<Arg>)
    ensures
        copy.len() == args.len(),
        forall|j: int|
            0 <= j < args.len() ==> (#[trigger] copy@[j]).ty@ == args@[j].ty@ && copy@[j].shape()
                == args@[j].shape(),
    decreases args, 0nat,
{
    let mut copy: Vec<Arg> = Vec::new();
    for i in 0..args.len()
        invariant
            copy.len() == i,
            forall|j: int|
                0 <= j < i ==> (#[trigger] copy@[j]).ty@ == args@[j].ty@ && copy@[j].shape()
                    == args@[j].shape(),
    {
        assert(decreases_to!(args => args@));
        assert(decreases_to!(args@ => args@[i as int]));
        assert(decreases_to!(args@[i as int] => args@[i as int].ty));
        let arg = &args[i];
        copy.push(
            Arg {
                kind: arg.kind,
                name: clone_name(&arg.name),
                required: arg.required,
                ty: clone_type(&arg.ty),
            },
        );
    }
    copy
}

fn clone_params(params: &Params) -> (copy: Params)
    ensures
        copy.shape() == params.shape(),
        trees(copy.types()) == trees(params.types()),
    decreases params, 0nat,
{
    let copy = match params {
        Params::List(args) => {
            let copy = clone_args(args);
            assert(copy@.map_values(|arg: Arg| arg.shape()) =~= args@.map_values(
                |arg: Arg| arg.shape(),
            ));
            Params::List(copy)
        },
        Params::Ellipsis => Params::Ellipsis,
        Params::ParamSpec(ty) => Params::ParamSpec(clone_type(ty)),
    };
    assert(trees(copy.types()) =~= trees(params.types()));
    copy
}

fn clone_callable(callable: &Callable) -> (copy: Callable)
    ensures
        copy.shape() == callable.shape(),
        trees(copy.children()) == trees(callable.children()),
    decreases callable, 0nat,
{
    let copy = Callable {
        params: clone_params(&callable.params),
        ret: clone_type(&callable.ret),
    };
    assert(trees(copy.children()) =~= trees(copy.params.types()).push(copy.ret@));
    assert(trees(callable.children()) =~= trees(callable.params.types()).push(callable.ret@));
    copy
}

fn clone_tuple(tuple: &Tuple) -> (copy: Tuple)
    ensures
        copy.shape() == tuple.shape(),
        trees(copy.children()) == trees(tuple.children()),
    decreases tuple, 0nat,
{
    match tuple {
        Tuple::Concrete(elts) => Tuple::Concrete(clone_types(elts)),
        Tuple::Unbounded(ty) => Tuple::Unbounded(Box::new(clone_type(ty))),
    }
}

fn clone_type(ty: &Type) -> (copy: Type)
    ensures
        copy@ == ty@,
    decreases ty, 0nat,
{
    broadcast use tree_unfolds;

    let copy = match ty {
        Type::Literal(lit) => Type::Literal(lit.clone()),
        Type::LiteralString => Type::LiteralString,
        Type::Callable(c) => Type::Callable(Box::new(clone_callable(c))),
        Type::Union(xs) => Type::Union(clone_types(xs)),
        Type::Intersect(xs) => Type::Intersect(clone_types(xs)),
        Type::ClassDef(class) => Type::ClassDef(class.dupe()),
        Type::ClassType(x) => Type::ClassType(ClassType(x.0.dupe(), TArgs(clone_types(&x.1.0)))),
        Type::Tuple(t) => Type::Tuple(clone_tuple(t)),
        Type::Module(module) => Type::Module(module.clone()),
        Type::Forall(qs, x) => Type::Forall(clone_quantifieds(qs), Box::new(clone_type(x))),
        Type::Var(v) => Type::Var(*v),
        Type::Quantified(q) => Type::Quantified(*q),
        Type::TypeGuard(x) => Type::TypeGuard(Box::new(clone_type(x))),
        Type::TypeIs(x) => Type::TypeIs(Box::new(clone_type(x))),
        Type::Unpack(x) => Type::Unpack(Box::new(clone_type(x))),
        Type::TypeVar(x) => Type::TypeVar(x.clone()),
        Type::ParamSpec(x) => Type::ParamSpec(x.clone()),
        Type::TypeVarTuple(x) => Type::TypeVarTuple(x.clone()),
        Type::SpecialForm(form) => Type::SpecialForm(*form),
        Type::Args(id) => Type::Args(*id),
        Type::Kwargs(id) => Type::Kwargs(*id),
        Type::Type(x) => Type::Type(Box::new(clone_type(x))),
        Type::Ellipsis => Type::Ellipsis,
        Type::Any(style) => Type::Any(*style),
        Type::Never(style) => Type::Never(*style),
        Type::TypeAlias(alias) => {
            assert(decreases_to!(ty => alias));
            Type::TypeAlias(
                TypeAlias {
                    name: alias.name.clone(),
                    ty: Box::new(clone_type(&alias.ty)),
                    style: alias.style,
                },
            )
        },
        Type::NoneType => Type::NoneType,
    };
    assert(trees(copy.children()) =~= trees(ty.children()));
    copy
}

fn same_shapes(a: &Vec<Arg>, b: &Vec<Arg>) -> (same: bool)
    ensures
        same == (a@.map_values(|arg: Arg| arg.shape()) == b@.map_values(|arg: Arg| arg.shape())),
{
    let ghost x = a@.map_values(|arg: Arg| arg.shape());
    let ghost y = b@.map_values(|arg: Arg| arg.shape());
    if a.len() != b.len() {
        assert(x.len() != y.len());
        return false;
    }
    for i in 0..a.len()
        invariant
            a.len() == b.len(),
            x == a@.map_values(|arg: Arg| arg.shape()),
            y == b@.map_values(|arg: Arg| arg.shape()),
            forall|j: int| 0 <= j < i ==> x[j] == y[j],
    {
        if a[i].kind != b[i].kind || a[i].required != b[i].required || !same_name(
            &a[i].name,
            &b[i].name,
        ) {
            assert(x[i as int] != y[i as int]);
            return false;
        }
    }
    assert(x =~= y);
    true
}

fn same_shape(a: &Params, b: &Params) -> (same: bool)
    ensures
        same == (a.shape() == b.shape()),
{
    match (a, b) {
        (Params::List(x), Params::List(y)) => same_shapes(x, y),
        (Params::Ellipsis, Params::Ellipsis) => true,
        (Params::ParamSpec(_), Params::ParamSpec(_)) => true,
        _ => false,
    }
}

/// Whether the roots of two types say the same.
fn same_node(a: &Type, b: &Type) -> (same: bool)
    ensures
        same == (a.node() == b.node()),
{
    match (a, b) {
        (Type::Literal(x), Type::Literal(y)) => *x == *y,
        (Type::LiteralString, Type::LiteralString) => true,
        (Type::Callable(x), Type::Callable(y)) => same_shape(&x.params, &y.params),
        (Type::Union(_), Type::Union(_)) => true,
        (Type::Intersect(_), Type::Intersect(_)) => true,
        (Type::ClassDef(x), Type::ClassDef(y)) => *x == *y,
        (Type::ClassType(x), Type::ClassType(y)) => x.0 == y.0,
        (Type::Tuple(Tuple::Concrete(_)), Type::Tuple(Tuple::Concrete(_))) => true,
        (Type::Tuple(Tuple::Unbounded(_)), Type::Tuple(Tuple::Unbounded(_))) => true,
        (Type::Module(x), Type::Module(y)) => *x == *y,
        (Type::Forall(x, _), Type::Forall(y, _)) => same_quantifieds(x, y),
        (Type::Var(x), Type::Var(y)) => *x == *y,
        (Type::Quantified(x), Type::Quantified(y)) => *x == *y,
        (Type::TypeGuard(_), Type::TypeGuard(_)) => true,
        (Type::TypeIs(_), Type::TypeIs(_)) => true,
        (Type::Unpack(_), Type::Unpack(_)) => true,
        (Type::TypeVar(x), Type::TypeVar(y)) => *x == *y,
        (Type::ParamSpec(x), Type::ParamSpec(y)) => *x == *y,
        (Type::TypeVarTuple(x), Type::TypeVarTuple(y)) => *x == *y,
        (Type::SpecialForm(x), Type::SpecialForm(y)) => *x == *y,
        (Type::Args(x), Type::Args(y)) => *x == *y,
        (Type::Kwargs(x), Type::Kwargs(y)) => *x == *y,
        (Type::Type(_), Type::Type(_)) => true,
        (Type::Ellipsis, Type::Ellipsis) => true,
        (Type::Any(x), Type::Any(y)) => *x == *y,
        (Type::Never(x), Type::Never(y)) => *x == *y,
        (Type::TypeAlias(x), Type::TypeAlias(y)) => x.name == y.name && x.style == y.style,
        (Type::NoneType, Type::NoneType) => true,
        _ => false,
    }
}

/// Whether two types say the same.
fn same_type(a: &Type, b: &Type) -> (same: bool)
    ensures
        same == (a@ == b@),
    decreases a,
{
    broadcast use tree_unfolds;

    if !same_node(a, b) {
        return false;
    }
    let xs = a.child_refs();
    let ys = b.child_refs();
    if xs.len() != ys.len() {
        assert(a@.children.len() != b@.children.len());
        return false;
    }
    for i in 0..xs.len()
        invariant
            xs.len() == a.children().len(),
            ys.len() == b.children().len(),
            xs.len() == ys.len(),
            forall|j: int| 0 <= j < xs.len() ==> *(#[trigger] xs@[j]) == a.children()[j],
            forall|j: int| 0 <= j < ys.len() ==> *(#[trigger] ys@[j]) == b.children()[j],
            forall|j: int| 0 <= j < i ==> (#[trigger] a.children()[j])@ == b.children()[j]@,
    {
        proof {
            a.child_is_smaller(i as int);
        }
        if !same_type(xs[i], ys[i]) {
            proof {
                tree_unfolds(*a);
                tree_unfolds(*b);
                assert(trees(a.children())[i as int] != trees(b.children())[i as int]);
            }
            return false;
        }
    }
    assert(trees(a.children()) =~= trees(b.children()));
    true
}

/// Whether two lists of types say the same.
fn same_types(a: &Vec<Type>, b: &Vec<Type>) -> (same: bool)
    ensures
        same == (trees(a@) == trees(b@)),
{
    if a.len() != b.len() {
        assert(trees(a@).len() != trees(b@).len());
        return false;
    }
    for i in 0..a.len()
        invariant
            a.len() == b.len(),
            forall|j: int| 0 <= j < i ==> (#[trigger] a@[j])@ == b@[j]@,
    {
        if !same_type(&a[i], &b[i]) {
            assert(trees(a@)[i as int] != trees(b@)[i as int]);
            return false;
        }
    }
    assert(trees(a@) =~= trees(b@));
    true
}

/// Whether the types of two lists of parameters say the same.
fn same_arg_types(a: &Vec<Arg>, b: &Vec<Arg>) -> (same: bool)
    ensures
        same == (trees(a@.map_values(|arg: Arg| arg.ty)) == trees(
            b@.map_values(|arg: Arg| arg.ty),
        )),
{
    let ghost x = trees(a@.map_values(|arg: Arg| arg.ty));
    let ghost y = trees(b@.map_values(|arg: Arg| arg.ty));
    if a.len() != b.len() {
        assert(x.len() != y.len());
        return false;
    }
    for i in 0..a.len()
        invariant
            a.len() == b.len(),
            x == trees(a@.map_values(|arg: Arg| arg.ty)),
            y == trees(b@.map_values(|arg: Arg| arg.ty)),
            forall|j: int| 0 <= j < i ==> x[j] == y[j],
    {
        if !same_type(&a[i].ty, &b[i].ty) {
            assert(x[i as int] != y[i as int]);
            return false;
        }
    }
    assert(x =~= y);
    true
}

/// Whether the parameters of two callables say the same.
fn same_params(a: &Params, b: &Params) -> (same: bool)
    ensures
        same == (a.shape() == b.shape() && trees(a.types()) == trees(b.types())),
{
    match (a, b) {
        (Params::List(x), Params::List(y)) => same_shapes(x, y) && same_arg_types(x, y),
        (Params::Ellipsis, Params::Ellipsis) => true,
        (Params::ParamSpec(x), Params::ParamSpec(y)) => {
            let same = same_type(x, y);
            proof {
                let (p, q) = (trees(a.types()), trees(b.types()));
                assert(p[0] == x@ && q[0] == y@);
                if same {
                    assert(p =~= q);
                }
            }
            same
        },
        _ => false,
    }
}

impl Clone for Type {
    fn clone(&self) -> (copy: Type)
        ensures
            copy@ == self@,
    {
        clone_type(self)
    }
}

impl PartialEq for Type {
    fn eq(&self, other: &Type) -> (same: bool)
        ensures
            same == (self@ == other@),
    {
        same_type(self, other)
    }
}

impl vstd::std_specs::cmp::PartialEqSpecImpl for Type {
    open spec fn obeys_eq_spec() -> bool {
        true
    }

    open spec fn eq_spec(&self, other: &Type) -> bool {
        self@ == other@
    }
}

impl Clone for TypeAlias {
    fn clone(&self) -> (copy: TypeAlias)
        ensures
            copy.name@ == self.name@,
            copy.ty@ == self.ty@,
            copy.style == self.style,
    {
        TypeAlias {
            name: self.name.clone(),
            ty: Box::new(clone_type(&self.ty)),
            style: self.style,
        }
    }
}

impl PartialEq for TypeAlias {
    fn eq(&self, other: &TypeAlias) -> (same: bool)
        ensures
            same == (self.name@ == other.name@ && self.ty@ == other.ty@ && self.style
                == other.style),
    {
        self.name == other.name && same_type(&self.ty, &other.ty) && self.style == other.style
    }
}

impl vstd::std_specs::cmp::PartialEqSpecImpl for TypeAlias {
    open spec fn obeys_eq_spec() -> bool {
        true
    }

    open spec fn eq_spec(&self, other: &TypeAlias) -> bool {
        self.name@ == other.name@ && self.ty@ == other.ty@ && self.style == other.style
    }
}

impl Clone for TArgs {
    fn clone(&self) -> (copy: TArgs)
        ensures
            trees(copy.0@) == trees(self.0@),
    {
        TArgs(clone_types(&self.0))
    }
}

impl PartialEq for TArgs {
    fn eq(&self, other: &TArgs) -> (same: bool)
        ensures
            same == (self.0@.len() == other.0@.len() && forall|i: int|
                0 <= i < self.0@.len() ==> (#[trigger] self.0@[i])@ == other.0@[i]@),
    {
        proof {
            same_types_have_same_trees(self.0@, other.0@);
        }
        same_types(&self.0, &other.0)
    }
}

impl vstd::std_specs::cmp::PartialEqSpecImpl for TArgs {
    open spec fn obeys_eq_spec() -> bool {
        true
    }

    open spec fn eq_spec(&self, other: &TArgs) -> bool {
        trees(self.0@) == trees(other.0@)
    }
}

impl Clone for ClassType {
    fn clone(&self) -> (copy: ClassType)
        ensures
            copy.0 == self.0,
            trees(copy.children()) == trees(self.children()),
    {
        ClassType(self.0.dupe(), TArgs(clone_types(&self.1.0)))
    }
}

impl PartialEq for ClassType {
    fn eq(&self, other: &ClassType) -> (same: bool)
        ensures
            same == (self.0@ == other.0@ && self.1.0@.len() == other.1.0@.len() && forall|i: int|
                0 <= i < self.1.0@.len() ==> (#[trigger] self.1.0@[i])@ == other.1.0@[i]@),
    {
        proof {
            same_types_have_same_trees(self.1.0@, other.1.0@);
        }
        self.0 == other.0 && same_types(&self.1.0, &other.1.0)
    }
}

impl vstd::std_specs::cmp::PartialEqSpecImpl for ClassType {
    open spec fn obeys_eq_spec() -> bool {
        true
    }

    open spec fn eq_spec(&self, other: &ClassType) -> bool {
        self.0@ == other.0@ && trees(self.children()) == trees(other.children())
    }
}

impl Clone for Tuple {
    fn clone(&self) -> (copy: Tuple)
        ensures
            copy.shape() == self.shape(),
            trees(copy.children()) == trees(self.children()),
    {
        clone_tuple(self)
    }
}

impl PartialEq for Tuple {
    fn eq(&self, other: &Tuple) -> (same: bool)
        ensures
            same == match (*self, *other) {
                (Tuple::Concrete(x), Tuple::Concrete(y)) => x@.len() == y@.len() && forall|i: int|
                    0 <= i < x@.len() ==> (#[trigger] x@[i])@ == y@[i]@,
                (Tuple::Unbounded(x), Tuple::Unbounded(y)) => x@ == y@,
                _ => false,
            },
    {
        match (self, other) {
            (Tuple::Concrete(x), Tuple::Concrete(y)) => {
                proof {
                    same_types_have_same_trees(x@, y@);
                }
                same_types(x, y)
            },
            (Tuple::Unbounded(x), Tuple::Unbounded(y)) => {
                let same = same_type(x, y);
                proof {
                    let (p, q) = (trees(self.children()), trees(other.children()));
                    assert(p[0] == x@ && q[0] == y@);
                    if same {
                        assert(p =~= q);
                    }
                }
                same
            },
            _ => false,
        }
    }
}

impl vstd::std_specs::cmp::PartialEqSpecImpl for Tuple {
    open spec fn obeys_eq_spec() -> bool {
        true
    }

    open spec fn eq_spec(&self, other: &Tuple) -> bool {
        self.shape() == other.shape() && trees(self.children()) == trees(other.children())
    }
}

impl Clone for Arg {
    fn clone(&self) -> (copy: Arg)
        ensures
            copy.shape() == self.shape(),
            copy.ty@ == self.ty@,
    {
        Arg {
            kind: self.kind,
            name: clone_name(&self.name),
            required: self.required,
            ty: clone_type(&self.ty),
        }
    }
}

impl PartialEq for Arg {
    fn eq(&self, other: &Arg) -> (same: bool)
        ensures
            same == (self.kind == other.kind && self.required == other.required && self.ty@ == other.ty@ && match (
                    self.name,
                    other.name,
                ) {
                    (Some(x), Some(y)) => x@ == y@,
                    (None, None) => true,
                    _ => false,
                }),
    {
        self.kind == other.kind && same_name(&self.name, &other.name) && self.required
            == other.required && same_type(&self.ty, &other.ty)
    }
}

impl vstd::std_specs::cmp::PartialEqSpecImpl for Arg {
    open spec fn obeys_eq_spec() -> bool {
        true
    }

    open spec fn eq_spec(&self, other: &Arg) -> bool {
        self.shape() == other.shape() && self.ty@ == other.ty@
    }
}

impl Clone for Params {
    fn clone(&self) -> (copy: Params)
        ensures
            copy.shape() == self.shape(),
            trees(copy.types()) == trees(self.types()),
    {
        clone_params(self)
    }
}

impl PartialEq for Params {
    fn eq(&self, other: &Params) -> (same: bool)
        ensures
            same == match (*self, *other) {
                (Params::List(x), Params::List(y)) => same_args(x@, y@),
                (Params::Ellipsis, Params::Ellipsis) => true,
                (Params::ParamSpec(x), Params::ParamSpec(y)) => x@ == y@,
                _ => false,
            },
    {
        proof {
            same_params_have_same_trees(*self, *other);
        }
        same_params(self, other)
    }
}

impl vstd::std_specs::cmp::PartialEqSpecImpl for Params {
    open spec fn obeys_eq_spec() -> bool {
        true
    }

    open spec fn eq_spec(&self, other: &Params) -> bool {
        self.shape() == other.shape() && trees(self.types()) == trees(other.types())
    }
}

impl Clone for Callable {
    fn clone(&self) -> (copy: Callable)
        ensures
            copy.shape() == self.shape(),
            trees(copy.children()) == trees(self.children()),
    {
        clone_callable(self)
    }
}

impl PartialEq for Callable {
    fn eq(&self, other: &Callable) -> (same: bool)
        ensures
            same == (self.ret@ == other.ret@ && match (self.params, other.params) {
                (Params::List(x), Params::List(y)) => same_args(x@, y@),
                (Params::Ellipsis, Params::Ellipsis) => true,
                (Params::ParamSpec(x), Params::ParamSpec(y)) => x@ == y@,
                _ => false,
            }),
    {
        proof {
            same_params_have_same_trees(self.params, other.params);
        }
        let same = same_params(&self.params, &other.params) && same_type(&self.ret, &other.ret);
        proof {
            let (p, q) = (trees(self.params.types()), trees(other.params.types()));
            let (x, y) = (trees(self.children()), trees(other.children()));
            assert(x =~= p.push(self.ret@) && y =~= q.push(other.ret@));
            if x == y {
                assert(x.drop_last() == p && y.drop_last() == q);
                assert(x.last() == self.ret@ && y.last() == other.ret@);
            }
        }
        same
    }
}

impl vstd::std_specs::cmp::PartialEqSpecImpl for Callable {
    open spec fn obeys_eq_spec() -> bool {
        true
    }

    open spec fn eq_spec(&self, other: &Callable) -> bool {
        self.shape() == other.shape() && trees(self.children()) == trees(other.children())
    }
}

impl Clone for QuantifiedVec {
    fn clone(&self) -> (copy: QuantifiedVec)
        ensures
            copy.0@ == self.0@,
    {
        QuantifiedVec(clone_quantifieds(&self.0))
    }
}

impl Clone for LegacyTypeParameterLookup {
    fn clone(&self) -> (copy: LegacyTypeParameterLookup)
        ensures
            match (copy, *self) {
                (
                    LegacyTypeParameterLookup::Parameter(x),
                    LegacyTypeParameterLookup::Parameter(y),
                ) => x == y,
                (
                    LegacyTypeParameterLookup::NotParameter(x),
                    LegacyTypeParameterLookup::NotParameter(y),
                ) => x@ == y@,
                _ => false,
            },
    {
        match self {
            LegacyTypeParameterLookup::Parameter(q) => LegacyTypeParameterLookup::Parameter(*q),
            LegacyTypeParameterLookup::NotParameter(ty) => LegacyTypeParameterLookup::NotParameter(
                clone_type(ty),
            ),
        }
    }
}

impl PartialEq for LegacyTypeParameterLookup {
    fn eq(&self, other: &LegacyTypeParameterLookup) -> (same: bool)
        ensures
            same == match (*self, *other) {
                (
                    LegacyTypeParameterLookup::Parameter(x),
                    LegacyTypeParameterLookup::Parameter(y),
                ) => x == y,
                (
                    LegacyTypeParameterLookup::NotParameter(x),
                    LegacyTypeParameterLookup::NotParameter(y),
                ) => x@ == y@,
                _ => false,
            },
    {
        match (self, other) {
            (
                LegacyTypeParameterLookup::Parameter(x),
                LegacyTypeParameterLookup::Parameter(y),
            ) => *x == *y,
            (
                LegacyTypeParameterLookup::NotParameter(x),
                LegacyTypeParameterLookup::NotParameter(y),
            ) => same_type(x, y),
            _ => false,
        }
    }
}

impl vstd::std_specs::cmp::PartialEqSpecImpl for LegacyTypeParameterLookup {
    open spec fn obeys_eq_spec() -> bool {
        true
    }

    open spec fn eq_spec(&self, other: &LegacyTypeParameterLookup) -> bool {
        match (*self, *other) {
            (
                LegacyTypeParameterLookup::Parameter(x),
                LegacyTypeParameterLookup::Parameter(y),
            ) => x == y,
            (
                LegacyTypeParameterLookup::NotParameter(x),
                LegacyTypeParameterLookup::NotParameter(y),
            ) => x@ == y@,
            _ => false,
        }
    }
}

} // verus!
