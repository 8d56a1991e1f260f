use pyre_types::callable::{Arg, ArgKind, Callable, Params};
use pyre_types::class::{Class, ClassType, TArgs};
use pyre_types::literal::Lit;
use pyre_types::module::Module;
use pyre_types::name::{Name, QName};
use pyre_types::special_form::SpecialForm;
use pyre_types::tuple::Tuple;
use pyre_types::type_var::{ParamSpec, TypeVar, TypeVarTuple};
use pyre_types::types::{
    AnyStyle, LegacyTypeParameterLookup, NeverStyle, Quantified, QuantifiedKind, QuantifiedVec,
    Type, TypeAlias, TypeAliasStyle, Var,
};
use pyre_types::uniques::{Unique, UniqueFactory};
use pyre_types::visitor::{Refs, TypeMutator};
use std::sync::Arc;

fn qname(id: &str) -> QName {
    QName::new(Name::new("m"), Name::new(id))
}

fn class(id: &str) -> Class {
    Class::new(qname(id))
}

fn bool_lit(x: bool) -> Type {
    Type::Literal(Lit::Bool(x))
}

fn arg(ty: Type) -> Arg {
    Arg { kind: ArgKind::Pos, name: Some(Name::new("x")), required: true, ty }
}

#[test]
fn test_as_bool() {
    let true_lit = Type::Literal(Lit::Bool(true));
    let false_lit = Type::Literal(Lit::Bool(false));
    let none = Type::NoneType;
    let s = Type::LiteralString;

    assert_eq!(true_lit.as_bool(), Some(true));
    assert_eq!(false_lit.as_bool(), Some(false));
    assert_eq!(none.as_bool(), Some(false));
    assert_eq!(s.as_bool(), None);
}

#[test]
fn test_as_bool_union() {
    let s = Type::LiteralString;
    let false_lit = Type::Literal(Lit::Bool(false));
    let none = Type::NoneType;

    let str_opt = Type::Union(vec![s, none.clone()]);
    let false_opt = Type::Union(vec![false_lit, none]);

    assert_eq!(str_opt.as_bool(), None);
    assert_eq!(false_opt.as_bool(), Some(false));
}

#[test]
fn as_bool_of_each_literal() {
    assert_eq!(Type::Literal(Lit::Int(0)).as_bool(), Some(false));
    assert_eq!(Type::Literal(Lit::Int(-7)).as_bool(), Some(true));
    assert_eq!(Type::Literal(Lit::Bytes(vec![])).as_bool(), Some(false));
    assert_eq!(Type::Literal(Lit::Bytes(vec![0])).as_bool(), Some(true));
    assert_eq!(Type::Literal(Lit::String(String::new())).as_bool(), Some(false));
    assert_eq!(Type::Literal(Lit::String("a".to_owned())).as_bool(), Some(true));
}

#[test]
fn as_bool_of_unions() {
    assert_eq!(Type::Union(vec![]).as_bool(), None);
    assert_eq!(Type::Union(vec![bool_lit(true)]).as_bool(), Some(true));
    assert_eq!(Type::Union(vec![bool_lit(true), bool_lit(false)]).as_bool(), None);
    assert_eq!(Type::Union(vec![bool_lit(true), Type::LiteralString]).as_bool(), None);
    let inner = Type::Union(vec![Type::NoneType, bool_lit(false)]);
    assert_eq!(Type::Union(vec![inner, bool_lit(false)]).as_bool(), Some(false));
    assert_eq!(Type::Intersect(vec![bool_lit(true)]).as_bool(), None);
}

#[test]
fn identities_are_handed_out_once() {
    let mut uniques = UniqueFactory::new();
    let a = Var::new(&mut uniques);
    let b = Var::new(&mut uniques);
    let q = Quantified::type_var(&mut uniques);
    let r = Quantified::param_spec(&mut uniques);
    let s = Quantified::type_var_tuple(&mut uniques);
    assert_ne!(a, b);
    assert_eq!(q.id().to_number(), 3);
    assert_eq!(r.id().to_number(), 4);
    assert_eq!(s.id().to_number(), 5);
    assert_ne!(q, r);
    assert_ne!(uniques.fresh(), Unique::zero());
}

#[test]
fn quantifieds_have_kinds() {
    let mut uniques = UniqueFactory::new();
    let q = Quantified::new(&mut uniques, QuantifiedKind::TypeVar);
    let r = Quantified::param_spec(&mut uniques);
    assert!(!q.is_param_spec());
    assert!(r.is_param_spec());
    assert!(!Quantified::type_var_tuple(&mut uniques).is_param_spec());
    assert_eq!(q.to_type(), Type::Quantified(q));
}

#[test]
fn zero_keeps_the_kind_only() {
    let mut uniques = UniqueFactory::new();
    let mut q = Quantified::type_var(&mut uniques);
    let mut r = Quantified::type_var(&mut uniques);
    let mut p = Quantified::param_spec(&mut uniques);
    assert_ne!(q, r);
    q.zero();
    r.zero();
    p.zero();
    assert_eq!(q, r);
    assert_eq!(q.id(), Unique::zero());
    assert_ne!(q, p);
    assert!(p.is_param_spec());
}

#[test]
fn quantified_vec() {
    let mut uniques = UniqueFactory::new();
    let q = Quantified::type_var(&mut uniques);
    let qs = QuantifiedVec(vec![q, q]);
    assert_eq!(qs.len(), 2);
    assert_eq!(qs.as_slice(), &[q, q]);
    assert_eq!(QuantifiedVec::default().len(), 0);
    assert_eq!(qs.clone().as_slice(), qs.as_slice());
}

#[test]
fn legacy_lookup() {
    let mut uniques = UniqueFactory::new();
    let q = Quantified::type_var(&mut uniques);
    let mut found = LegacyTypeParameterLookup::Parameter(q);
    assert_eq!(found.parameter(), Some(&q));
    assert!(found.not_parameter_mut().is_none());
    let mut other = LegacyTypeParameterLookup::NotParameter(Type::NoneType);
    assert_eq!(other.parameter(), None);
    if let Some(ty) = other.not_parameter_mut() {
        assert_eq!(*ty, Type::NoneType);
        *ty = Type::Ellipsis;
    }
    assert_eq!(other, LegacyTypeParameterLookup::NotParameter(Type::Ellipsis));
}

#[test]
fn propagated_any_is_not_explicit() {
    assert_eq!(AnyStyle::Explicit.propagate(), Type::any_implicit());
    assert_eq!(AnyStyle::Implicit.propagate(), Type::any_implicit());
    assert_eq!(AnyStyle::Error.propagate(), Type::any_error());
}

#[test]
fn type_alias_as_value_and_as_type() {
    let ty = Type::Type(Box::new(Type::NoneType));
    let scoped = TypeAlias::new(Name::new("X"), ty.clone(), TypeAliasStyle::Scoped);
    let explicit = TypeAlias::new(Name::new("X"), ty.clone(), TypeAliasStyle::LegacyExplicit);
    let implicit = TypeAlias::new(Name::new("X"), ty.clone(), TypeAliasStyle::LegacyImplicit);
    assert_eq!(scoped.as_value(), None);
    assert_eq!(explicit.as_value(), Some(ty.clone()));
    assert_eq!(implicit.as_value(), Some(ty.clone()));
    assert_eq!(scoped.as_type(), ty);
    assert_eq!(explicit.name.as_str(), "X");
    assert_ne!(explicit, implicit);
}

#[test]
fn arc_clone_of_shared_and_unshared() {
    let ty = Type::tuple(vec![Type::NoneType, Type::Ellipsis]);
    let unshared = Arc::new(ty.clone());
    assert_eq!(unshared.arc_clone(), ty);
    let shared = Arc::new(ty.clone());
    let other = shared.clone();
    assert_eq!(shared.arc_clone(), ty);
    assert_eq!(*other, ty);
}

#[test]
fn as_union_and_as_intersect() {
    let union = Type::Union(vec![Type::NoneType, Type::Ellipsis]);
    let intersect = Type::Intersect(vec![Type::NoneType]);
    assert_eq!(union.as_union(), &[Type::NoneType, Type::Ellipsis]);
    assert_eq!(union.as_intersect(), &[union.clone()]);
    assert_eq!(intersect.as_intersect(), &[Type::NoneType]);
    assert_eq!(intersect.as_union(), &[intersect.clone()]);
    assert!(Type::Union(vec![]).as_union().is_empty());
}

#[test]
fn tests_of_the_root() {
    let mut uniques = UniqueFactory::new();
    let v = Var::new(&mut uniques);
    assert!(Type::never().is_never());
    assert!(Type::Never(NeverStyle::NoReturn).is_never());
    assert!(!Type::NoneType.is_never());
    assert!(v.to_type().is_var());
    assert_eq!(v.to_type().as_var(), Some(v));
    assert_eq!(Type::NoneType.as_var(), None);
    assert!(!Type::NoneType.is_var());
    assert!(Type::callable_ellipsis(Type::NoneType).is_callable());
    assert!(!Type::NoneType.is_callable());
    assert!(Type::any_explicit().is_any());
    assert!(!Type::NoneType.is_any());
    assert!(Type::NoneType.is_none());
    assert!(!Type::Ellipsis.is_none());
    assert!(Type::Forall(vec![], Box::new(Type::NoneType)).is_forall());
    assert!(!Type::NoneType.is_forall());
    assert_eq!(Type::any_implicit(), Type::Any(AnyStyle::Implicit));
    assert_eq!(Type::any_explicit(), Type::Any(AnyStyle::Explicit));
    assert_eq!(Type::any_error(), Type::Any(AnyStyle::Error));
}

#[test]
fn as_module_and_as_class_with_args() {
    let module = Type::Module(Module::new(Name::new("os")));
    assert_eq!(module.as_module().unwrap().name().as_str(), "os");
    assert_eq!(Type::NoneType.as_module(), None);
    let cls = class("C");
    let ty = Type::class_type(&cls, TArgs(vec![Type::NoneType]));
    let (found, targs) = ty.as_class_with_args().unwrap();
    assert_eq!(*found, cls);
    assert_eq!(found.qname().id().as_str(), "C");
    assert_eq!(targs.0, vec![Type::NoneType]);
    assert_eq!(Type::ClassDef(cls).as_class_with_args(), None);
}

#[test]
fn class_type_shares_the_class() {
    let cls = class("C");
    let ty = Type::class_type(&cls, TArgs(vec![]));
    assert_eq!(ty, Type::ClassType(ClassType(cls, TArgs(vec![]))));
    assert_ne!(ty, Type::class_type(&class("D"), TArgs(vec![])));
}

#[test]
fn for_all_collects_type_parameters() {
    let mut uniques = UniqueFactory::new();
    let a = Quantified::type_var(&mut uniques);
    let b = Quantified::type_var(&mut uniques);
    let c = Quantified::type_var(&mut uniques);
    let body = a.to_type();
    assert_eq!(Type::for_all(vec![], body.clone()), body);
    let one = Type::for_all(vec![c], body.clone());
    assert_eq!(one, Type::Forall(vec![c], Box::new(body.clone())));
    let all = Type::for_all(vec![a, b], one);
    assert_eq!(all, Type::Forall(vec![a, b, c], Box::new(body.clone())));
    let (qs, inner) = all.as_forall();
    assert_eq!(qs, &[a, b, c]);
    assert_eq!(*inner, body);
    assert_eq!(Type::for_all(qs.to_vec(), inner.clone()), all);
    let (none, same) = body.as_forall();
    assert!(none.is_empty());
    assert_eq!(*same, body);
    let empty = Type::Forall(vec![], Box::new(body.clone()));
    assert_eq!(Type::for_all(vec![], empty), body);
}

#[test]
fn for_all_in_two_steps() {
    let mut uniques = UniqueFactory::new();
    let a = Quantified::type_var(&mut uniques);
    let b = Quantified::param_spec(&mut uniques);
    let body = Type::NoneType;
    let stepwise = Type::for_all(vec![a], Type::for_all(vec![b], body.clone()));
    assert_eq!(stepwise, Type::for_all(vec![a, b], body));
}

#[test]
fn constructors() {
    let ret = Type::NoneType;
    assert_eq!(
        Type::callable(vec![arg(Type::Ellipsis)], ret.clone()),
        Type::Callable(Box::new(Callable {
            params: Params::List(vec![arg(Type::Ellipsis)]),
            ret: ret.clone(),
        }))
    );
    assert_eq!(
        Type::callable_ellipsis(ret.clone()),
        Type::Callable(Box::new(Callable { params: Params::Ellipsis, ret: ret.clone() }))
    );
    assert_eq!(
        Type::callable_param_spec(Type::Ellipsis, ret.clone()),
        Type::Callable(Box::new(Callable {
            params: Params::ParamSpec(Type::Ellipsis),
            ret: ret.clone(),
        }))
    );
    assert_eq!(
        Type::tuple(vec![Type::NoneType]),
        Type::Tuple(Tuple::Concrete(vec![Type::NoneType]))
    );
}

#[test]
fn is_tvar_declaration_compares_names() {
    let name = Name::new("T");
    assert!(Type::TypeVar(TypeVar::new(qname("T"))).is_tvar_declaration(&name));
    assert!(Type::ParamSpec(ParamSpec::new(qname("T"))).is_tvar_declaration(&name));
    assert!(Type::TypeVarTuple(TypeVarTuple::new(qname("T"))).is_tvar_declaration(&name));
    assert!(!Type::TypeVar(TypeVar::new(qname("U"))).is_tvar_declaration(&name));
    assert!(!Type::ClassDef(class("T")).is_tvar_declaration(&name));
}

#[test]
fn contains_looks_inside() {
    let deep = Type::Union(vec![
        Type::Ellipsis,
        Type::tuple(vec![Type::Type(Box::new(Type::LiteralString))]),
    ]);
    assert!(deep.contains(&deep));
    assert!(deep.contains(&Type::LiteralString));
    assert!(deep.contains(&Type::Type(Box::new(Type::LiteralString))));
    assert!(!deep.contains(&Type::NoneType));
    assert!(!deep.contains(&Type::Type(Box::new(Type::Ellipsis))));
    assert!(!Type::NoneType.contains(&Type::Union(vec![Type::NoneType])));
}

#[test]
fn visit_goes_from_left_to_right() {
    let ty = Type::callable(vec![arg(Type::Ellipsis), arg(Type::LiteralString)], Type::NoneType);
    let mut seen = Vec::new();
    ty.visit(&mut |x: &Type| seen.push(x.clone()));
    assert_eq!(seen, vec![Type::Ellipsis, Type::LiteralString, Type::NoneType]);
    let ty = Type::callable_param_spec(Type::Ellipsis, Type::NoneType);
    let mut refs = Refs { seen: Vec::new() };
    ty.visit(&mut refs);
    assert_eq!(refs.seen, vec![&Type::Ellipsis, &Type::NoneType]);
}

#[test]
fn visit_shows_the_types_directly_inside() {
    let x = Type::NoneType;
    let boxed = || Box::new(x.clone());
    let alias = TypeAlias::new(Name::new("X"), x.clone(), TypeAliasStyle::Scoped);
    let with_one = vec![
        Type::callable_ellipsis(x.clone()),
        Type::Union(vec![x.clone()]),
        Type::Intersect(vec![x.clone()]),
        Type::class_type(&class("C"), TArgs(vec![x.clone()])),
        Type::tuple(vec![x.clone()]),
        Type::Tuple(Tuple::unbounded(x.clone())),
        Type::Forall(vec![], boxed()),
        Type::Type(boxed()),
        Type::TypeGuard(boxed()),
        Type::TypeIs(boxed()),
        Type::Unpack(boxed()),
        Type::TypeAlias(alias),
    ];
    for ty in &with_one {
        let mut refs = Refs { seen: Vec::new() };
        ty.visit(&mut refs);
        assert_eq!(refs.seen, vec![&x]);
        let mut changed = ty.clone();
        changed.visit_mut(&mut |_: Type| Type::Ellipsis);
        assert!(changed.contains(&Type::Ellipsis));
        assert!(!changed.contains(&x));
        assert_ne!(changed, *ty);
    }
    let mut uniques = UniqueFactory::new();
    let leaves = vec![
        Type::Literal(Lit::Int(1)),
        Type::LiteralString,
        Type::ClassDef(class("C")),
        Type::Module(Module::new(Name::new("os"))),
        Var::new(&mut uniques).to_type(),
        Quantified::type_var(&mut uniques).to_type(),
        Type::TypeVar(TypeVar::new(qname("T"))),
        Type::ParamSpec(ParamSpec::new(qname("P"))),
        Type::TypeVarTuple(TypeVarTuple::new(qname("Ts"))),
        Type::SpecialForm(SpecialForm::Generic),
        Type::Args(uniques.fresh()),
        Type::Kwargs(uniques.fresh()),
        Type::Ellipsis,
        Type::any_explicit(),
        Type::never(),
        Type::NoneType,
    ];
    for ty in &leaves {
        let mut refs = Refs { seen: Vec::new() };
        ty.visit(&mut refs);
        assert!(refs.seen.is_empty());
        let mut same = ty.clone();
        same.visit_mut(&mut |_: Type| Type::Ellipsis);
        assert_eq!(same, *ty);
    }
}

#[test]
fn universe_sees_included_types_before_the_parent() {
    let tuple = Type::tuple(vec![Type::NoneType, Type::Ellipsis]);
    let ty = Type::Union(vec![tuple.clone(), Type::LiteralString]);
    let mut refs = Refs { seen: Vec::new() };
    ty.universe(&mut refs);
    assert_eq!(
        refs.seen,
        vec![&Type::NoneType, &Type::Ellipsis, &tuple, &Type::LiteralString, &ty]
    );
    let mut count = 0;
    ty.universe(&mut |_: &Type| count += 1);
    assert_eq!(count, 5);
}

struct Recording {
    given: Vec<Type>,
}

impl TypeMutator for Recording {
    fn rewrite_type(&mut self, ty: &mut Type) {
        self.given.push(ty.clone());
        if let Type::Literal(_) = ty {
            *ty = Type::NoneType;
        }
    }
}

#[test]
fn transform_follows_the_order_of_universe() {
    let ty = Type::Union(vec![
        Type::tuple(vec![bool_lit(true), Type::Ellipsis]),
        Type::Type(Box::new(bool_lit(false))),
    ]);
    let mut refs = Refs { seen: Vec::new() };
    ty.universe(&mut refs);
    let mut recording = Recording { given: Vec::new() };
    let after = ty.clone().transform(&mut recording);
    let tuple = Type::tuple(vec![Type::NoneType, Type::Ellipsis]);
    let boxed = Type::Type(Box::new(Type::NoneType));
    assert_eq!(after, Type::Union(vec![tuple.clone(), boxed.clone()]));
    assert_eq!(recording.given.len(), refs.seen.len());
    assert_eq!(
        recording.given,
        vec![bool_lit(true), Type::Ellipsis, tuple, bool_lit(false), boxed, after]
    );
}

struct Numbering {
    next: i64,
}

impl TypeMutator for Numbering {
    fn rewrite_type(&mut self, ty: &mut Type) {
        if let Type::Literal(_) = ty {
            *ty = Type::Literal(Lit::Int(self.next));
        }
        self.next += 1;
    }
}

#[test]
fn transform_goes_from_the_leaves_to_the_root() {
    let ty = Type::Union(vec![
        Type::tuple(vec![bool_lit(true), bool_lit(false)]),
        bool_lit(true),
    ]);
    let mut numbering = Numbering { next: 0 };
    let after = ty.transform(&mut numbering);
    assert_eq!(numbering.next, 5);
    assert_eq!(
        after,
        Type::Union(vec![
            Type::tuple(vec![Type::Literal(Lit::Int(0)), Type::Literal(Lit::Int(1))]),
            Type::Literal(Lit::Int(3)),
        ])
    );
}

#[test]
fn transform_does_not_look_into_what_it_put_in() {
    let mut ty = Type::Union(vec![Type::NoneType]);
    ty.transform_mut(&mut |x: Type| {
        if x == Type::NoneType {
            Type::tuple(vec![Type::NoneType])
        } else {
            x
        }
    });
    assert_eq!(ty, Type::Union(vec![Type::tuple(vec![Type::NoneType])]));
}

#[test]
fn equality_is_by_what_types_say() {
    assert_eq!(Type::ClassDef(class("C")), Type::ClassDef(class("C")));
    assert_ne!(Type::ClassDef(class("C")), Type::ClassDef(class("D")));
    let other_module = Class::new(QName::new(Name::new("n"), Name::new("C")));
    assert_ne!(Type::ClassDef(class("C")), Type::ClassDef(other_module));
    assert_ne!(Type::Union(vec![Type::NoneType]), Type::Intersect(vec![Type::NoneType]));
    assert_ne!(Type::callable(vec![], Type::NoneType), Type::callable_ellipsis(Type::NoneType));
    let mut optional = arg(Type::NoneType);
    optional.required = false;
    assert_ne!(
        Type::callable(vec![optional], Type::NoneType),
        Type::callable(vec![arg(Type::NoneType)], Type::NoneType)
    );
}
