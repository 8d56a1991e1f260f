use pyre_types::class::{Class, TArgs};
use pyre_types::literal::Lit;
use pyre_types::name::{Name, QName};
use pyre_types::special_form::SpecialForm;
use pyre_types::stdlib::Stdlib;
use pyre_types::types::{Quantified, Type, Var};
use pyre_types::uniques::{Unique, UniqueFactory};
use starlark_map::small_map::SmallMap;
use starlark_map::small_set::SmallSet;

fn class(id: &str) -> Class {
    Class::new(QName::new(Name::new("builtins"), Name::new(id)))
}

fn instance(id: &str) -> Type {
    Type::class_type(&class(id), TArgs(vec![]))
}

fn stdlib() -> Stdlib {
    Stdlib { str: class("str"), int: class("int"), bool: class("bool"), bytes: class("bytes") }
}

fn self_type() -> Type {
    Type::SpecialForm(SpecialForm::SelfType)
}

#[test]
fn subst_replaces_type_parameters() {
    let mut uniques = UniqueFactory::new();
    let a = Quantified::type_var(&mut uniques);
    let b = Quantified::type_var(&mut uniques);
    let ty = Type::Forall(
        vec![a],
        Box::new(Type::tuple(vec![a.to_type(), b.to_type(), Type::Type(Box::new(a.to_type()))])),
    );
    let mut mp = SmallMap::new();
    mp.insert(a, Type::NoneType);
    assert_eq!(
        ty.clone().subst(&mp),
        Type::Forall(
            vec![a],
            Box::new(Type::tuple(vec![
                Type::NoneType,
                b.to_type(),
                Type::Type(Box::new(Type::NoneType)),
            ])),
        )
    );
    assert_eq!(ty.clone().subst(&SmallMap::new()), ty);
}

#[test]
fn subst_leaves_what_it_puts_in() {
    let mut uniques = UniqueFactory::new();
    let a = Quantified::type_var(&mut uniques);
    let b = Quantified::type_var(&mut uniques);
    let mut mp = SmallMap::new();
    mp.insert(a, Type::Type(Box::new(a.to_type())));
    mp.insert(b, a.to_type());
    let ty = Type::tuple(vec![a.to_type(), b.to_type()]);
    let after = ty.subst(&mp);
    assert_eq!(after, Type::tuple(vec![Type::Type(Box::new(a.to_type())), a.to_type()]));
    assert!(!after.contains(&b.to_type()));
}

#[test]
fn two_substitutions_are_one() {
    let mut uniques = UniqueFactory::new();
    let a = Quantified::type_var(&mut uniques);
    let b = Quantified::type_var(&mut uniques);
    let ty = Type::tuple(vec![a.to_type(), b.to_type()]);
    let mut first = SmallMap::new();
    first.insert(a, Type::Type(Box::new(b.to_type())));
    let mut second = SmallMap::new();
    second.insert(b, Type::NoneType);
    let mut both = SmallMap::new();
    both.insert(a, Type::Type(Box::new(Type::NoneType)));
    both.insert(b, Type::NoneType);
    assert_eq!(ty.clone().subst(&first).subst(&second), ty.subst(&both));
}

#[test]
fn subst_self_type_replaces_self() {
    let mut ty = Type::Union(vec![self_type(), Type::tuple(vec![self_type(), Type::NoneType])]);
    let c = instance("C");
    ty.subst_self_type_mut(&c);
    assert_eq!(ty, Type::Union(vec![c.clone(), Type::tuple(vec![c.clone(), Type::NoneType])]));
    assert!(!ty.contains(&self_type()));
    assert!(ty.contains(&c));
    let before = ty.clone();
    ty.subst_self_type_mut(&Type::NoneType);
    assert_eq!(ty, before);
    let mut other = Type::SpecialForm(SpecialForm::Generic);
    other.subst_self_type_mut(&c);
    assert_eq!(other, Type::SpecialForm(SpecialForm::Generic));
}

#[test]
fn instantiate_fresh_makes_one_variable_each() {
    let mut uniques = UniqueFactory::new();
    let a = Quantified::type_var(&mut uniques);
    let b = Quantified::type_var(&mut uniques);
    let c = Quantified::type_var(&mut uniques);
    let ty = Type::tuple(vec![b.to_type(), a.to_type(), c.to_type(), a.to_type()]);
    let (vars, after) = ty.clone().instantiate_fresh(&[a, b], &mut uniques);
    assert_eq!(vars.len(), 2);
    assert_ne!(vars[0], vars[1]);
    assert_eq!(
        after,
        Type::tuple(vec![
            vars[1].to_type(),
            vars[0].to_type(),
            c.to_type(),
            vars[0].to_type(),
        ])
    );
    assert!(!vars.contains(&Var::new(&mut uniques)));
    let (none, same) = ty.clone().instantiate_fresh(&[], &mut uniques);
    assert!(none.is_empty());
    assert_eq!(same, ty);
}

#[test]
fn instantiate_fresh_with_a_parameter_twice() {
    let mut uniques = UniqueFactory::new();
    let a = Quantified::type_var(&mut uniques);
    let b = Quantified::type_var(&mut uniques);
    let ty = Type::tuple(vec![a.to_type(), b.to_type()]);
    let (vars, after) = ty.instantiate_fresh(&[a, b, a], &mut uniques);
    assert_eq!(vars.len(), 2);
    assert_eq!(after, Type::tuple(vec![vars[0].to_type(), vars[1].to_type()]));
    // Three numbers have gone, 3 to 5. The last of them is for the parameter that came again.
    let mut expected = UniqueFactory::new();
    for _ in 0..3 {
        expected.fresh();
    }
    assert_eq!(vars[1], Var::new(&mut expected));
    assert_eq!(vars[0], Var::new(&mut expected));
    assert_eq!(uniques.fresh().to_number(), 6);
}

#[test]
fn collect_quantifieds_keeps_the_order() {
    let mut uniques = UniqueFactory::new();
    let a = Quantified::type_var(&mut uniques);
    let b = Quantified::param_spec(&mut uniques);
    let c = Quantified::type_var_tuple(&mut uniques);
    let ty = Type::Union(vec![
        Type::tuple(vec![c.to_type(), a.to_type()]),
        b.to_type(),
        a.to_type(),
        Type::NoneType,
    ]);
    let mut acc = SmallSet::new();
    ty.collect_quantifieds(&mut acc);
    assert_eq!(acc.iter().copied().collect::<Vec<_>>(), vec![c, a, b]);
    let mut started = SmallSet::new();
    started.insert(b);
    ty.collect_quantifieds(&mut started);
    assert_eq!(started.iter().copied().collect::<Vec<_>>(), vec![b, c, a]);
    let binder = Type::Forall(vec![a], Box::new(Type::NoneType));
    let mut none = SmallSet::new();
    binder.collect_quantifieds(&mut none);
    assert!(none.is_empty());
}

#[test]
fn collected_parameters_are_all_there_are() {
    let mut uniques = UniqueFactory::new();
    let a = Quantified::type_var(&mut uniques);
    let b = Quantified::type_var(&mut uniques);
    let ty = Type::callable_param_spec(a.to_type(), Type::NoneType);
    let mut acc = SmallSet::new();
    ty.collect_quantifieds(&mut acc);
    assert_eq!(acc.contains(&a), ty.contains(&a.to_type()));
    assert_eq!(acc.contains(&b), ty.contains(&b.to_type()));
    assert!(acc.contains(&a));
    assert!(!acc.contains(&b));
}

#[test]
fn promote_literals_leaves_classes() {
    let lits = Type::tuple(vec![
        Type::Literal(Lit::String("a".to_owned())),
        Type::Literal(Lit::Int(1)),
        Type::Literal(Lit::Bool(true)),
        Type::Literal(Lit::Bytes(vec![1])),
        Type::LiteralString,
        Type::NoneType,
    ]);
    let after = lits.promote_literals(&stdlib());
    assert_eq!(
        after,
        Type::tuple(vec![
            instance("str"),
            instance("int"),
            instance("bool"),
            instance("bytes"),
            instance("str"),
            Type::NoneType,
        ])
    );
    assert_eq!(after.clone().promote_literals(&stdlib()), after);
}

#[test]
fn explicit_any_everywhere() {
    let ty = Type::Union(vec![
        Type::any_error(),
        Type::tuple(vec![Type::any_implicit(), Type::NoneType]),
        Type::any_explicit(),
    ]);
    let after = ty.explicit_any();
    assert_eq!(
        after,
        Type::Union(vec![
            Type::any_explicit(),
            Type::tuple(vec![Type::any_explicit(), Type::NoneType]),
            Type::any_explicit(),
        ])
    );
    assert_eq!(after.clone().explicit_any(), after);
}

fn with_identities(uniques: &mut UniqueFactory) -> Type {
    let q = Quantified::type_var(uniques);
    let p = Quantified::param_spec(uniques);
    Type::Forall(
        vec![q, p],
        Box::new(Type::tuple(vec![
            q.to_type(),
            p.to_type(),
            Var::new(uniques).to_type(),
            Type::Args(uniques.fresh()),
            Type::Kwargs(uniques.fresh()),
            Type::NoneType,
        ])),
    )
}

#[test]
fn deterministic_printing_of_types_that_share_differently() {
    let mut uniques = UniqueFactory::new();
    let v = Var::new(&mut uniques).to_type();
    let w = Var::new(&mut uniques).to_type();
    let same = Type::tuple(vec![v.clone(), v.clone()]);
    let different = Type::tuple(vec![v, w]);
    assert_eq!(same.deterministic_printing(), different.deterministic_printing());
    let q = Quantified::type_var(&mut uniques).to_type();
    let p = Quantified::param_spec(&mut uniques).to_type();
    assert_ne!(q.deterministic_printing(), p.deterministic_printing());
}

#[test]
fn deterministic_printing_hides_what_was_handed_out() {
    let mut uniques = UniqueFactory::new();
    let a = with_identities(&mut uniques);
    let b = with_identities(&mut uniques);
    assert_ne!(a, b);
    let after = a.deterministic_printing();
    assert_eq!(after, b.deterministic_printing());
    assert_eq!(after.clone().deterministic_printing(), after);
    assert!(after.contains(&Type::Args(Unique::zero())));
    assert!(after.contains(&Type::Kwargs(Unique::zero())));
    let v = Var::new(&mut uniques).to_type();
    assert!(!after.contains(&v));
    assert!(after.contains(&v.deterministic_printing()));
    let mut q = Quantified::type_var(&mut uniques);
    q.zero();
    let mut p = Quantified::param_spec(&mut uniques);
    p.zero();
    assert_eq!(after.as_forall().0, &[q, p]);
}

#[test]
fn many_type_parameters() {
    let mut uniques = UniqueFactory::new();
    let mut qs = Vec::new();
    for _ in 0..100 {
        qs.push(Quantified::type_var(&mut uniques));
    }
    let ty = Type::tuple(qs.iter().map(|q| q.to_type()).collect());
    let mut acc = SmallSet::new();
    ty.collect_quantifieds(&mut acc);
    assert_eq!(acc.iter().copied().collect::<Vec<_>>(), qs);
    let (vars, after) = ty.instantiate_fresh(&qs, &mut uniques);
    assert_eq!(vars.len(), 100);
    assert_eq!(after, Type::tuple(vars.iter().map(|v| v.to_type()).collect()));
    for q in qs {
        assert!(!after.contains(&q.to_type()));
    }
}
