//! Callable types.
use crate::name::Name;
use crate::types::Type;
use crate::visitor::{visits_all, visits_both, visits_none, visits_one, TypeVisitor};
use vstd::prelude::*;

verus! {

/// How an argument for a parameter is passed.
#[derive(Debug, Clone, Copy, PartialEq, Eq, PartialOrd, Ord, Hash, Structural)]
pub enum ArgKind {
    PosOnly,
    Pos,
    VarArg,
    KwOnly,
    Kwargs,
}

/// One parameter of a callable.
#[derive(Debug, Eq, PartialOrd, Ord, Hash)]
pub struct Arg {
    pub kind: ArgKind,
    pub name: Option<Name>,
    pub required: bool,
    pub ty: Type,
}

/// What an [`Arg`] says apart from its type.
#[verifier::ext_equal]
pub struct ArgShape {
    pub kind: ArgKind,
    pub name: Option<Seq<char>>,
    pub required: bool,
}

impl Arg {
    pub open spec fn shape(self) -> ArgShape {
        ArgShape {
            kind: self.kind,
            name: match self.name {
                Some(name) => Some(name@),
                None => None,
            },
            required: self.required,
        }
    }
}

/// The parameters of a callable.
#[derive(Debug, Eq, PartialOrd, Ord, Hash)]
pub enum Params {
    List(Vec<Arg>),
    /// Any parameters at all.
    Ellipsis,
    /// The parameters that a parameter specification stands for.
    ParamSpec(Type),
}

/// What [`Params`] say apart from the types in them.
#[verifier::ext_equal]
pub enum ParamsShape {
    List(Seq<ArgShape>),
    Ellipsis,
    ParamSpec,
}

impl Params {
    /// What the parameters say apart from the types in them.
    pub open spec fn shape(self) -> ParamsShape {
        match self {
            Params::List(args) => ParamsShape::List(args@.map_values(|arg: Arg| arg.shape())),
            Params::Ellipsis => ParamsShape::Ellipsis,
            Params::ParamSpec(_) => ParamsShape::ParamSpec,
        }
    }

    /// The types of the parameters.
    pub open spec fn types(self) -> Seq<Type> {
        match self {
            Params::List(args) => args@.map_values(|arg: Arg| arg.ty),
            Params::Ellipsis => seq![],
            Params::ParamSpec(ty) => seq![ty],
        }
    }
}

/// The type of a function: what it takes and what it returns.
#[derive(Debug, Eq, PartialOrd, Ord, Hash)]
pub struct Callable {
    pub params: Params,
    pub ret: Type,
}

impl Callable {
    /// What the callable says apart from the types in it.
    pub open spec fn shape(self) -> ParamsShape {
        self.params.shape()
    }

    /// The types in the callable: those of its parameters, then the one it returns.
    pub open spec fn children(self) -> Seq<Type> {
        self.params.types().push(self.ret)
    }

    pub fn list(args: Vec<Arg>, ret: Type) -> (callable: Callable)
        ensures
            callable == (Callable { params: Params::List(args), ret }),
    {
        Callable { params: Params::List(args), ret }
    }

    pub fn ellipsis(ret: Type) -> (callable: Callable)
        ensures
            callable == (Callable { params: Params::Ellipsis, ret }),
    {
        Callable { params: Params::Ellipsis, ret }
    }

    pub fn param_spec(p: Type, ret: Type) -> (callable: Callable)
        ensures
            callable == (Callable { params: Params::ParamSpec(p), ret }),
    {
        Callable { params: Params::ParamSpec(p), ret }
    }

    /// Shows the types in the callable to a visitor, from left to right.
    pub fn visit<'a, V: TypeVisitor<'a>>(&'a self, f: &mut V)
        requires
            old(f).ready(),
        ensures
            final(f).ready(),
            visits_all(*old(f), self.children(), *final(f)),
    {
        let ghost pre = *f;
        let ghost shown = self.params.types();
        match &self.params {
            Params::List(args) => visit_args(args, f),
            Params::Ellipsis => {
                proof {
                    visits_none(pre);
                }
            },
            Params::ParamSpec(ty) => {
                f.visit_type(ty);
                proof {
                    visits_one(pre, *ty, *f);
                }
            },
        }
        let ghost mid = *f;
        f.visit_type(&self.ret);
        proof {
            visits_one(mid, self.ret, *f);
            visits_both(pre, shown, mid, seq![self.ret], *f);
            assert(self.children() == shown + seq![self.ret]);
        }
    }

    /// The type at the given position of [`Callable::children`].
    pub(crate) fn child_mut(&mut self, i: usize) -> (child: &mut Type)
        requires
            i < old(self).children().len(),
        ensures
            *child == old(self).children()[i as int],
            final(self).shape() == old(self).shape(),
            final(self).children() == old(self).children().update(i as int, *final(child)),
    {
        match &mut self.params {
            Params::List(args) => {
                if i < args.len() {
                    &mut args[i].ty
                } else {
                    &mut self.ret
                }
            },
            Params::Ellipsis => &mut self.ret,
            Params::ParamSpec(ty) => {
                if i == 0 {
                    ty
                } else {
                    &mut self.ret
                }
            },
        }
    }
}

/// Shows the types of parameters to a visitor, from left to right.
fn visit_args<'a, V: TypeVisitor<'a>>(args: &'a Vec<Arg>, f: &mut V)
    requires
        old(f).ready(),
    ensures
        final(f).ready(),
        visits_all(*old(f), args@.map_values(|arg: Arg| arg.ty), *final(f)),
{
    let ghost pre = *f;
    let ghost tys = args@.map_values(|arg: Arg| arg.ty);
    proof {
        visits_none(pre);
        assert(tys.take(0) == Seq::<Type>::empty());
    }
    for i in 0..args.len()
        invariant
            f.ready(),
            tys == args@.map_values(|arg: Arg| arg.ty),
            visits_all(pre, tys.take(i as int), *f),
    {
        let ghost mid = *f;
        f.visit_type(&args[i].ty);
        proof {
            visits_one(mid, tys[i as int], *f);
            visits_both(pre, tys.take(i as int), mid, seq![tys[i as int]], *f);
            assert(tys.take(i + 1) == tys.take(i as int) + seq![tys[i as int]]);
        }
    }
    assert(tys.take(args.len() as int) == tys);
}

} // verus!
