//! Tuple types.
use crate::types::Type;
use crate::visitor::{visit_types, visits_all, visits_one, TypeVisitor};
use vstd::prelude::*;

verus! {

#[derive(Debug, Eq, PartialOrd, Ord, Hash)]
pub enum Tuple {
    /// `tuple[t1, t2]`, one type for each element.
    Concrete(Vec<Type>),
    /// `tuple[t, ...]`, any number of elements of one type.
    Unbounded(Box<Type>),
}

/// What a [`Tuple`] says apart from the types in it.
pub enum TupleShape {
    Concrete,
    Unbounded,
}

impl Tuple {
    /// What the tuple says apart from the types in it.
    pub open spec fn shape(self) -> TupleShape {
        match self {
            Tuple::Concrete(_) => TupleShape::Concrete,
            Tuple::Unbounded(_) => TupleShape::Unbounded,
        }
    }

    /// The types of the elements.
    pub open spec fn children(self) -> Seq<Type> {
        match self {
            Tuple::Concrete(elts) => elts@,
            Tuple::Unbounded(ty) => seq![*ty],
        }
    }

    pub fn concrete(elts: Vec<Type>) -> (tuple: Tuple)
        ensures
            tuple == Tuple::Concrete(elts),
    {
        Tuple::Concrete(elts)
    }

    pub fn unbounded(ty: Type) -> (tuple: Tuple)
        ensures
            tuple == Tuple::Unbounded(Box::new(ty)),
    {
        Tuple::Unbounded(Box::new(ty))
    }

    /// Shows the types of the elements to a visitor, from left to right.
    pub fn visit<'a, V: TypeVisitor<'a>>(&'a self, f: &mut V)
        requires
            old(f).ready(),
        ensures
            final(f).ready(),
            visits_all(*old(f), self.children(), *final(f)),
    {
        match self {
            Tuple::Concrete(elts) => visit_types(elts, f),
            Tuple::Unbounded(ty) => {
                f.visit_type(ty);
                proof {
                    visits_one(*old(f), **ty, *f);
                }
            },
        }
    }

    /// The type at the given position of [`Tuple::children`].
    pub(crate) fn child_mut(&mut self, i: usize) -> (child: &mut Type)
        requires
            i < old(self).children().len(),
        ensures
            *child == old(self).children()[i as int],
            final(self).shape() == old(self).shape(),
            final(self).children() == old(self).children().update(i as int, *final(child)),
    {
        match self {
            Tuple::Concrete(elts) => &mut elts[i],
            Tuple::Unbounded(ty) => ty,
        }
    }
}

} // verus!
