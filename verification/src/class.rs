//! Classes, and classes applied to type arguments.
use crate::name::{dupe_qname, QName, QNameView};
use crate::types::Type;
use crate::visitor::{visit_types, visits_all, TypeVisitor};
use std::sync::Arc;
use vstd::prelude::*;

verus! {

/// A class definition.
#[derive(Debug, Eq, PartialOrd, Ord, Hash)]
pub struct Class {
    qname: Arc<QName>,
}

impl View for Class {
    type V = QNameView;

    closed spec fn view(&self) -> QNameView {
        self.qname@
    }
}

impl Class {
    pub fn new(qname: QName) -> (res: Class)
        ensures
            res@ == qname@,
    {
        Class { qname: Arc::new(qname) }
    }

    pub fn qname(&self) -> (qname: &QName)
        ensures
            qname@ == self@,
    {
        &self.qname
    }
}

impl Clone for Class {
    fn clone(&self) -> (copy: Class)
        ensures
            copy@ == self@,
    {
        Class { qname: dupe_qname(&self.qname) }
    }
}

impl PartialEq for Class {
    fn eq(&self, other: &Class) -> (same: bool)
        ensures
            same == (self@.module == other@.module && self@.id == other@.id),
    {
        *self.qname() == *other.qname()
    }
}

impl vstd::std_specs::cmp::PartialEqSpecImpl for Class {
    open spec fn obeys_eq_spec() -> bool {
        true
    }

    open spec fn eq_spec(&self, other: &Class) -> bool {
        self@ == other@
    }
}

impl Class {
    /// Another handle on the same class.
    pub fn dupe(&self) -> (copy: Class)
        ensures
            copy == *self,
    {
        Class { qname: dupe_qname(&self.qname) }
    }
}

/// Type arguments, in the order of the type parameters that they are for.
#[derive(Debug, Eq, PartialOrd, Ord, Hash)]
pub struct TArgs(pub Vec<Type>);

/// A class applied to type arguments. A class that is not generic has none.
#[derive(Debug, Eq, PartialOrd, Ord, Hash)]
pub struct ClassType(pub Class, pub TArgs);

impl ClassType {
    /// The type arguments.
    pub open spec fn children(self) -> Seq<Type> {
        self.1.0@
    }

    /// Shows the type arguments to a visitor, from left to right.
    pub fn visit<'a, V: TypeVisitor<'a>>(&'a self, f: &mut V)
        requires
            old(f).ready(),
        ensures
            final(f).ready(),
            visits_all(*old(f), self.children(), *final(f)),
    {
        visit_types(&self.1.0, f)
    }

    /// The type argument at the given position.
    pub(crate) fn child_mut(&mut self, i: usize) -> (child: &mut Type)
        requires
            i < old(self).children().len(),
        ensures
            *child == old(self).children()[i as int],
            final(self).0 == old(self).0,
            final(self).children() == old(self).children().update(i as int, *final(child)),
    {
        &mut self.1.0[i]
    }
}

} // verus!
