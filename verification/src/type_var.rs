//! The three kinds of type parameters, as they are declared in Python source.
use crate::name::{dupe_qname, QName, QNameView};
use std::sync::Arc;
use vstd::prelude::*;

verus! {

/// A variable declared with `TypeVar(..)`, which stands for a type.
#[derive(Debug, Eq, PartialOrd, Ord, Hash)]
pub struct TypeVar {
    qname: Arc<QName>,
}

impl View for TypeVar {
    type V = QNameView;

    closed spec fn view(&self) -> QNameView {
        self.qname@
    }
}

impl TypeVar {
    pub fn new(qname: QName) -> (res: TypeVar)
        ensures
            res@ == qname@,
    {
        TypeVar { qname: Arc::new(qname) }
    }

    pub fn qname(&self) -> (qname: &QName)
        ensures
            qname@ == self@,
    {
        &self.qname
    }
}

impl Clone for TypeVar {
    fn clone(&self) -> (copy: TypeVar)
        ensures
            copy@ == self@,
    {
        TypeVar { qname: dupe_qname(&self.qname) }
    }
}

impl PartialEq for TypeVar {
    fn eq(&self, other: &TypeVar) -> (same: bool)
        ensures
            same == (self@.module == other@.module && self@.id == other@.id),
    {
        *self.qname() == *other.qname()
    }
}

impl vstd::std_specs::cmp::PartialEqSpecImpl for TypeVar {
    open spec fn obeys_eq_spec() -> bool {
        true
    }

    open spec fn eq_spec(&self, other: &TypeVar) -> bool {
        self@ == other@
    }
}

/// A variable declared with `ParamSpec(..)`, which stands for the parameters of a callable.
#[derive(Debug, Eq, PartialOrd, Ord, Hash)]
pub struct ParamSpec {
    qname: Arc<QName>,
}

impl View for ParamSpec {
    type V = QNameView;

    closed spec fn view(&self) -> QNameView {
        self.qname@
    }
}

impl ParamSpec {
    pub fn new(qname: QName) -> (res: ParamSpec)
        ensures
            res@ == qname@,
    {
        ParamSpec { qname: Arc::new(qname) }
    }

    pub fn qname(&self) -> (qname: &QName)
        ensures
            qname@ == self@,
    {
        &self.qname
    }
}

impl Clone for ParamSpec {
    fn clone(&self) -> (copy: ParamSpec)
        ensures
            copy@ == self@,
    {
        ParamSpec { qname: dupe_qname(&self.qname) }
    }
}

impl PartialEq for ParamSpec {
    fn eq(&self, other: &ParamSpec) -> (same: bool)
        ensures
            same == (self@.module == other@.module && self@.id == other@.id),
    {
        *self.qname() == *other.qname()
    }
}

impl vstd::std_specs::cmp::PartialEqSpecImpl for ParamSpec {
    open spec fn obeys_eq_spec() -> bool {
        true
    }

    open spec fn eq_spec(&self, other: &ParamSpec) -> bool {
        self@ == other@
    }
}

/// A variable declared with `TypeVarTuple(..)`, which stands for a sequence of types.
#[derive(Debug, Eq, PartialOrd, Ord, Hash)]
pub struct TypeVarTuple {
    qname: Arc<QName>,
}

impl View for TypeVarTuple {
    type V = QNameView;

    closed spec fn view(&self) -> QNameView {
        self.qname@
    }
}

impl TypeVarTuple {
    pub fn new(qname: QName) -> (res: TypeVarTuple)
        ensures
            res@ == qname@,
    {
        TypeVarTuple { qname: Arc::new(qname) }
    }

    pub fn qname(&self) -> (qname: &QName)
        ensures
            qname@ == self@,
    {
        &self.qname
    }
}

impl Clone for TypeVarTuple {
    fn clone(&self) -> (copy: TypeVarTuple)
        ensures
            copy@ == self@,
    {
        TypeVarTuple { qname: dupe_qname(&self.qname) }
    }
}

impl PartialEq for TypeVarTuple {
    fn eq(&self, other: &TypeVarTuple) -> (same: bool)
        ensures
            same == (self@.module == other@.module && self@.id == other@.id),
    {
        *self.qname() == *other.qname()
    }
}

impl vstd::std_specs::cmp::PartialEqSpecImpl for TypeVarTuple {
    open spec fn obeys_eq_spec() -> bool {
        true
    }

    open spec fn eq_spec(&self, other: &TypeVarTuple) -> bool {
        self@ == other@
    }
}

} // verus!
