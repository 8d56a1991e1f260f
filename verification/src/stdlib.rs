//! The classes of Python's standard library that the checker needs to know.
use crate::class::{Class, ClassType, TArgs};
use crate::literal::{Lit, LitView};
use crate::name::QNameView;
use crate::tree::{tree_unfolds, trees, Node, TypeTree};
use crate::types::Type;
use vstd::prelude::*;

verus! {

/// The built-in classes that literals are instances of.
#[derive(Debug)]
pub struct Stdlib {
    pub str: Class,
    pub int: Class,
    pub bool: Class,
    pub bytes: Class,
}

/// What the type of the instances of a class that is not generic says.
pub open spec fn instance_tree(class: QNameView) -> TypeTree {
    TypeTree { node: Node::ClassType(class), children: seq![] }
}

/// The type of the instances of a class that is not generic.
fn instance(class: &Class) -> (ty: Type)
    ensures
        ty@ == instance_tree(class@),
{
    broadcast use tree_unfolds;

    let ty = Type::ClassType(ClassType(class.dupe(), TArgs(Vec::new())));
    assert(trees(ty.children()) =~= seq![]);
    ty
}

impl Stdlib {
    /// The type of strings.
    pub fn str(&self) -> (ty: Type)
        ensures
            ty@ == instance_tree(self.str@),
    {
        instance(&self.str)
    }
}

impl LitView {
    /// The class that the literal is an instance of.
    pub open spec fn class(self, stdlib: &Stdlib) -> QNameView {
        match self {
            LitView::String(_) => stdlib.str@,
            LitView::Int(_) => stdlib.int@,
            LitView::Bool(_) => stdlib.bool@,
            LitView::Bytes(_) => stdlib.bytes@,
        }
    }
}

impl Lit {
    /// The type of all values of the class that the literal is an instance of.
    pub fn general_type(&self, stdlib: &Stdlib) -> (ty: Type)
        ensures
            ty@ == instance_tree(self@.class(stdlib)),
    {
        match self {
            Lit::String(_) => stdlib.str(),
            Lit::Int(_) => instance(&stdlib.int),
            Lit::Bool(_) => instance(&stdlib.bool),
            Lit::Bytes(_) => instance(&stdlib.bytes),
        }
    }
}

} // verus!
