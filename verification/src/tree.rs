//! What a type says, as a tree.
use crate::callable::ParamsShape;
use crate::literal::LitView;
use crate::name::QNameView;
use crate::special_form::SpecialForm;
use crate::tuple::TupleShape;
use crate::types::{AnyStyle, NeverStyle, Quantified, Type, TypeAliasStyle, Var};
use crate::uniques::Unique;
use vstd::prelude::*;

verus! {

/// What the root of a type says apart from the types directly inside it.
#[verifier::ext_equal]
pub enum Node {
    Literal(LitView),
    LiteralString,
    Callable(ParamsShape),
    Union,
    Intersect,
    ClassDef(QNameView),
    ClassType(QNameView),
    Tuple(TupleShape),
    Module(Seq<char>),
    Forall(Seq<Quantified>),
    Var(Var),
    Quantified(Quantified),
    TypeGuard,
    TypeIs,
    Unpack,
    TypeVar(QNameView),
    ParamSpec(QNameView),
    TypeVarTuple(QNameView),
    SpecialForm(SpecialForm),
    Args(Unique),
    Kwargs(Unique),
    Type,
    Ellipsis,
    Any(AnyStyle),
    Never(NeverStyle),
    TypeAlias(Seq<char>, TypeAliasStyle),
    NoneType,
}

/// What a type says: a tree of [`Node`]s.
#[verifier::ext_equal]
pub struct TypeTree {
    pub node: Node,
    pub children: Seq<TypeTree>,
}

/// What the types of a list say.
pub open spec fn trees(tys: Seq<Type>) -> Seq<TypeTree> {
    tys.map_values(|ty: Type| ty@)
}

/// What a type says is what its root says and what the types directly inside it say.
pub broadcast proof fn tree_unfolds(ty: Type)
    ensures
        #[trigger] ty.tree() == (TypeTree { node: ty.node(), children: trees(ty.children()) }),
{
    assert(ty.tree().children =~= trees(ty.children()));
}

impl TypeTree {
    /// What the trees directly inside this one become when `g` is applied to all trees in them,
    /// from the leaves to the root.
    pub open spec fn children_bottom_up(self, g: spec_fn(TypeTree) -> TypeTree) -> Seq<TypeTree>
        decreases self, 0nat,
    {
        Seq::new(
            self.children.len(),
            |i: int|
                if 0 <= i < self.children.len() {
                    self.children[i].bottom_up(g)
                } else {
                    arbitrary()
                },
        )
    }

    /// What this tree becomes when `g` is applied to all trees in it, from the leaves to the root.
    pub open spec fn bottom_up(self, g: spec_fn(TypeTree) -> TypeTree) -> TypeTree
        decreases self, 1nat,
    {
        g(TypeTree { node: self.node, children: self.children_bottom_up(g) })
    }

    /// Whether `x` is this tree or a tree inside it.
    pub open spec fn has(self, x: TypeTree) -> bool
        decreases self,
    {
        self == x || exists|i: int|
            0 <= i < self.children.len() && (#[trigger] self.children[i]).has(x)
    }

    /// Whether every root in the tree is as `p` says.
    pub open spec fn all(self, p: spec_fn(Node) -> bool) -> bool
        decreases self,
    {
        p(self.node) && forall|i: int|
            0 <= i < self.children.len() ==> (#[trigger] self.children[i]).all(p)
    }

    /// What Python's `bool()` gives on every value of the type, if it is the same on all of them
    /// and the type tells.
    pub open spec fn truth(self) -> Option<bool>
        decreases self,
    {
        match self.node {
            Node::Literal(lit) => Some(lit.truth()),
            Node::NoneType => Some(false),
            Node::Union => if self.children.len() > 0 && forall|i: int|
                0 <= i < self.children.len() ==> (#[trigger] self.children[i]).truth()
                    == self.children[0].truth() {
                self.children[0].truth()
            } else {
                None
            },
            _ => None,
        }
    }
}

} // verus!
