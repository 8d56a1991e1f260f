//! The special forms of Python's `typing` module.
use vstd::prelude::*;

verus! {

/// A name of the `typing` module that is no class, but has a meaning of its own in annotations.
#[derive(Debug, Clone, Copy, PartialEq, Eq, PartialOrd, Ord, Hash, Structural)]
pub enum SpecialForm {
    Annotated,
    Callable,
    ClassVar,
    Concatenate,
    Final,
    Generic,
    Literal,
    Optional,
    Protocol,
    /// `typing.Self`, the class that the annotation stands in.
    SelfType,
    Tuple,
    TypeAlias,
    TypeGuard,
    TypeIs,
    Union,
    Unpack,
}

} // verus!
