//! Modules, as the type of an imported name.
use crate::name::Name;
use vstd::prelude::*;

verus! {

/// The type of a name that an `import` binds to a module.
#[derive(Debug, Eq, PartialOrd, Ord, Hash)]
pub struct Module {
    name: Name,
}

impl View for Module {
    type V = Seq<char>;

    closed spec fn view(&self) -> Seq<char> {
        self.name@
    }
}

impl Module {
    pub fn new(name: Name) -> (module: Module)
        ensures
            module@ == name@,
    {
        Module { name }
    }

    pub fn name(&self) -> (name: &Name)
        ensures
            name@ == self@,
    {
        &self.name
    }
}

impl Clone for Module {
    fn clone(&self) -> (copy: Module)
        ensures
            copy@ == self@,
    {
        Module { name: self.name.clone() }
    }
}

impl PartialEq for Module {
    fn eq(&self, other: &Module) -> (same: bool)
        ensures
            same == (self@ == other@),
    {
        self.name == other.name
    }
}

impl vstd::std_specs::cmp::PartialEqSpecImpl for Module {
    open spec fn obeys_eq_spec() -> bool {
        true
    }

    open spec fn eq_spec(&self, other: &Module) -> bool {
        self@ == other@
    }
}

} // verus!
