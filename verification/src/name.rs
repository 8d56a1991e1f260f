//! Names as they are written in Python source.
use std::sync::Arc;
use vstd::prelude::*;

verus! {

/// An identifier.
#[derive(Debug, Eq, PartialOrd, Ord, Hash)]
pub struct Name {
    text: String,
}

impl View for Name {
    type V = Seq<char>;

    closed spec fn view(&self) -> Seq<char> {
        self.text@
    }
}

impl Name {
    pub fn new(text: &str) -> (name: Name)
        ensures
            name@ == text@,
    {
        Name { text: text.to_owned() }
    }

    pub fn as_str(&self) -> (text: &str)
        ensures
            text@ == self@,
    {
        self.text.as_str()
    }
}

impl Clone for Name {
    fn clone(&self) -> (copy: Name)
        ensures
            copy@ == self@,
    {
        Name { text: self.text.clone() }
    }
}

impl PartialEq for Name {
    fn eq(&self, other: &Name) -> (same: bool)
        ensures
            same == (self@ == other@),
    {
        self.text == other.text
    }
}

impl vstd::std_specs::cmp::PartialEqSpecImpl for Name {
    open spec fn obeys_eq_spec() -> bool {
        true
    }

    open spec fn eq_spec(&self, other: &Name) -> bool {
        self@ == other@
    }
}

/// A name together with the module that defines it.
#[derive(Debug, Eq, PartialOrd, Ord, Hash)]
pub struct QName {
    module: Name,
    id: Name,
}

/// What a [`QName`] says.
#[verifier::ext_equal]
pub struct QNameView {
    pub module: Seq<char>,
    pub id: Seq<char>,
}

impl View for QName {
    type V = QNameView;

    closed spec fn view(&self) -> QNameView {
        QNameView { module: self.module@, id: self.id@ }
    }
}

impl QName {
    pub fn new(module: Name, id: Name) -> (qname: QName)
        ensures
            qname@ == (QNameView { module: module@, id: id@ }),
    {
        QName { module, id }
    }

    /// The name inside its module.
    pub fn id(&self) -> (id: &Name)
        ensures
            id@ == self@.id,
    {
        &self.id
    }

    /// The module that defines the name.
    pub fn module(&self) -> (module: &Name)
        ensures
            module@ == self@.module,
    {
        &self.module
    }
}

impl PartialEq for QName {
    fn eq(&self, other: &QName) -> (same: bool)
        ensures
            same == (self@.module == other@.module && self@.id == other@.id),
    {
        self.module == other.module && self.id == other.id
    }
}

impl vstd::std_specs::cmp::PartialEqSpecImpl for QName {
    open spec fn obeys_eq_spec() -> bool {
        true
    }

    open spec fn eq_spec(&self, other: &QName) -> bool {
        self@ == other@
    }
}

/// Another handle on the same qualified name. This is `dupe` of the crate `dupe` on an `Arc`:
/// the new handle shares the value, so it stands for the same name.
#[verifier::external_body]
pub(crate) fn dupe_qname(qname: &Arc<QName>) -> (copy: Arc<QName>)
    ensures
        copy == *qname,
{
    dupe::Dupe::dupe(qname)
}

} // verus!
