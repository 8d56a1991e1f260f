//! Literal types: the type of one value.
use vstd::prelude::*;

verus! {

/// A value that a type can consist of.
#[derive(Debug, Eq, PartialOrd, Ord, Hash)]
pub enum Lit {
    String(String),
    Int(i64),
    Bool(bool),
    Bytes(Vec<u8>),
}

/// What a [`Lit`] says.
#[verifier::ext_equal]
pub enum LitView {
    String(Seq<char>),
    Int(i64),
    Bool(bool),
    Bytes(Seq<u8>),
}

impl View for Lit {
    type V = LitView;

    open spec fn view(&self) -> LitView {
        match *self {
            Lit::String(text) => LitView::String(text@),
            Lit::Int(value) => LitView::Int(value),
            Lit::Bool(value) => LitView::Bool(value),
            Lit::Bytes(bytes) => LitView::Bytes(bytes@),
        }
    }
}

impl LitView {
    /// Whether Python takes the value for true.
    pub open spec fn truth(self) -> bool {
        match self {
            LitView::String(text) => text.len() > 0,
            LitView::Int(value) => value != 0,
            LitView::Bool(value) => value,
            LitView::Bytes(bytes) => bytes.len() > 0,
        }
    }
}

fn clone_bytes(bytes: &Vec<u8>) -> (copy: Vec<u8>)
    ensures
        copy@ == bytes@,
{
    let mut copy: Vec<u8> = Vec::new();
    for i in 0..bytes.len()
        invariant
            copy@ == bytes@.take(i as int),
    {
        copy.push(bytes[i]);
    }
    copy
}

fn same_bytes(a: &Vec<u8>, b: &Vec<u8>) -> (same: bool)
    ensures
        same == (a@ == b@),
{
    if a.len() != b.len() {
        return false;
    }
    for i in 0..a.len()
        invariant
            a.len() == b.len(),
            a@.take(i as int) == b@.take(i as int),
    {
        if a[i] != b[i] {
            return false;
        }
        assert(a@.take(i + 1) == a@.take(i as int).push(a@[i as int]));
        assert(b@.take(i + 1) == b@.take(i as int).push(b@[i as int]));
    }
    assert(a@ == a@.take(a.len() as int));
    assert(b@ == b@.take(b.len() as int));
    true
}

impl Clone for Lit {
    fn clone(&self) -> (copy: Lit)
        ensures
            copy@ == self@,
    {
        match self {
            Lit::String(text) => Lit::String(text.clone()),
            Lit::Int(value) => Lit::Int(*value),
            Lit::Bool(value) => Lit::Bool(*value),
            Lit::Bytes(bytes) => Lit::Bytes(clone_bytes(bytes)),
        }
    }
}

impl PartialEq for Lit {
    fn eq(&self, other: &Lit) -> (same: bool)
        ensures
            same == match (*self, *other) {
                (Lit::String(a), Lit::String(b)) => a@ == b@,
                (Lit::Int(a), Lit::Int(b)) => a == b,
                (Lit::Bool(a), Lit::Bool(b)) => a == b,
                (Lit::Bytes(a), Lit::Bytes(b)) => a@ == b@,
                _ => false,
            },
    {
        match (self, other) {
            (Lit::String(a), Lit::String(b)) => *a == *b,
            (Lit::Int(a), Lit::Int(b)) => *a == *b,
            (Lit::Bool(a), Lit::Bool(b)) => *a == *b,
            (Lit::Bytes(a), Lit::Bytes(b)) => same_bytes(a, b),
            _ => false,
        }
    }
}

impl vstd::std_specs::cmp::PartialEqSpecImpl for Lit {
    open spec fn obeys_eq_spec() -> bool {
        true
    }

    open spec fn eq_spec(&self, other: &Lit) -> bool {
        self@ == other@
    }
}

} // verus!
