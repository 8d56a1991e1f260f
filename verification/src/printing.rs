//! How the parts of types are rendered.
use crate::display::{
    commas_iter, decimal, interspersed, interspersed_is_join, join, plain_is_unpadded, Display,
    FormatError, FormatOptions, Formatter,
};
use crate::structural::clone_quantifieds;
use crate::types::{
    AnyStyle, LegacyTypeParameterLookup, NeverStyle, Quantified, QuantifiedVec, Type, Var,
};
use crate::uniques::Unique;
use vstd::prelude::*;

verus! {

impl Display for Unique {
    open spec fn ready(&self) -> bool {
        true
    }

    open spec fn renders(&self, options: FormatOptions, text: Seq<char>, complete: bool) -> bool {
        complete && text == options.number(self.number() as int)
    }

    fn fmt(&self, f: &mut Formatter) -> Result<(), FormatError> {
        self.to_number().fmt(f)
    }
}

/// `@` and the identity. No option changes it.
pub open spec fn var_text(var: Var) -> Seq<char> {
    seq!['@'] + decimal(var.unique().number() as nat)
}

impl Display for Var {
    open spec fn ready(&self) -> bool {
        true
    }

    open spec fn renders(&self, options: FormatOptions, text: Seq<char>, complete: bool) -> bool {
        complete && text == var_text(*self)
    }

    fn fmt(&self, f: &mut Formatter) -> Result<(), FormatError> {
        proof {
            reveal_strlit("@");
            assert("@"@ =~= seq!['@']);
        }
        f.write_str("@")?;
        proof {
            plain_is_unpadded(seq![], self.unique().number() as int);
        }
        let res = f.write_str(Display::to_string(&self.id()).as_str());
        assert(f@.skip(old(f)@.len() as int) == var_text(*self));
        res
    }
}

/// `?` and the identity. No option changes it.
pub open spec fn quantified_text(quantified: Quantified) -> Seq<char> {
    seq!['?'] + decimal(quantified.unique().number() as nat)
}

impl Display for Quantified {
    open spec fn ready(&self) -> bool {
        true
    }

    open spec fn renders(&self, options: FormatOptions, text: Seq<char>, complete: bool) -> bool {
        complete && text == quantified_text(*self)
    }

    fn fmt(&self, f: &mut Formatter) -> Result<(), FormatError> {
        proof {
            reveal_strlit("?");
            assert("?"@ =~= seq!['?']);
        }
        f.write_str("?")?;
        proof {
            plain_is_unpadded(seq![], self.unique().number() as int);
        }
        let res = f.write_str(Display::to_string(&self.id()).as_str());
        assert(f@.skip(old(f)@.len() as int) == quantified_text(*self));
        res
    }
}

/// The type parameters in brackets, with commas between them. No option changes it.
pub open spec fn quantifieds_text(qs: Seq<Quantified>) -> Seq<char> {
    seq!['['] + join(qs.map_values(|q: Quantified| quantified_text(q)), seq![',', ' ']) + seq![']']
}

impl Display for QuantifiedVec {
    open spec fn ready(&self) -> bool {
        true
    }

    open spec fn renders(&self, options: FormatOptions, text: Seq<char>, complete: bool) -> bool {
        complete && text == quantifieds_text(self.0@)
    }

    fn fmt(&self, f: &mut Formatter) -> Result<(), FormatError> {
        let ghost texts = self.0@.map_values(|q: Quantified| quantified_text(q));
        proof {
            reveal_strlit("[");
            reveal_strlit("]");
            assert("["@ =~= seq!['[']);
            assert("]"@ =~= seq![']']);
        }
        f.write_str("[")?;
        let items = || -> (items: Vec<Quantified>)
            ensures
                items@ == self.0@,
        {
            clone_quantifieds(&self.0)
        };
        let list = commas_iter(items);
        proof {
            plain_is_unpadded(list.separator@, 0);
            assert forall|i: int, t: Seq<char>, c: bool|
                0 <= i < self.0@.len() && #[trigger] self.0@[i].renders(
                    FormatOptions::plain(),
                    t,
                    c,
                ) implies c && t == texts[i] by {}
            assert forall|items: Vec<Quantified>, text: Seq<char>, complete: bool|
                call_ensures(list.items, (), items) && #[trigger] interspersed(
                    items@,
                    list.separator,
                    FormatOptions::plain(),
                    text,
                    complete,
                ) implies complete && text == join(texts, seq![',', ' ']) by {
                interspersed_is_join(
                    items@,
                    list.separator,
                    FormatOptions::plain(),
                    texts,
                    seq![',', ' '],
                    text,
                    complete,
                );
            }
        }
        f.write_str(list.to_string().as_str())?;
        f.write_str("]")?;
        assert(f@.skip(old(f)@.len() as int) == quantifieds_text(self.0@));
        Ok(())
    }
}

/// The name of the style. No option changes it.
pub open spec fn never_style_text(style: NeverStyle) -> Seq<char> {
    match style {
        NeverStyle::Never => seq!['N', 'e', 'v', 'e', 'r'],
        NeverStyle::NoReturn => seq!['N', 'o', 'R', 'e', 't', 'u', 'r', 'n'],
    }
}

impl Display for NeverStyle {
    open spec fn ready(&self) -> bool {
        true
    }

    open spec fn renders(&self, options: FormatOptions, text: Seq<char>, complete: bool) -> bool {
        complete && text == never_style_text(*self)
    }

    fn fmt(&self, f: &mut Formatter) -> Result<(), FormatError> {
        proof {
            reveal_strlit("Never");
            reveal_strlit("NoReturn");
        }
        let name = match self {
            NeverStyle::Never => "Never",
            NeverStyle::NoReturn => "NoReturn",
        };
        let res = f.write_str(name);
        assert(f@.skip(old(f)@.len() as int) == never_style_text(*self));
        res
    }
}

/// The name of the style. No option changes it.
pub open spec fn any_style_text(style: AnyStyle) -> Seq<char> {
    match style {
        AnyStyle::Explicit => seq!['E', 'x', 'p', 'l', 'i', 'c', 'i', 't'],
        AnyStyle::Implicit => seq!['I', 'm', 'p', 'l', 'i', 'c', 'i', 't'],
        AnyStyle::Error => seq!['E', 'r', 'r', 'o', 'r'],
    }
}

impl Display for AnyStyle {
    open spec fn ready(&self) -> bool {
        true
    }

    open spec fn renders(&self, options: FormatOptions, text: Seq<char>, complete: bool) -> bool {
        complete && text == any_style_text(*self)
    }

    fn fmt(&self, f: &mut Formatter) -> Result<(), FormatError> {
        proof {
            reveal_strlit("Explicit");
            reveal_strlit("Implicit");
            reveal_strlit("Error");
        }
        let name = match self {
            AnyStyle::Explicit => "Explicit",
            AnyStyle::Implicit => "Implicit",
            AnyStyle::Error => "Error",
        };
        let res = f.write_str(name);
        assert(f@.skip(old(f)@.len() as int) == any_style_text(*self));
        res
    }
}

impl LegacyTypeParameterLookup {
    /// The rendering of what was found. Types are rendered by `show`. Where it is rendered as a part of
    /// something else, no option of that is handed on to it.
    pub fn to_text<F: Fn(&Type) -> String>(&self, show: F) -> (text: String)
        requires
            forall|ty: &Type| call_requires(show, (ty,)),
        ensures
            match *self {
                LegacyTypeParameterLookup::Parameter(q) => text@ == quantified_text(q),
                LegacyTypeParameterLookup::NotParameter(ty) => call_ensures(show, (&ty,), text),
            },
    {
        match self {
            LegacyTypeParameterLookup::Parameter(q) => Display::to_string(q),
            LegacyTypeParameterLookup::NotParameter(ty) => show(ty),
        }
    }
}

} // verus!
