use pyre_types::display::{
    append, commas_iter, intersperse_iter, Alignment, Display, DisplayWith, Fmt, FormatError,
    FormatOptions, Formatter,
};
use pyre_types::types::{
    AnyStyle, LegacyTypeParameterLookup, NeverStyle, Quantified, QuantifiedVec, Type, Var,
};
use pyre_types::uniques::UniqueFactory;
use itertools::Either;
use std::rc::Rc;
use std::sync::Arc;

#[test]
fn test_commas() {
    assert_eq!(
        commas_iter(|| append(vec![1, 2], vec!["three"])).to_string(),
        "1, 2, three"
    );
    assert_eq!(
        commas_iter(|| [1, 2].iter().map(|x: &i32| -x).collect::<Vec<_>>()).to_string(),
        "-1, -2"
    );
}

#[test]
fn test_fmt() {
    assert_eq!(Fmt(|f: &mut Formatter| f.write_str("hello")).to_string(), "hello");
}

#[test]
fn append_marks_where_items_come_from() {
    let items = append(vec![1, 2], vec!["three"]);
    assert_eq!(items, vec![Either::Left(1), Either::Left(2), Either::Right("three")]);
    let none: Vec<Either<i32, &str>> = append(vec![], vec![]);
    assert!(none.is_empty());
}

#[test]
fn intersperse_edge_cases() {
    let none: Vec<u64> = vec![];
    assert_eq!(intersperse_iter(|| none.clone(), " | ").to_string(), "");
    assert_eq!(intersperse_iter(|| vec![7u64], " | ").to_string(), "7");
    assert_eq!(intersperse_iter(|| vec!["a", "b", "c"], " | ").to_string(), "a | b | c");
    assert_eq!(intersperse_iter(|| vec!["a", "b"], 0u64).to_string(), "a0b");
}

#[test]
fn intersperse_renders_again() {
    let list = commas_iter(|| vec!["x", "y"]);
    assert_eq!(list.to_string(), list.to_string());
    let mut f = Formatter::new(FormatOptions::new());
    assert_eq!(f.write_str("<"), Ok(()));
    assert_eq!(list.fmt(&mut f), Ok(()));
    assert_eq!(f.into_string(), "<x, y");
}

struct Fails(&'static str);

impl Display for Fails {
    fn fmt(&self, f: &mut Formatter) -> Result<(), FormatError> {
        f.write_str(self.0)?;
        Err(FormatError)
    }
}

#[test]
fn intersperse_stops_where_it_fails() {
    let mut f = Formatter::new(FormatOptions::new());
    let items = || append(vec!["a"], vec![Fails("b"), Fails("c")]);
    assert_eq!(intersperse_iter(items, "-").fmt(&mut f), Err(FormatError));
    assert_eq!(f.into_string(), "a-b");
    let mut f = Formatter::new(FormatOptions::new());
    assert_eq!(intersperse_iter(|| vec!["a", "b"], Fails("!")).fmt(&mut f), Err(FormatError));
    assert_eq!(f.into_string(), "a!");
    let mut f = Formatter::new(FormatOptions::new());
    assert_eq!(intersperse_iter(|| vec!["a"], Fails("!")).fmt(&mut f), Ok(()));
    assert_eq!(f.into_string(), "a");
}

#[test]
fn fmt_hands_the_error_on() {
    let mut f = Formatter::new(FormatOptions::new());
    let broken = Fmt(|f: &mut Formatter| {
        f.write_str("part")?;
        Err(FormatError)
    });
    assert_eq!(broken.fmt(&mut f), Err(FormatError));
    assert_eq!(f.into_string(), "part");
}

#[test]
fn numbers_in_decimal() {
    assert_eq!(Display::to_string(&0u64), "0");
    assert_eq!(Display::to_string(&10u64), "10");
    assert_eq!(Display::to_string(&u64::MAX), "18446744073709551615");
    assert_eq!(Display::to_string(&i32::MIN), "-2147483648");
    assert_eq!(Display::to_string(&0i32), "0");
    assert_eq!(Display::to_string(&"text".to_owned()), "text");
}

struct Scaled(u64);

impl DisplayWith<u64> for Scaled {
    fn fmt(&self, f: &mut Formatter, ctx: &u64) -> Result<(), FormatError> {
        Display::fmt(&(self.0 * ctx), f)
    }
}

#[test]
fn display_with_passes_the_context() {
    assert_eq!(Scaled(7).display_with(&6).to_string(), "42");
    assert_eq!((&Scaled(7)).display_with(&1).to_string(), "7");
    assert_eq!(DisplayWith::<u64>::display_with(&&mut Scaled(7), &2).to_string(), "14");
    assert_eq!(DisplayWith::<u64>::display_with(&Box::new(Scaled(7)), &3).to_string(), "21");
    assert_eq!(DisplayWith::<u64>::display_with(&Arc::new(Scaled(7)), &4).to_string(), "28");
    assert_eq!(DisplayWith::<u64>::display_with(&Rc::new(Scaled(7)), &5).to_string(), "35");
}

#[test]
fn variables_and_type_parameters() {
    let mut uniques = UniqueFactory::new();
    let v = Var::new(&mut uniques);
    let q = Quantified::type_var(&mut uniques);
    let r = Quantified::param_spec(&mut uniques);
    assert_eq!(v.to_string(), "@1");
    assert_eq!(q.to_string(), "?2");
    assert_eq!(QuantifiedVec(vec![q, r]).to_string(), "[?2, ?3]");
    assert_eq!(QuantifiedVec::default().to_string(), "[]");
    assert_eq!(uniques.fresh().to_string(), "4");
}

#[test]
fn styles_by_name() {
    assert_eq!(AnyStyle::Explicit.to_string(), "Explicit");
    assert_eq!(AnyStyle::Implicit.to_string(), "Implicit");
    assert_eq!(AnyStyle::Error.to_string(), "Error");
    assert_eq!(NeverStyle::Never.to_string(), "Never");
    assert_eq!(NeverStyle::NoReturn.to_string(), "NoReturn");
}

#[test]
fn legacy_lookup_as_text() {
    let mut uniques = UniqueFactory::new();
    let q = Quantified::type_var(&mut uniques);
    let show = |ty: &Type| if ty.is_none() { "None".to_owned() } else { "?".to_owned() };
    assert_eq!(LegacyTypeParameterLookup::Parameter(q).to_text(show), "?1");
    assert_eq!(LegacyTypeParameterLookup::NotParameter(Type::NoneType).to_text(show), "None");
}

fn width(width: usize) -> FormatOptions {
    FormatOptions { width: Some(width), ..FormatOptions::new() }
}

fn aligned(width: usize, fill: char, align: Alignment) -> FormatOptions {
    FormatOptions { width: Some(width), fill, align: Some(align), ..FormatOptions::new() }
}

#[test]
fn width_applies_to_each_item_and_separator() {
    let right = aligned(3, ' ', Alignment::Right);
    let list = intersperse_iter(|| vec![1, 2], ",");
    assert_eq!(list.to_string_with(right), "  1  ,  2");
    assert_eq!(list.to_string_with(right), format!("{:>3}{:>3}{:>3}", 1, ",", 2));
    assert_eq!(list.to_string_with(width(3)), "  1,    2");
    assert_eq!(list.to_string(), "1,2");
    let mixed = commas_iter(|| append(vec![1], vec!["three"]));
    assert_eq!(mixed.to_string_with(width(4)), "   1,   three");
}

#[test]
fn text_is_padded_as_by_std() {
    let text = "h\u{e9}llo";
    assert_eq!(Display::to_string_with(text, width(8)), format!("{:8}", text));
    for align in [Alignment::Left, Alignment::Right, Alignment::Center] {
        let expected = match align {
            Alignment::Left => format!("{:*<8}", text),
            Alignment::Right => format!("{:*>8}", text),
            Alignment::Center => format!("{:*^8}", text),
        };
        assert_eq!(Display::to_string_with(text, aligned(8, '*', align)), expected);
    }
    assert_eq!(Display::to_string_with(text, width(2)), text);
    let cut = FormatOptions { precision: Some(2), ..width(4) };
    assert_eq!(Display::to_string_with(text, cut), format!("{:4.2}", text));
    let zero = FormatOptions { sign_aware_zero_pad: true, ..width(8) };
    assert_eq!(Display::to_string_with(text, zero), format!("{:08}", text));
    let owned = text.to_owned();
    assert_eq!(Display::to_string_with(&owned, width(8)), format!("{:8}", owned));
}

#[test]
fn numbers_are_padded_as_by_std() {
    for n in [0i32, 7, -7, 12345] {
        assert_eq!(Display::to_string_with(&n, width(4)), format!("{:4}", n));
        assert_eq!(
            Display::to_string_with(&n, aligned(4, '.', Alignment::Left)),
            format!("{:.<4}", n)
        );
        assert_eq!(
            Display::to_string_with(&n, aligned(5, '.', Alignment::Center)),
            format!("{:.^5}", n)
        );
        let plus = FormatOptions { sign_plus: true, ..width(4) };
        assert_eq!(Display::to_string_with(&n, plus), format!("{:+4}", n));
        let zero = FormatOptions { sign_aware_zero_pad: true, ..width(4) };
        assert_eq!(Display::to_string_with(&n, zero), format!("{:04}", n));
        let all = FormatOptions {
            sign_aware_zero_pad: true,
            sign_plus: true,
            precision: Some(1),
            ..aligned(6, '*', Alignment::Left)
        };
        assert_eq!(Display::to_string_with(&n, all), format!("{:*<+06.1}", n));
    }
    assert_eq!(Display::to_string_with(&42u64, width(4)), format!("{:4}", 42u64));
}

#[test]
fn parts_of_types_heed_no_options() {
    let mut uniques = UniqueFactory::new();
    let v = Var::new(&mut uniques);
    let q = Quantified::type_var(&mut uniques);
    assert_eq!(v.to_string_with(width(8)), "@1");
    assert_eq!(q.to_string_with(width(8)), "?2");
    assert_eq!(QuantifiedVec(vec![q, q]).to_string_with(width(8)), "[?2, ?2]");
    assert_eq!(AnyStyle::Error.to_string_with(width(8)), "Error");
    assert_eq!(NeverStyle::Never.to_string_with(width(8)), "Never");
}

#[test]
fn options_reach_closures_and_contexts() {
    let shown = Fmt(|f: &mut Formatter| match f.options().width {
        Some(_) => f.pad("w"),
        None => f.write_str("n"),
    });
    assert_eq!(shown.to_string_with(width(3)), "w  ");
    assert_eq!(shown.to_string(), "n");
    assert_eq!(Scaled(7).display_with(&6).to_string_with(width(4)), "  42");
    let mut f = Formatter::new(width(3));
    assert_eq!(Display::fmt(&1u64, &mut f), Ok(()));
    assert_eq!(f.options().width, Some(3));
    assert_eq!(f.into_string(), "  1");
}
