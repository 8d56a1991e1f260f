//! Utilities for formatting output.
use itertools::Either;
use std::marker::PhantomData;
use std::rc::Rc;
use std::sync::Arc;
use vstd::prelude::*;

verus! {

broadcast use vstd::function::group_function_axioms;

/// `itertools::Either`, one of two values.
#[verifier::external_type_specification]
pub struct ExEither<L, R>(Either<L, R>);

/// That something could not be rendered.
#[derive(Debug, Clone, Copy, PartialEq, Eq, Structural)]
pub struct FormatError;

/// Where text stands in a space that is wider than it.
#[derive(Debug, Clone, Copy, PartialEq, Eq, Structural)]
pub enum Alignment {
    Left,
    Right,
    Center,
}

/// How something is to be rendered. What is rendered decides which of the options it heeds.
#[derive(Debug, Clone, Copy)]
pub struct FormatOptions {
    /// How many characters to write at least.
    pub width: Option<usize>,
    /// How many characters of a text to write at most.
    pub precision: Option<usize>,
    /// What to write where the text is shorter than the width.
    pub fill: char,
    /// Where to put a text that is shorter than the width.
    pub align: Option<Alignment>,
    /// Whether to write the sign of a number that is not negative.
    pub sign_plus: bool,
    /// Whether to write zeros between the sign of a number and its digits, up to the width.
    pub sign_aware_zero_pad: bool,
    /// Whether to render in another form.
    pub alternate: bool,
}

impl FormatOptions {
    /// Nothing is asked for.
    pub open spec fn plain() -> FormatOptions {
        FormatOptions {
            width: None,
            precision: None,
            fill: ' ',
            align: None,
            sign_plus: false,
            sign_aware_zero_pad: false,
            alternate: false,
        }
    }

    /// Nothing is asked for.
    pub fn new() -> (options: FormatOptions)
        ensures
            options == FormatOptions::plain(),
            options.width is None && options.precision is None && options.align is None,
            options.fill == ' ',
            !options.sign_plus && !options.sign_aware_zero_pad && !options.alternate,
    {
        FormatOptions {
            width: None,
            precision: None,
            fill: ' ',
            align: None,
            sign_plus: false,
            sign_aware_zero_pad: false,
            alternate: false,
        }
    }

    /// How many characters a text of the given length lacks to the width.
    pub open spec fn missing(self, len: nat) -> nat {
        match self.width {
            Some(width) => if width > len {
                (width - len) as nat
            } else {
                0
            },
            None => 0,
        }
    }

    /// The text, filled up to the width. It stands where the options say, or else at `default`.
    pub open spec fn padded(self, text: Seq<char>, default: Alignment) -> Seq<char> {
        let missing = self.missing(text.len());
        let left = match self.align.unwrap_or(default) {
            Alignment::Left => 0,
            Alignment::Right => missing,
            Alignment::Center => missing / 2,
        };
        repeated(self.fill, left) + text + repeated(self.fill, (missing - left) as nat)
    }

    /// The text, cut off after as many characters as may be written.
    pub open spec fn truncated(self, text: Seq<char>) -> Seq<char> {
        match self.precision {
            Some(precision) => if precision < text.len() {
                text.take(precision as int)
            } else {
                text
            },
            None => text,
        }
    }

    /// The text as it is rendered with these options.
    pub open spec fn text(self, text: Seq<char>) -> Seq<char> {
        self.padded(self.truncated(text), Alignment::Left)
    }

    /// The number as it is rendered with these options.
    pub open spec fn number(self, n: int) -> Seq<char> {
        let sign = if n < 0 {
            seq!['-']
        } else if self.sign_plus {
            seq!['+']
        } else {
            seq![]
        };
        let digits = decimal(if n < 0 { (-n) as nat } else { n as nat });
        if self.sign_aware_zero_pad {
            sign + repeated('0', self.missing((sign + digits).len())) + digits
        } else {
            self.padded(sign + digits, Alignment::Right)
        }
    }
}

/// With nothing asked for, text is rendered as it is, and a number in decimal, with a sign if it is
/// negative.
pub proof fn plain_is_unpadded(text: Seq<char>, n: int)
    ensures
        FormatOptions::plain().text(text) == text,
        FormatOptions::plain().number(n) == signed_decimal(n),
{
    let number = if n < 0 {
        seq!['-'] + decimal((-n) as nat)
    } else {
        Seq::<char>::empty() + decimal(n as nat)
    };
    assert(FormatOptions::plain().padded(text, Alignment::Left) =~= text);
    assert(FormatOptions::plain().padded(number, Alignment::Right) =~= number);
    assert(number =~= signed_decimal(n));
}

/// A character, as often as `n` says.
pub open spec fn repeated(c: char, n: nat) -> Seq<char> {
    Seq::new(n, |i: int| c)
}

/// `String::push`: appends the character.
pub assume_specification[ std::string::String::push ](s: &mut std::string::String, c: char)
    ensures
        final(s)@ == old(s)@.push(c),
;

/// Where renderings are written to, and how things are to be rendered. What has been written stays.
#[derive(Debug)]
pub struct Formatter {
    out: String,
    options: FormatOptions,
}

impl View for Formatter {
    type V = Seq<char>;

    /// What has been written.
    closed spec fn view(&self) -> Seq<char> {
        self.out@
    }
}

impl Formatter {
    /// Nothing has been written yet.
    pub fn new(options: FormatOptions) -> (f: Formatter)
        ensures
            f@.len() == 0,
            f.options() == options,
    {
        Formatter { out: String::new(), options }
    }

    pub closed spec fn spec_options(&self) -> FormatOptions {
        self.options
    }

    /// How things are to be rendered.
    #[verifier::when_used_as_spec(spec_options)]
    pub fn options(&self) -> (options: FormatOptions)
        ensures
            options == self.options(),
    {
        self.options
    }

    /// Writes text as it is, whatever the options are.
    pub fn write_str(&mut self, text: &str) -> (res: Result<(), FormatError>)
        ensures
            res is Ok,
            final(self)@ == old(self)@ + text@,
            final(self).options() == old(self).options(),
    {
        self.out.append(text);
        Ok(())
    }

    fn write_repeated(&mut self, c: char, n: usize)
        ensures
            final(self)@ == old(self)@ + repeated(c, n as nat),
            final(self).options() == old(self).options(),
    {
        for i in 0..n
            invariant
                self@ =~= old(self)@ + repeated(c, i as nat),
                self.options() == old(self).options(),
        {
            self.out.push(c);
        }
    }

    /// How many characters a text of the given length lacks to the width.
    fn missing(&self, len: usize) -> (missing: usize)
        ensures
            missing == self.options().missing(len as nat),
    {
        match self.options.width {
            Some(width) => if width > len {
                width - len
            } else {
                0
            },
            None => 0,
        }
    }

    fn write_padded(&mut self, text: &str, default: Alignment)
        ensures
            final(self)@ == old(self)@ + old(self).options().padded(text@, default),
            final(self).options() == old(self).options(),
    {
        let missing = self.missing(text.unicode_len());
        let align = match self.options.align {
            Some(align) => align,
            None => default,
        };
        let left = match align {
            Alignment::Left => 0,
            Alignment::Right => missing,
            Alignment::Center => missing / 2,
        };
        let fill = self.options.fill;
        self.write_repeated(fill, left);
        self.out.append(text);
        self.write_repeated(fill, missing - left);
        assert(self@ =~= old(self)@ + self.options().padded(text@, default));
    }

    /// Writes text as the options say: cut off at the precision and filled up to the width.
    pub fn pad(&mut self, text: &str) -> (res: Result<(), FormatError>)
        ensures
            res is Ok,
            final(self)@ == old(self)@ + old(self).options().text(text@),
            final(self).options() == old(self).options(),
    {
        let text = match self.options.precision {
            Some(precision) => if precision < text.unicode_len() {
                text.substring_char(0, precision)
            } else {
                text
            },
            None => text,
        };
        self.write_padded(text, Alignment::Left);
        Ok(())
    }

    /// Writes a number as the options say. It is `magnitude`, or that below zero.
    fn pad_number(&mut self, negative: bool, magnitude: u64)
        requires
            negative ==> magnitude > 0,
        ensures
            final(self)@ == old(self)@ + old(self).options().number(
                if negative {
                    -magnitude
                } else {
                    magnitude as int
                },
            ),
            final(self).options() == old(self).options(),
    {
        proof {
            reveal_strlit("-");
            reveal_strlit("+");
            reveal_strlit("");
            assert("-"@ =~= seq!['-']);
            assert("+"@ =~= seq!['+']);
            assert(""@ =~= seq![]);
        }
        let sign = if negative {
            "-"
        } else if self.options.sign_plus {
            "+"
        } else {
            ""
        };
        if self.options.sign_aware_zero_pad {
            let digits = decimal_string(magnitude, "");
            let signed = decimal_string(magnitude, sign);
            assert(digits@ =~= decimal(magnitude as nat));
            let missing = self.missing(signed.as_str().unicode_len());
            self.out.append(sign);
            self.write_repeated('0', missing);
            self.out.append(digits.as_str());
            assert(self@ =~= old(self)@ + (sign@ + repeated('0', missing as nat) + digits@));
        } else {
            self.write_padded(decimal_string(magnitude, sign).as_str(), Alignment::Right);
        }
    }

    /// What has been written.
    pub fn into_string(self) -> (text: String)
        ensures
            text@ == self@,
    {
        self.out
    }
}

/// What can be rendered as text. Where an implementation does not say what it renders, it may render
/// anything.
pub trait Display {
    /// Whether it can be asked for.
    open spec fn ready(&self) -> bool {
        true
    }

    /// Whether rendering with the options may write `text` and then come to its end, if `complete`,
    /// or else fail.
    open spec fn renders(&self, options: FormatOptions, text: Seq<char>, complete: bool) -> bool {
        true
    }

    fn fmt(&self, f: &mut Formatter) -> (res: Result<(), FormatError>)
        requires
            self.ready(),
        ensures
            old(f)@.is_prefix_of(final(f)@),
            final(f).options() == old(f).options(),
            self.renders(old(f).options(), final(f)@.skip(old(f)@.len() as int), res is Ok),
    ;

    /// The rendering with the options.
    fn to_string_with(&self, options: FormatOptions) -> (text: String)
        requires
            self.ready(),
            forall|text: Seq<char>| !self.renders(options, text, false),
        ensures
            self.renders(options, text@, true),
    {
        let mut f = Formatter::new(options);
        let _ = self.fmt(&mut f);
        assert(f@.skip(0) == f@);
        f.into_string()
    }

    /// The rendering with nothing asked for.
    fn to_string(&self) -> (text: String)
        requires
            self.ready(),
            forall|text: Seq<char>| !self.renders(FormatOptions::plain(), text, false),
        ensures
            self.renders(FormatOptions::plain(), text@, true),
    {
        self.to_string_with(FormatOptions::new())
    }
}

impl<T: Display + ?Sized> Display for &T {
    open spec fn ready(&self) -> bool {
        (**self).ready()
    }

    open spec fn renders(&self, options: FormatOptions, text: Seq<char>, complete: bool) -> bool {
        (**self).renders(options, text, complete)
    }

    fn fmt(&self, f: &mut Formatter) -> Result<(), FormatError> {
        (**self).fmt(f)
    }
}

/// Text heeds the precision and the width.
impl Display for str {
    open spec fn ready(&self) -> bool {
        true
    }

    open spec fn renders(&self, options: FormatOptions, text: Seq<char>, complete: bool) -> bool {
        complete && text == options.text(self@)
    }

    fn fmt(&self, f: &mut Formatter) -> Result<(), FormatError> {
        let res = f.pad(self);
        assert(f@.skip(old(f)@.len() as int) == f.options().text(self@));
        res
    }
}

/// Text heeds the precision and the width.
impl Display for String {
    open spec fn ready(&self) -> bool {
        true
    }

    open spec fn renders(&self, options: FormatOptions, text: Seq<char>, complete: bool) -> bool {
        complete && text == options.text(self@)
    }

    fn fmt(&self, f: &mut Formatter) -> Result<(), FormatError> {
        self.as_str().fmt(f)
    }
}

/// One of two values is rendered as that value.
impl<L: Display, R: Display> Display for Either<L, R> {
    open spec fn ready(&self) -> bool {
        match *self {
            Either::Left(x) => x.ready(),
            Either::Right(x) => x.ready(),
        }
    }

    open spec fn renders(&self, options: FormatOptions, text: Seq<char>, complete: bool) -> bool {
        match *self {
            Either::Left(x) => x.renders(options, text, complete),
            Either::Right(x) => x.renders(options, text, complete),
        }
    }

    fn fmt(&self, f: &mut Formatter) -> Result<(), FormatError> {
        match self {
            Either::Left(x) => x.fmt(f),
            Either::Right(x) => x.fmt(f),
        }
    }
}

/// The digit of a number below ten.
pub open spec fn digit(n: nat) -> char {
    seq!['0', '1', '2', '3', '4', '5', '6', '7', '8', '9'][n as int]
}

/// A number in decimal.
pub open spec fn decimal(n: nat) -> Seq<char>
    decreases n,
{
    if n < 10 {
        seq![digit(n)]
    } else {
        decimal(n / 10).push(digit(n % 10))
    }
}

/// A number in decimal, with a sign if it is negative.
pub open spec fn signed_decimal(n: int) -> Seq<char> {
    if n < 0 {
        seq!['-'] + decimal((-n) as nat)
    } else {
        decimal(n as nat)
    }
}

fn digit_text(n: u64) -> (text: &'static str)
    requires
        n < 10,
    ensures
        text@ == seq![digit(n as nat)],
{
    proof {
        reveal_strlit("0");
        reveal_strlit("1");
        reveal_strlit("2");
        reveal_strlit("3");
        reveal_strlit("4");
        reveal_strlit("5");
        reveal_strlit("6");
        reveal_strlit("7");
        reveal_strlit("8");
        reveal_strlit("9");
    }
    match n {
        0 => "0",
        1 => "1",
        2 => "2",
        3 => "3",
        4 => "4",
        5 => "5",
        6 => "6",
        7 => "7",
        8 => "8",
        _ => "9",
    }
}

/// A number in decimal, behind `sign`.
fn decimal_string(n: u64, sign: &str) -> (text: String)
    ensures
        text@ == sign@ + decimal(n as nat),
    decreases n,
{
    let mut text = if n >= 10 {
        decimal_string(n / 10, sign)
    } else {
        sign.to_owned()
    };
    text.append(digit_text(n % 10));
    assert(text@ =~= sign@ + decimal(n as nat));
    text
}

/// A number is rendered in decimal and heeds the width.
impl Display for u64 {
    open spec fn ready(&self) -> bool {
        true
    }

    open spec fn renders(&self, options: FormatOptions, text: Seq<char>, complete: bool) -> bool {
        complete && text == options.number(*self as int)
    }

    fn fmt(&self, f: &mut Formatter) -> Result<(), FormatError> {
        f.pad_number(false, *self);
        assert(f@.skip(old(f)@.len() as int) == f.options().number(*self as int));
        Ok(())
    }
}

/// A number is rendered in decimal and heeds the width.
impl Display for i32 {
    open spec fn ready(&self) -> bool {
        true
    }

    open spec fn renders(&self, options: FormatOptions, text: Seq<char>, complete: bool) -> bool {
        complete && text == options.number(*self as int)
    }

    fn fmt(&self, f: &mut Formatter) -> Result<(), FormatError> {
        let n = *self as i64;
        if n < 0 {
            f.pad_number(true, (-n) as u64);
        } else {
            f.pad_number(false, n as u64);
        }
        assert(f@.skip(old(f)@.len() as int) == f.options().number(n as int));
        Ok(())
    }
}

/// The elements of one list, then those of another.
pub fn append<A, B>(a: Vec<A>, b: Vec<B>) -> (items: Vec<Either<A, B>>)
    ensures
        items@ == a@.map_values(|x: A| Either::<A, B>::Left(x)) + b@.map_values(
            |x: B| Either::<A, B>::Right(x),
        ),
{
    let mut items: Vec<Either<A, B>> = Vec::new();
    let ghost lefts = a@.map_values(|x: A| Either::<A, B>::Left(x));
    let ghost rights = b@.map_values(|x: B| Either::<A, B>::Right(x));
    for x in iter: a
        invariant
            iter.seq() == a@,
            lefts == a@.map_values(|x: A| Either::<A, B>::Left(x)),
            items@ == lefts.take(iter.index()),
    {
        items.push(Either::Left(x));
    }
    for x in iter: b
        invariant
            iter.seq() == b@,
            rights == b@.map_values(|x: B| Either::<A, B>::Right(x)),
            items@ == lefts + rights.take(iter.index()),
    {
        items.push(Either::Right(x));
    }
    items
}

/// `seps[i]` is a rendering of the separator and `pieces[i]` one of the item that comes after it,
/// for each of the first items. Before the first item there is no separator. Each item and each
/// separator is rendered with the options.
pub open spec fn is_listing<T: Display, S: Display>(
    items: Seq<T>,
    separator: S,
    options: FormatOptions,
    seps: Seq<Seq<char>>,
    pieces: Seq<Seq<char>>,
) -> bool {
    &&& seps.len() == pieces.len() <= items.len()
    &&& forall|i: int|
        0 <= i < pieces.len() ==> separates(separator, options, i, #[trigger] seps[i])
            && items[i].renders(options, pieces[i], true)
}

/// Whether `sep` may stand before the item at position `i`.
pub open spec fn separates<S: Display>(
    separator: S,
    options: FormatOptions,
    i: int,
    sep: Seq<char>,
) -> bool {
    if i == 0 {
        sep.len() == 0
    } else {
        separator.renders(options, sep, true)
    }
}

/// Each separator with the piece that comes after it, from left to right.
pub open spec fn listing(seps: Seq<Seq<char>>, pieces: Seq<Seq<char>>) -> Seq<char>
    decreases pieces.len(),
{
    if pieces.len() == 0 {
        seq![]
    } else {
        listing(seps.drop_last(), pieces.drop_last()) + seps.last() + pieces.last()
    }
}

/// Whether `text` may be what the items look like with the separator between them, each of them
/// rendered with the options. If it is not `complete`, the separator or an item failed, and nothing
/// was written after that.
pub open spec fn interspersed<T: Display, S: Display>(
    items: Seq<T>,
    separator: S,
    options: FormatOptions,
    text: Seq<char>,
    complete: bool,
) -> bool {
    exists|seps: Seq<Seq<char>>, pieces: Seq<Seq<char>>| #[trigger]
        is_listing(items, separator, options, seps, pieces) && if complete {
            pieces.len() == items.len() && text == listing(seps, pieces)
        } else {
            pieces.len() < items.len() && breaks_off(
                items[pieces.len() as int],
                separator,
                options,
                pieces.len() as int,
                listing(seps, pieces),
                text,
            )
        }
}

/// Whether `text` may be what there is, after `before`, when the item at position `i` or the
/// separator before it fails.
pub open spec fn breaks_off<T: Display, S: Display>(
    item: T,
    separator: S,
    options: FormatOptions,
    i: int,
    before: Seq<char>,
    text: Seq<char>,
) -> bool {
    ||| i > 0 && exists|sep: Seq<char>| #[trigger]
        separator.renders(options, sep, false) && text == before + sep
    ||| exists|sep: Seq<char>, piece: Seq<char>| #[trigger]
        separates(separator, options, i, sep) && #[trigger] item.renders(options, piece, false)
            && text == before + sep + piece
}

/// Texts with `sep` between them.
pub open spec fn join(texts: Seq<Seq<char>>, sep: Seq<char>) -> Seq<char>
    decreases texts.len(),
{
    if texts.len() == 0 {
        seq![]
    } else if texts.len() == 1 {
        texts[0]
    } else {
        join(texts.drop_last(), sep) + sep + texts.last()
    }
}

/// If each item has one rendering with the options and so has the separator, and none of them fails,
/// then the items with the separator between them are the renderings joined.
pub proof fn interspersed_is_join<T: Display, S: Display>(
    items: Seq<T>,
    separator: S,
    options: FormatOptions,
    texts: Seq<Seq<char>>,
    sep: Seq<char>,
    text: Seq<char>,
    complete: bool,
)
    requires
        interspersed(items, separator, options, text, complete),
        texts.len() == items.len(),
        forall|i: int, t: Seq<char>, c: bool|
            0 <= i < items.len() && #[trigger] items[i].renders(options, t, c) ==> c && t == texts[i],
        forall|t: Seq<char>, c: bool| #[trigger] separator.renders(options, t, c) ==> c && t == sep,
    ensures
        complete,
        text == join(texts, sep),
{
    let (seps, pieces) = choose|seps: Seq<Seq<char>>, pieces: Seq<Seq<char>>| #[trigger]
        is_listing(items, separator, options, seps, pieces) && if complete {
            pieces.len() == items.len() && text == listing(seps, pieces)
        } else {
            pieces.len() < items.len() && breaks_off(
                items[pieces.len() as int],
                separator,
                options,
                pieces.len() as int,
                listing(seps, pieces),
                text,
            )
        };
    assert(complete);
    listing_is_join(items, separator, options, seps, pieces, texts, sep);
    assert(texts.take(pieces.len() as int) == texts);
}

pub(crate) proof fn listing_is_join<T: Display, S: Display>(
    items: Seq<T>,
    separator: S,
    options: FormatOptions,
    seps: Seq<Seq<char>>,
    pieces: Seq<Seq<char>>,
    texts: Seq<Seq<char>>,
    sep: Seq<char>,
)
    requires
        is_listing(items, separator, options, seps, pieces),
        texts.len() == items.len(),
        forall|i: int, t: Seq<char>|
            0 <= i < items.len() && #[trigger] items[i].renders(options, t, true) ==> t == texts[i],
        forall|t: Seq<char>| #[trigger] separator.renders(options, t, true) ==> t == sep,
    ensures
        listing(seps, pieces) == join(texts.take(pieces.len() as int), sep),
    decreases pieces.len(),
{
    let n = pieces.len() as int;
    if n > 0 {
        let (seps1, pieces1) = (seps.drop_last(), pieces.drop_last());
        assert(is_listing(items, separator, options, seps1, pieces1)) by {
            assert forall|i: int| 0 <= i < n - 1 implies separates(
                separator,
                options,
                i,
                #[trigger] seps1[i],
            ) && items[i].renders(options, pieces1[i], true) by {
                assert(seps1[i] == seps[i]);
            }
        }
        listing_is_join(items, separator, options, seps1, pieces1, texts, sep);
        assert(texts.take(n).drop_last() == texts.take(n - 1));
        assert(separates(separator, options, n - 1, seps[n - 1]));
        assert(items[n - 1].renders(options, pieces[n - 1], true));
        if n == 1 {
            assert(seps[0] =~= seq![]);
            assert(listing(seps1, pieces1) =~= seq![]);
            assert(listing(seps, pieces) =~= texts[0]);
        }
    }
}

/// Items with a separator between them. The items are made anew for each rendering. Each item and
/// each separator is rendered with the options of the whole.
pub struct Intersperse<F, T, S> {
    pub items: F,
    pub separator: S,
    pub of: PhantomData<T>,
}

impl<F, T, S> Intersperse<F, T, S> where F: Fn() -> Vec<T>, T: Display, S: Display {
    /// Whether the closure can be called, and what it makes can be rendered, and so can the
    /// separator.
    pub open spec fn can_render(&self) -> bool {
        &&& call_requires(self.items, ())
        &&& forall|items: Vec<T>, i: int|
            call_ensures(self.items, (), items) && 0 <= i < items@.len()
                ==> (#[trigger] items@[i]).ready()
        &&& self.separator.ready()
    }

    /// Whether rendering with the options may write `text` and then come to its end, if `complete`,
    /// or else fail.
    pub open spec fn may_render(
        &self,
        options: FormatOptions,
        text: Seq<char>,
        complete: bool,
    ) -> bool {
        exists|items: Vec<T>| #[trigger]
            call_ensures(self.items, (), items) && interspersed(
                items@,
                self.separator,
                options,
                text,
                complete,
            )
    }

    /// Renders the items that the closure makes.
    pub fn fmt(&self, f: &mut Formatter) -> (res: Result<(), FormatError>)
        requires
            self.can_render(),
        ensures
            old(f)@.is_prefix_of(final(f)@),
            final(f).options() == old(f).options(),
            self.may_render(old(f).options(), final(f)@.skip(old(f)@.len() as int), res is Ok),
    {
        let items = (self.items)();
        let ghost start = f@;
        let ghost options = f.options();
        let ghost mut seps: Seq<Seq<char>> = seq![];
        let ghost mut pieces: Seq<Seq<char>> = seq![];
        for i in 0..items.len()
            invariant
                self.can_render(),
                call_ensures(self.items, (), items),
                start == old(f)@,
                options == old(f).options(),
                f.options() == options,
                pieces.len() == i,
                is_listing(items@, self.separator, options, seps, pieces),
                f@ == start + listing(seps, pieces),
        {
            let ghost before = f@;
            let ghost mut sep: Seq<char> = seq![];
            if i != 0 {
                match self.separator.fmt(f) {
                    Ok(()) => {},
                    Err(error) => {
                        proof {
                            let sep = f@.skip(before.len() as int);
                            assert(self.separator.renders(options, sep, false));
                            assert(f@ == before + sep);
                            assert(f@.skip(start.len() as int) == listing(seps, pieces) + sep);
                        }
                        return Err(error);
                    },
                }
                proof {
                    sep = f@.skip(before.len() as int);
                }
            }
            assert(separates(self.separator, options, i as int, sep));
            assert(f@ == before + sep);
            let ghost between = f@;
            match items[i].fmt(f) {
                Ok(()) => {},
                Err(error) => {
                    proof {
                        let piece = f@.skip(between.len() as int);
                        assert(items@[i as int].renders(options, piece, false));
                        assert(f@ == between + piece);
                        assert(f@.skip(start.len() as int) == listing(seps, pieces) + sep + piece);
                    }
                    return Err(error);
                },
            }
            proof {
                let piece = f@.skip(between.len() as int);
                let (seps2, pieces2) = (seps.push(sep), pieces.push(piece));
                assert(seps2.drop_last() == seps && pieces2.drop_last() == pieces);
                assert(f@ == between + piece);
                assert(listing(seps2, pieces2) == listing(seps, pieces) + sep + piece);
                assert(f@ == start + listing(seps2, pieces2));
                seps = seps2;
                pieces = pieces2;
            }
        }
        assert(f@.skip(start.len() as int) == listing(seps, pieces));
        Ok(())
    }

    /// The rendering of the items that the closure makes, with the options.
    pub fn to_string_with(&self, options: FormatOptions) -> (text: String)
        requires
            self.can_render(),
            forall|text: Seq<char>| !self.may_render(options, text, false),
        ensures
            self.may_render(options, text@, true),
    {
        let mut f = Formatter::new(options);
        let _ = self.fmt(&mut f);
        assert(f@.skip(0) == f@);
        f.into_string()
    }

    /// The rendering of the items that the closure makes, with nothing asked for.
    pub fn to_string(&self) -> (text: String)
        requires
            self.can_render(),
            forall|text: Seq<char>| !self.may_render(FormatOptions::plain(), text, false),
        ensures
            self.may_render(FormatOptions::plain(), text@, true),
    {
        self.to_string_with(FormatOptions::new())
    }
}

impl<F, T, S> Display for Intersperse<F, T, S> where F: Fn() -> Vec<T>, T: Display, S: Display {
    open spec fn ready(&self) -> bool {
        self.can_render()
    }

    open spec fn renders(&self, options: FormatOptions, text: Seq<char>, complete: bool) -> bool {
        self.may_render(options, text, complete)
    }

    fn fmt(&self, f: &mut Formatter) -> Result<(), FormatError> {
        Intersperse::fmt(self, f)
    }
}

pub fn commas_iter<F, T>(a: F) -> (list: Intersperse<F, T, &'static str>) where
    F: Fn() -> Vec<T>,
    T: Display,

    ensures
        list.items == a,
        list.separator@ == seq![',', ' '],
{
    proof {
        reveal_strlit(", ");
        assert(", "@ =~= seq![',', ' ']);
    }
    intersperse_iter(a, ", ")
}

pub fn intersperse_iter<F, T, S>(a: F, separator: S) -> (list: Intersperse<F, T, S>) where
    F: Fn() -> Vec<T>,
    T: Display,
    S: Display,

    ensures
        list.items == a,
        list.separator == separator,
{
    Intersperse { items: a, separator, of: PhantomData }
}

/// What a closure writes.
pub struct Fmt<F: Fn(&mut Formatter) -> Result<(), FormatError>>(pub F);

impl<F> Fmt<F> where F: Fn(&mut Formatter) -> Result<(), FormatError> {
    /// Calls the closure.
    pub fn fmt(&self, f: &mut Formatter) -> (res: Result<(), FormatError>)
        requires
            forall|x: &mut Formatter| *x == *old(f) ==> call_requires(self.0, (x,)),
        ensures
            exists|x: &mut Formatter|
                *x == *old(f) && #[trigger] call_ensures(self.0, (x,), res) && *final(x)
                    == *final(f),
    {
        (self.0)(f)
    }

    /// What the closure writes where nothing has been written yet, with the options.
    pub fn to_string_with(&self, options: FormatOptions) -> (text: String)
        requires
            forall|f: &mut Formatter|
                f@.len() == 0 && f.options() == options ==> call_requires(self.0, (f,)),
            forall|f: &mut Formatter, res: Result<(), FormatError>|
                f@.len() == 0 && f.options() == options && #[trigger] call_ensures(
                    self.0,
                    (f,),
                    res,
                ) ==> res is Ok,
        ensures
            exists|f: &mut Formatter, res: Result<(), FormatError>|
                f@.len() == 0 && f.options() == options && #[trigger] call_ensures(
                    self.0,
                    (f,),
                    res,
                ) && final(f)@ == text@,
    {
        let mut f = Formatter::new(options);
        let _ = self.fmt(&mut f);
        f.into_string()
    }

    /// What the closure writes where nothing has been written yet, with nothing asked for.
    pub fn to_string(&self) -> (text: String)
        requires
            forall|f: &mut Formatter|
                f@.len() == 0 && f.options() == FormatOptions::plain() ==> call_requires(
                    self.0,
                    (f,),
                ),
            forall|f: &mut Formatter, res: Result<(), FormatError>|
                f@.len() == 0 && f.options() == FormatOptions::plain() && #[trigger] call_ensures(
                    self.0,
                    (f,),
                    res,
                ) ==> res is Ok,
        ensures
            exists|f: &mut Formatter, res: Result<(), FormatError>|
                f@.len() == 0 && f.options() == FormatOptions::plain() && #[trigger] call_ensures(
                    self.0,
                    (f,),
                    res,
                ) && final(f)@ == text@,
    {
        self.to_string_with(FormatOptions::new())
    }
}

/// Like [`Display`], but allows passing some additional context.
pub trait DisplayWith<Ctx> {
    /// Whether it can be asked for.
    open spec fn ready_with(&self, ctx: &Ctx) -> bool {
        true
    }

    /// Whether rendering in the context with the options may write `text` and then come to its end,
    /// if `complete`, or else fail.
    open spec fn renders_with(
        &self,
        ctx: &Ctx,
        options: FormatOptions,
        text: Seq<char>,
        complete: bool,
    ) -> bool {
        true
    }

    fn fmt(&self, f: &mut Formatter, ctx: &Ctx) -> (res: Result<(), FormatError>)
        requires
            self.ready_with(ctx),
        ensures
            old(f)@.is_prefix_of(final(f)@),
            final(f).options() == old(f).options(),
            self.renders_with(
                ctx,
                old(f).options(),
                final(f)@.skip(old(f)@.len() as int),
                res is Ok,
            ),
    ;

    fn display_with<'a>(&'a self, ctx: &'a Ctx) -> (shown: InContext<'a, Self, Ctx>)
        ensures
            shown == (InContext { value: self, ctx }),
    {
        InContext { value: self, ctx }
    }
}

/// A value and the context to render it in.
pub struct InContext<'a, T: ?Sized, Ctx> {
    pub value: &'a T,
    pub ctx: &'a Ctx,
}

impl<'a, Ctx, T: DisplayWith<Ctx> + ?Sized> Display for InContext<'a, T, Ctx> {
    open spec fn ready(&self) -> bool {
        self.value.ready_with(self.ctx)
    }

    open spec fn renders(&self, options: FormatOptions, text: Seq<char>, complete: bool) -> bool {
        self.value.renders_with(self.ctx, options, text, complete)
    }

    fn fmt(&self, f: &mut Formatter) -> Result<(), FormatError> {
        self.value.fmt(f, self.ctx)
    }
}

// General wrappers

impl<Ctx, T: DisplayWith<Ctx>> DisplayWith<Ctx> for &T {
    open spec fn ready_with(&self, ctx: &Ctx) -> bool {
        (**self).ready_with(ctx)
    }

    open spec fn renders_with(
        &self,
        ctx: &Ctx,
        options: FormatOptions,
        text: Seq<char>,
        complete: bool,
    ) -> bool {
        (**self).renders_with(ctx, options, text, complete)
    }

    fn fmt(&self, f: &mut Formatter, ctx: &Ctx) -> Result<(), FormatError> {
        (**self).fmt(f, ctx)
    }
}

impl<Ctx, T: DisplayWith<Ctx>> DisplayWith<Ctx> for &mut T {
    open spec fn ready_with(&self, ctx: &Ctx) -> bool {
        (**self).ready_with(ctx)
    }

    open spec fn renders_with(
        &self,
        ctx: &Ctx,
        options: FormatOptions,
        text: Seq<char>,
        complete: bool,
    ) -> bool {
        (**self).renders_with(ctx, options, text, complete)
    }

    fn fmt(&self, f: &mut Formatter, ctx: &Ctx) -> Result<(), FormatError> {
        (**self).fmt(f, ctx)
    }
}

impl<Ctx, T: DisplayWith<Ctx>> DisplayWith<Ctx> for Box<T> {
    open spec fn ready_with(&self, ctx: &Ctx) -> bool {
        (**self).ready_with(ctx)
    }

    open spec fn renders_with(
        &self,
        ctx: &Ctx,
        options: FormatOptions,
        text: Seq<char>,
        complete: bool,
    ) -> bool {
        (**self).renders_with(ctx, options, text, complete)
    }

    fn fmt(&self, f: &mut Formatter, ctx: &Ctx) -> Result<(), FormatError> {
        (**self).fmt(f, ctx)
    }
}

impl<Ctx, T: DisplayWith<Ctx>> DisplayWith<Ctx> for Arc<T> {
    open spec fn ready_with(&self, ctx: &Ctx) -> bool {
        (**self).ready_with(ctx)
    }

    open spec fn renders_with(
        &self,
        ctx: &Ctx,
        options: FormatOptions,
        text: Seq<char>,
        complete: bool,
    ) -> bool {
        (**self).renders_with(ctx, options, text, complete)
    }

    fn fmt(&self, f: &mut Formatter, ctx: &Ctx) -> Result<(), FormatError> {
        (**self).fmt(f, ctx)
    }
}

impl<Ctx, T: DisplayWith<Ctx>> DisplayWith<Ctx> for Rc<T> {
    open spec fn ready_with(&self, ctx: &Ctx) -> bool {
        (**self).ready_with(ctx)
    }

    open spec fn renders_with(
        &self,
        ctx: &Ctx,
        options: FormatOptions,
        text: Seq<char>,
        complete: bool,
    ) -> bool {
        (**self).renders_with(ctx, options, text, complete)
    }

    fn fmt(&self, f: &mut Formatter, ctx: &Ctx) -> Result<(), FormatError> {
        (**self).fmt(f, ctx)
    }
}

} // verus!
