//! What renderings look like, in terms of what can be read from them.
use crate::display::{
    breaks_off, decimal, digit, interspersed, interspersed_is_join, is_listing, join, listing,
    listing_is_join, plain_is_unpadded, repeated, separates, Alignment, Display, DisplayWith,
    FormatOptions, InContext, Intersperse,
};
use crate::printing::{quantified_text, var_text};
use crate::types::{
    unique_identifies, AnyStyle, NeverStyle, Quantified, QuantifiedVec, Var,
};
use crate::uniques::{number_identifies, Unique};
use itertools::Either;
use std::rc::Rc;
use std::sync::Arc;
use vstd::prelude::*;

verus! {

/// Whether a character is a decimal digit.
pub open spec fn is_digit(c: char) -> bool {
    '0' <= c && c <= '9'
}

/// The number that digits stand for, read from left to right.
pub open spec fn value_of(text: Seq<char>) -> int
    decreases text.len(),
{
    if text.len() == 0 {
        0
    } else {
        10 * value_of(text.drop_last()) + (text.last() as int - '0' as int)
    }
}

/// Whether the text has digits only, and at least one.
pub open spec fn all_digits(text: Seq<char>) -> bool {
    text.len() > 0 && forall|i: int| 0 <= i < text.len() ==> is_digit(#[trigger] text[i])
}

/// Whether the text is the decimal numeral of `n`: digits that stand for `n`, without needless zeros
/// on the left.
pub open spec fn is_numeral(text: Seq<char>, n: int) -> bool {
    &&& all_digits(text)
    &&& text.len() > 1 ==> text[0] != '0'
    &&& value_of(text) == n
}

proof fn digit_reads_back(n: nat)
    requires
        n < 10,
    ensures
        is_digit(digit(n)),
        digit(n) as int - '0' as int == n,
{
    assert(n == 0 || n == 1 || n == 2 || n == 3 || n == 4 || n == 5 || n == 6 || n == 7 || n == 8
        || n == 9);
}

/// A number in decimal is its numeral.
pub proof fn decimal_is_numeral(n: nat)
    ensures
        is_numeral(decimal(n), n as int),
    decreases n,
{
    reveal_with_fuel(value_of, 2);
    if n < 10 {
        digit_reads_back(n);
        assert(decimal(n).drop_last() =~= seq![]);
    } else {
        decimal_is_numeral(n / 10);
        digit_reads_back(n % 10);
        let (high, text) = (decimal(n / 10), decimal(n));
        assert(text.drop_last() =~= high);
        assert(text[0] == high[0]);
        if high.len() == 1 && high[0] == '0' {
            assert(high.drop_last() =~= seq![]);
            assert(value_of(high) == 0);
        }
        assert forall|i: int| 0 <= i < text.len() implies is_digit(#[trigger] text[i]) by {
            if i < high.len() {
                assert(text[i] == high[i]);
            }
        }
    }
}

/// Zeros on the left do not change what digits stand for.
proof fn zeros_on_the_left(text: Seq<char>, zeros: nat)
    requires
        all_digits(text),
    ensures
        all_digits(repeated('0', zeros) + text),
        value_of(repeated('0', zeros) + text) == value_of(text),
    decreases text.len(),
{
    reveal_with_fuel(value_of, 2);
    let all = repeated('0', zeros) + text;
    assert forall|i: int| 0 <= i < all.len() implies is_digit(#[trigger] all[i]) by {
        if i >= zeros {
            assert(all[i] == text[i - zeros]);
        }
    }
    assert(all.drop_last() =~= repeated('0', zeros) + text.drop_last());
    if text.len() == 1 {
        zeros_are_zero(zeros);
        assert(all.drop_last() =~= repeated('0', zeros));
        assert(text.drop_last() =~= seq![]);
    } else {
        let shorter = text.drop_last();
        assert forall|i: int| 0 <= i < shorter.len() implies is_digit(#[trigger] shorter[i]) by {
            assert(shorter[i] == text[i]);
        }
        zeros_on_the_left(shorter, zeros);
    }
}

proof fn zeros_are_zero(zeros: nat)
    ensures
        value_of(repeated('0', zeros)) == 0,
    decreases zeros,
{
    if zeros > 0 {
        zeros_are_zero((zeros - 1) as nat);
        assert(repeated('0', zeros).drop_last() =~= repeated('0', (zeros - 1) as nat));
    }
}

/// Whether the text is the numeral of a number with its sign. One that is not negative has a sign
/// only if `plus`.
pub open spec fn is_signed_numeral(text: Seq<char>, n: int, plus: bool) -> bool {
    if n < 0 {
        text.len() > 0 && text[0] == '-' && is_numeral(text.skip(1), -n)
    } else if plus {
        text.len() > 0 && text[0] == '+' && is_numeral(text.skip(1), n)
    } else {
        is_numeral(text, n)
    }
}

/// Whether `core` stands in the text with nothing but `fill` around it: `left` characters before it
/// and `right` characters after it.
pub open spec fn stands_in(
    text: Seq<char>,
    core: Seq<char>,
    fill: char,
    left: int,
    right: int,
) -> bool {
    &&& 0 <= left && 0 <= right
    &&& text.len() == left + core.len() + right
    &&& text.subrange(left, left + core.len()) == core
    &&& forall|i: int|
        0 <= i < text.len() && !(left <= i < left + core.len()) ==> #[trigger] text[i] == fill
}

/// How long a text of the given length is that is as wide as the options ask for.
pub open spec fn width_at_least(options: FormatOptions, len: int) -> int {
    match options.width {
        Some(width) => if width > len {
            width as int
        } else {
            len
        },
        None => len,
    }
}

/// Whether the text is `core`, filled up to the width and no further, and at the side that the
/// options or else `default` say: with nothing before it, with nothing after it, or in the middle,
/// where one character that is over stands on the right.
pub open spec fn is_laid_out(
    text: Seq<char>,
    core: Seq<char>,
    options: FormatOptions,
    default: Alignment,
) -> bool {
    exists|left: int, right: int|
        #![trigger stands_in(text, core, options.fill, left, right)]
        {
            &&& stands_in(text, core, options.fill, left, right)
            &&& text.len() == width_at_least(options, core.len() as int)
            &&& match (options.align, default) {
                (Some(Alignment::Left), _) => left == 0,
                (Some(Alignment::Right), _) => right == 0,
                (Some(Alignment::Center), _) => left <= right <= left + 1,
                (None, Alignment::Left) => left == 0,
                (None, Alignment::Right) => right == 0,
                (None, Alignment::Center) => left <= right <= left + 1,
            }
        }
}

proof fn padded_is_laid_out(core: Seq<char>, options: FormatOptions, default: Alignment)
    ensures
        is_laid_out(options.padded(core, default), core, options, default),
{
    let text = options.padded(core, default);
    let missing = options.missing(core.len()) as int;
    let left = match options.align.unwrap_or(default) {
        Alignment::Left => 0,
        Alignment::Right => missing,
        Alignment::Center => missing / 2,
    };
    assert(text.subrange(left, left + core.len()) =~= core);
    assert(stands_in(text, core, options.fill, left, missing - left));
}

/// Text is cut off after as many characters as the precision says, if it has more, and laid out on
/// the left if nothing else is asked for.
pub proof fn text_is_laid_out(text: Seq<char>, options: FormatOptions) -> (core: Seq<char>)
    ensures
        core.is_prefix_of(text),
        match options.precision {
            Some(precision) => core.len() == if precision < text.len() {
                precision as int
            } else {
                text.len() as int
            },
            None => core == text,
        },
        is_laid_out(options.text(text), core, options, Alignment::Left),
{
    let core = options.truncated(text);
    padded_is_laid_out(core, options, Alignment::Left);
    core
}

/// Whether the text is a rendering of the number with the options: its numeral with its sign, laid
/// out on the right if nothing else is asked for, or with zeros between the sign and the digits as
/// far as the width asks for.
pub open spec fn is_number(text: Seq<char>, n: int, options: FormatOptions) -> bool {
    exists|core: Seq<char>| #[trigger]
        is_signed_numeral(core, n, options.sign_plus) && if options.sign_aware_zero_pad {
            let sign = if n < 0 || options.sign_plus {
                1int
            } else {
                0
            };
            &&& text.len() == width_at_least(options, core.len() as int)
            &&& text.take(sign) == core.take(sign)
            &&& all_digits(text.skip(sign))
            &&& value_of(text.skip(sign)) == if n < 0 {
                -n
            } else {
                n
            }
        } else {
            is_laid_out(text, core, options, Alignment::Right)
        }
}

/// Numbers are rendered as what can be read back as them.
pub proof fn numbers_read_back(n: int, options: FormatOptions)
    ensures
        is_number(options.number(n), n, options),
{
    let sign = if n < 0 {
        seq!['-']
    } else if options.sign_plus {
        seq!['+']
    } else {
        seq![]
    };
    let magnitude = if n < 0 {
        (-n) as nat
    } else {
        n as nat
    };
    let digits = decimal(magnitude);
    decimal_is_numeral(magnitude);
    let core = sign + digits;
    assert(core.skip(sign.len() as int) =~= digits);
    if sign.len() == 0 {
        assert(core =~= digits);
    }
    assert(is_signed_numeral(core, n, options.sign_plus));
    let text = options.number(n);
    if options.sign_aware_zero_pad {
        let zeros = options.missing(core.len());
        zeros_on_the_left(digits, zeros);
        assert(text =~= sign + (repeated('0', zeros) + digits));
        assert(text.skip(sign.len() as int) =~= repeated('0', zeros) + digits);
        assert(text.take(sign.len() as int) =~= core.take(sign.len() as int));
    } else {
        padded_is_laid_out(core, options, Alignment::Right);
    }
}

/// Numbers can always be rendered, and then read back.
pub proof fn number_types_read_back(
    a: u64,
    b: i32,
    unique: Unique,
    options: FormatOptions,
    text: Seq<char>,
    complete: bool,
)
    ensures
        a.ready() && b.ready() && unique.ready(),
        a.renders(options, text, complete) ==> complete && is_number(text, a as int, options),
        b.renders(options, text, complete) ==> complete && is_number(text, b as int, options),
        unique.renders(options, text, complete) ==> complete && is_number(
            text,
            unique.number() as int,
            options,
        ),
{
    numbers_read_back(a as int, options);
    numbers_read_back(b as int, options);
    numbers_read_back(unique.number() as int, options);
}

/// Text can always be rendered, and is cut off and laid out as the options say.
pub proof fn texts_are_laid_out(
    a: &str,
    b: String,
    options: FormatOptions,
    text: Seq<char>,
    complete: bool,
) -> (cores: (Seq<char>, Seq<char>))
    ensures
        a.ready() && b.ready(),
        cores.0.is_prefix_of(a@) && cores.1.is_prefix_of(b@),
        match options.precision {
            Some(precision) => {
                &&& precision < a@.len() ==> cores.0.len() == precision
                &&& precision >= a@.len() ==> cores.0 == a@
                &&& precision < b@.len() ==> cores.1.len() == precision
                &&& precision >= b@.len() ==> cores.1 == b@
            },
            None => cores.0 == a@ && cores.1 == b@,
        },
        a.renders(options, text, complete) ==> complete && is_laid_out(
            text,
            cores.0,
            options,
            Alignment::Left,
        ),
        b.renders(options, text, complete) ==> complete && is_laid_out(
            text,
            cores.1,
            options,
            Alignment::Left,
        ),
{
    let (x, y) = (text_is_laid_out(a@, options), text_is_laid_out(b@, options));
    (x, y)
}

/// With nothing asked for, text is rendered as it is, and a number as its numeral, with a sign if it
/// is negative.
pub proof fn plain_renderings(text: Seq<char>, n: int)
    ensures
        FormatOptions::plain().text(text) == text,
        is_signed_numeral(FormatOptions::plain().number(n), n, false),
{
    plain_is_unpadded(text, n);
    if n < 0 {
        decimal_is_numeral((-n) as nat);
        assert((seq!['-'] + decimal((-n) as nat)).skip(1) =~= decimal((-n) as nat));
    } else {
        decimal_is_numeral(n as nat);
    }
}

/// A variable is rendered as `@` and the numeral of its identity, with whatever options.
pub proof fn variables_read_back(
    var: Var,
    options: FormatOptions,
    text: Seq<char>,
    complete: bool,
)
    ensures
        var.ready(),
        var.renders(options, text, complete) <==> complete && text == var_text(var),
        var_text(var).len() > 0 && var_text(var)[0] == '@' && is_numeral(
            var_text(var).skip(1),
            var.unique().number() as int,
        ),
{
    decimal_is_numeral(var.unique().number() as nat);
    assert(var_text(var).skip(1) =~= decimal(var.unique().number() as nat));
}

/// A type parameter is rendered as `?` and the numeral of its identity, with whatever options.
pub proof fn quantifieds_read_back(
    quantified: Quantified,
    options: FormatOptions,
    text: Seq<char>,
    complete: bool,
)
    ensures
        quantified.ready(),
        quantified.renders(options, text, complete) <==> complete && text == quantified_text(
            quantified,
        ),
        quantified_text(quantified).len() > 0 && quantified_text(quantified)[0] == '?'
            && is_numeral(
            quantified_text(quantified).skip(1),
            quantified.unique().number() as int,
        ),
{
    decimal_is_numeral(quantified.unique().number() as nat);
    assert(quantified_text(quantified).skip(1) =~= decimal(quantified.unique().number() as nat));
}

/// Variables with the same rendering are the same variable, and type parameters with the same
/// rendering have the same identity. No variable is rendered as a type parameter is.
pub proof fn renderings_tell_apart(v: Var, w: Var, p: Quantified, q: Quantified)
    ensures
        var_text(v) == var_text(w) <==> v == w,
        quantified_text(p) == quantified_text(q) <==> p.unique() == q.unique(),
        var_text(v) != quantified_text(p),
{
    let plain = FormatOptions::plain();
    variables_read_back(v, plain, seq![], true);
    variables_read_back(w, plain, seq![], true);
    quantifieds_read_back(p, plain, seq![], true);
    quantifieds_read_back(q, plain, seq![], true);
    number_identifies(v.unique(), w.unique());
    unique_identifies(v, w);
    number_identifies(p.unique(), q.unique());
}

/// A list of type parameters is rendered as the renderings of its elements, in order, with a comma
/// and a space between them, in brackets. No option changes that.
pub proof fn quantified_vecs_are_joined(
    qs: QuantifiedVec,
    texts: Seq<Seq<char>>,
    options: FormatOptions,
    text: Seq<char>,
    complete: bool,
)
    requires
        texts.len() == qs.0@.len(),
        forall|i: int|
            0 <= i < texts.len() ==> qs.0@[i].renders(
                FormatOptions::plain(),
                #[trigger] texts[i],
                true,
            ),
    ensures
        qs.ready(),
        qs.renders(options, text, complete) <==> complete && text == seq!['['] + join(
            texts,
            seq![',', ' '],
        ) + seq![']'],
{
    let own = qs.0@.map_values(|q: Quantified| quantified_text(q));
    assert(own =~= texts);
}

/// The styles are rendered by their names, with whatever options.
pub proof fn styles_are_rendered_by_name(
    any: AnyStyle,
    never: NeverStyle,
    options: FormatOptions,
    text: Seq<char>,
    complete: bool,
)
    ensures
        any.ready() && never.ready(),
        any.renders(options, text, complete) <==> complete && text == match any {
            AnyStyle::Explicit => "Explicit"@,
            AnyStyle::Implicit => "Implicit"@,
            AnyStyle::Error => "Error"@,
        },
        never.renders(options, text, complete) <==> complete && text == match never {
            NeverStyle::Never => "Never"@,
            NeverStyle::NoReturn => "NoReturn"@,
        },
{
    reveal_strlit("Explicit");
    reveal_strlit("Implicit");
    reveal_strlit("Error");
    reveal_strlit("Never");
    reveal_strlit("NoReturn");
    assert("Explicit"@ =~= seq!['E', 'x', 'p', 'l', 'i', 'c', 'i', 't']);
    assert("Implicit"@ =~= seq!['I', 'm', 'p', 'l', 'i', 'c', 'i', 't']);
    assert("Error"@ =~= seq!['E', 'r', 'r', 'o', 'r']);
    assert("Never"@ =~= seq!['N', 'e', 'v', 'e', 'r']);
    assert("NoReturn"@ =~= seq!['N', 'o', 'R', 'e', 't', 'u', 'r', 'n']);
}

/// Nothing joined is nothing, one text joined is that text, and two lists joined have the separator
/// between them.
pub proof fn join_by_parts(
    a: Seq<Seq<char>>,
    b: Seq<Seq<char>>,
    text: Seq<char>,
    sep: Seq<char>,
)
    ensures
        join(seq![], sep) == Seq::<char>::empty(),
        join(seq![text], sep) == text,
        a.len() > 0 && b.len() > 0 ==> join(a + b, sep) == join(a, sep) + sep + join(b, sep),
    decreases b.len(),
{
    if a.len() > 0 && b.len() > 0 {
        let all = a + b;
        assert(all.last() == b.last());
        if b.len() == 1 {
            assert(all.drop_last() =~= a);
        } else {
            join_by_parts(a, b.drop_last(), text, sep);
            assert(all.drop_last() =~= a + b.drop_last());
            assert(join(all, sep) =~= join(a, sep) + sep + join(b, sep));
        }
    }
}

/// If the closure makes the same items each time, each of which has one rendering with the options,
/// and so has the separator, and none of them fails, then the list is rendered as the renderings of
/// the items, in order, with that of the separator between them.
pub proof fn lists_are_joined<F: Fn() -> Vec<T>, T: Display, S: Display>(
    list: Intersperse<F, T, S>,
    items: Seq<T>,
    options: FormatOptions,
    texts: Seq<Seq<char>>,
    sep: Seq<char>,
    text: Seq<char>,
    complete: bool,
)
    requires
        list.may_render(options, text, complete),
        forall|made: Vec<T>| #[trigger] call_ensures(list.items, (), made) ==> made@ == items,
        texts.len() == items.len(),
        forall|i: int, t: Seq<char>, c: bool|
            0 <= i < items.len() && #[trigger] items[i].renders(options, t, c) ==> c && t
                == texts[i],
        forall|t: Seq<char>, c: bool| #[trigger]
            list.separator.renders(options, t, c) ==> c && t == sep,
    ensures
        complete,
        text == join(texts, sep),
{
    let made = choose|made: Vec<T>| #[trigger]
        call_ensures(list.items, (), made) && interspersed(
            made@,
            list.separator,
            options,
            text,
            complete,
        );
    interspersed_is_join(items, list.separator, options, texts, sep, text, complete);
}

/// If rendering a list fails, then an item failed or the separator before one did. What was written
/// is the renderings of the items before it, joined, then the separator unless it was the first
/// item, and then what the part that failed had written.
pub proof fn lists_break_off<F: Fn() -> Vec<T>, T: Display, S: Display>(
    list: Intersperse<F, T, S>,
    items: Seq<T>,
    options: FormatOptions,
    texts: Seq<Seq<char>>,
    sep: Seq<char>,
    text: Seq<char>,
) -> (failed: (int, Seq<char>))
    requires
        list.may_render(options, text, false),
        forall|made: Vec<T>| #[trigger] call_ensures(list.items, (), made) ==> made@ == items,
        texts.len() == items.len(),
        forall|i: int, t: Seq<char>|
            0 <= i < items.len() && #[trigger] items[i].renders(options, t, true) ==> t == texts[i],
        forall|t: Seq<char>| #[trigger]
            list.separator.renders(options, t, true) ==> t == sep,
    ensures
        0 <= failed.0 < items.len(),
        ({
            let before = join(texts.take(failed.0), sep);
            ||| failed.0 == 0 && items[0].renders(options, failed.1, false) && text == failed.1
            ||| failed.0 > 0 && items[failed.0].renders(options, failed.1, false) && text == before
                + sep + failed.1
            ||| failed.0 > 0 && list.separator.renders(options, failed.1, false) && text == before
                + failed.1
        }),
{
    let separator = list.separator;
    let made = choose|made: Vec<T>| #[trigger]
        call_ensures(list.items, (), made) && interspersed(
            made@,
            separator,
            options,
            text,
            false,
        );
    let (seps, pieces) = choose|seps: Seq<Seq<char>>, pieces: Seq<Seq<char>>| #[trigger]
        is_listing(items, separator, options, seps, pieces) && pieces.len() < items.len()
            && breaks_off(
            items[pieces.len() as int],
            separator,
            options,
            pieces.len() as int,
            listing(seps, pieces),
            text,
        );
    let k = pieces.len() as int;
    listing_is_join(items, separator, options, seps, pieces, texts, sep);
    let before = listing(seps, pieces);
    if k > 0 && exists|s: Seq<char>| #[trigger]
        separator.renders(options, s, false) && text == before + s {
        let s = choose|s: Seq<char>| #[trigger]
            separator.renders(options, s, false) && text == before + s;
        (k, s)
    } else {
        let (s, piece) = choose|s: Seq<char>, piece: Seq<char>| #[trigger]
            separates(separator, options, k, s) && #[trigger] items[k].renders(
                options,
                piece,
                false,
            ) && text == before + s + piece;
        if k == 0 {
            assert(before =~= seq![]);
            assert(text =~= piece);
        }
        (k, piece)
    }
}

/// A list is rendered in the same way wherever something is rendered.
pub proof fn lists_render_as_such<F: Fn() -> Vec<T>, T: Display, S: Display>(
    list: Intersperse<F, T, S>,
    options: FormatOptions,
    text: Seq<char>,
    complete: bool,
)
    ensures
        Display::renders(&list, options, text, complete) <==> list.may_render(
            options,
            text,
            complete,
        ),
        Display::ready(&list) <==> list.can_render(),
        call_requires(list.items, ()) && list.separator.ready() && (forall|made: Vec<T>, i: int|
            call_ensures(list.items, (), made) && 0 <= i < made@.len()
                ==> (#[trigger] made@[i]).ready()) ==> list.can_render(),
{
}

/// A reference is rendered as what it refers to, and one of two values as the one that it is.
pub proof fn references_render_alike<T: Display, U: Display>(
    x: T,
    y: U,
    options: FormatOptions,
    text: Seq<char>,
    complete: bool,
)
    ensures
        Display::renders(&&x, options, text, complete) <==> x.renders(options, text, complete),
        Display::ready(&&x) <==> x.ready(),
        Either::<T, U>::Left(x).renders(options, text, complete) <==> x.renders(
            options,
            text,
            complete,
        ),
        Either::<T, U>::Right(y).renders(options, text, complete) <==> y.renders(
            options,
            text,
            complete,
        ),
        Either::<T, U>::Left(x).ready() <==> x.ready(),
        Either::<T, U>::Right(y).ready() <==> y.ready(),
{
}

/// A value with its context is rendered as the value in that context. What holds a value is rendered
/// in a context as the value is.
pub proof fn contexts_render_alike<Ctx, T: DisplayWith<Ctx>>(
    x: T,
    ctx: Ctx,
    options: FormatOptions,
    text: Seq<char>,
    complete: bool,
)
    ensures
        (InContext { value: &x, ctx: &ctx }).renders(options, text, complete) <==> x.renders_with(
            &ctx,
            options,
            text,
            complete,
        ),
        (InContext { value: &x, ctx: &ctx }).ready() <==> x.ready_with(&ctx),
        DisplayWith::renders_with(&&x, &ctx, options, text, complete) <==> x.renders_with(
            &ctx,
            options,
            text,
            complete,
        ),
        Box::new(x).renders_with(&ctx, options, text, complete) <==> x.renders_with(
            &ctx,
            options,
            text,
            complete,
        ),
        Arc::new(x).renders_with(&ctx, options, text, complete) <==> x.renders_with(
            &ctx,
            options,
            text,
            complete,
        ),
        Rc::new(x).renders_with(&ctx, options, text, complete) <==> x.renders_with(
            &ctx,
            options,
            text,
            complete,
        ),
        DisplayWith::ready_with(&&x, &ctx) <==> x.ready_with(&ctx),
        Box::new(x).ready_with(&ctx) <==> x.ready_with(&ctx),
        Arc::new(x).ready_with(&ctx) <==> x.ready_with(&ctx),
        Rc::new(x).ready_with(&ctx) <==> x.ready_with(&ctx),
{
}

/// A mutable reference is rendered in a context as what it refers to is.
pub proof fn mutable_references_render_alike<Ctx, T: DisplayWith<Ctx>>(
    x: &mut T,
    ctx: Ctx,
    options: FormatOptions,
    text: Seq<char>,
    complete: bool,
)
    ensures
        DisplayWith::renders_with(&old(x), &ctx, options, text, complete)
            <==> (*old(x)).renders_with(&ctx, options, text, complete),
        DisplayWith::ready_with(&old(x), &ctx) <==> (*old(x)).ready_with(&ctx),
{
}

} // verus!
