//! The document grammar, at the level of character sequences.
//!
//! Every document the library writes is produced by `render_contents`, and
//! `parse_contents` accepts exactly those renderings: strings are quoted
//! with `"` and `\` escaped and control characters written as `\u00` plus
//! two lower-case hex digits, numbers are decimal without leading zeros,
//! arrays are comma-separated without spaces.  Text that is not such a
//! rendering is rejected.  The `lemma_*_round_trip` proofs show that
//! parsing a rendering gives back exactly the value that was rendered.

use vstd::prelude::*;

use crate::exercise::ExerciseView;
use crate::user_profile::UserProfileView;
use crate::user_profile::UsersView;
use crate::utils::ContentsView;
use crate::workout_session::WorkoutSessionView;
use crate::workout_set::WorkoutSetView;

verus! {

/// The decimal digits.
pub open spec fn is_digit(c: char) -> bool {
    48 <= c as u32 <= 57
}

/// Numeric value of a decimal digit character.
pub open spec fn digit_val(c: char) -> int {
    c as u32 - 48
}

/// The character for one decimal digit.
pub open spec fn digit_char(n: int) -> char {
    if n == 0 {
        '0'
    } else if n == 1 {
        '1'
    } else if n == 2 {
        '2'
    } else if n == 3 {
        '3'
    } else if n == 4 {
        '4'
    } else if n == 5 {
        '5'
    } else if n == 6 {
        '6'
    } else if n == 7 {
        '7'
    } else if n == 8 {
        '8'
    } else {
        '9'
    }
}

/// The lower-case character for one hexadecimal digit.
pub open spec fn hex_char(n: int) -> char {
    if n < 10 {
        digit_char(n)
    } else if n == 10 {
        'a'
    } else if n == 11 {
        'b'
    } else if n == 12 {
        'c'
    } else if n == 13 {
        'd'
    } else if n == 14 {
        'e'
    } else {
        'f'
    }
}

/// Numeric value of a lower-case hexadecimal digit character, or -1.
pub open spec fn hex_val(c: char) -> int {
    if is_digit(c) {
        digit_val(c)
    } else if 97 <= c as u32 <= 102 {
        c as u32 - 87
    } else {
        -1
    }
}

/// How one character appears inside a quoted string: `"` and `\` get a
/// backslash, control characters become `\u00` plus two hex digits, and
/// every other character stands for itself.
pub open spec fn escape_char(c: char) -> Seq<char> {
    if c == '"' {
        seq!['\\', '"']
    } else if c == '\\' {
        seq!['\\', '\\']
    } else if (c as u32) < 32 {
        seq!['\\', 'u', '0', '0', hex_char((c as u32) as int / 16), hex_char((c as u32) as int % 16)]
    } else {
        seq![c]
    }
}

/// The body of a quoted string: each character escaped, in order.
pub open spec fn escape_seq(s: Seq<char>) -> Seq<char>
    decreases s.len(),
{
    if s.len() == 0 {
        Seq::empty()
    } else {
        escape_char(s[0]) + escape_seq(s.skip(1))
    }
}

/// A quoted string.
pub open spec fn render_string(s: Seq<char>) -> Seq<char> {
    seq!['"'] + escape_seq(s) + seq!['"']
}

/// Decimal digits of `n`, most significant first, no leading zeros.
pub open spec fn render_num(n: int) -> Seq<char>
    decreases n,
{
    if n < 10 {
        seq![digit_char(n)]
    } else {
        render_num(n / 10).push(digit_char(n % 10))
    }
}

/// `true` or `false`.
pub open spec fn render_bool(b: bool) -> Seq<char> {
    if b {
        seq!['t', 'r', 'u', 'e']
    } else {
        seq!['f', 'a', 'l', 's', 'e']
    }
}

/// `null`, or a quoted string.
pub open spec fn render_opt_string(o: Option<Seq<char>>) -> Seq<char> {
    match o {
        None => seq!['n', 'u', 'l', 'l'],
        Some(s) => render_string(s),
    }
}

/// Consuming an expected literal prefix.
pub open spec fn expect(s: Seq<char>, lit: Seq<char>) -> Option<Seq<char>> {
    if lit.len() <= s.len() && s.take(lit.len() as int) == lit {
        Some(s.skip(lit.len() as int))
    } else {
        None
    }
}

/// The remainder of a quoted string after its opening quote: the decoded
/// characters and the rest of the input, or nothing if the input is not a
/// canonically escaped, terminated string body.
pub open spec fn parse_string_body(s: Seq<char>) -> Option<(Seq<char>, Seq<char>)>
    decreases s.len(),
{
    if s.len() == 0 {
        None
    } else if s[0] == '"' {
        Some((Seq::empty(), s.skip(1)))
    } else if s[0] == '\\' {
        if s.len() < 2 {
            None
        } else if s[1] == '"' || s[1] == '\\' {
            match parse_string_body(s.skip(2)) {
                Some((t, r)) => Some((seq![s[1]] + t, r)),
                None => None,
            }
        } else if s[1] == 'u' {
            if s.len() < 6 {
                None
            } else if s[2] == '0' && s[3] == '0' && 0 <= hex_val(s[4]) && 0 <= hex_val(s[5])
                && hex_val(s[4]) * 16 + hex_val(s[5]) < 32 && s[4] == hex_char(hex_val(s[4]))
                && s[5] == hex_char(hex_val(s[5])) {
                match parse_string_body(s.skip(6)) {
                    Some((t, r)) => Some(
                        (seq![char_of_code(hex_val(s[4]) * 16 + hex_val(s[5]))] + t, r),
                    ),
                    None => None,
                }
            } else {
                None
            }
        } else {
            None
        }
    } else if (s[0] as u32) < 32 {
        None
    } else {
        match parse_string_body(s.skip(1)) {
            Some((t, r)) => Some((seq![s[0]] + t, r)),
            None => None,
        }
    }
}

/// The character with scalar value `n`; meaningful for `0 <= n < 32`.
pub open spec fn char_of_code(n: int) -> char {
    if n == 0 {
        '\u{00}'
    } else
    if n == 1 {
        '\u{01}'
    } else
    if n == 2 {
        '\u{02}'
    } else
    if n == 3 {
        '\u{03}'
    } else
    if n == 4 {
        '\u{04}'
    } else
    if n == 5 {
        '\u{05}'
    } else
    if n == 6 {
        '\u{06}'
    } else
    if n == 7 {
        '\u{07}'
    } else
    if n == 8 {
        '\u{08}'
    } else
    if n == 9 {
        '\u{09}'
    } else
    if n == 10 {
        '\u{0a}'
    } else
    if n == 11 {
        '\u{0b}'
    } else
    if n == 12 {
        '\u{0c}'
    } else
    if n == 13 {
        '\u{0d}'
    } else
    if n == 14 {
        '\u{0e}'
    } else
    if n == 15 {
        '\u{0f}'
    } else
    if n == 16 {
        '\u{10}'
    } else
    if n == 17 {
        '\u{11}'
    } else
    if n == 18 {
        '\u{12}'
    } else
    if n == 19 {
        '\u{13}'
    } else
    if n == 20 {
        '\u{14}'
    } else
    if n == 21 {
        '\u{15}'
    } else
    if n == 22 {
        '\u{16}'
    } else
    if n == 23 {
        '\u{17}'
    } else
    if n == 24 {
        '\u{18}'
    } else
    if n == 25 {
        '\u{19}'
    } else
    if n == 26 {
        '\u{1a}'
    } else
    if n == 27 {
        '\u{1b}'
    } else
    if n == 28 {
        '\u{1c}'
    } else
    if n == 29 {
        '\u{1d}'
    } else
    if n == 30 {
        '\u{1e}'
    } else {
        '\u{1f}'
    }
}

/// `char_of_code` inverts the scalar value of a control character.
pub proof fn lemma_char_of_code_inverse(c: char)
    requires
        (c as u32) < 32,
    ensures
        char_of_code((c as u32) as int) == c,
{
    let k = (c as u32) as int;
    assert(char_of_code(k) as u32 == k);
    assert(c as u32 == k);
    assert(char_of_code(k) == c);
}

/// A quoted string: value and rest, or nothing.
pub open spec fn parse_string(s: Seq<char>) -> Option<(Seq<char>, Seq<char>)> {
    if s.len() > 0 && s[0] == '"' {
        parse_string_body(s.skip(1))
    } else {
        None
    }
}

/// Digits consumed into an accumulator; fails on a value above `u32::MAX`.
pub open spec fn parse_num_rec(s: Seq<char>, acc: int) -> Option<(int, Seq<char>)>
    decreases s.len(),
{
    if s.len() == 0 || !is_digit(s[0]) {
        Some((acc, s))
    } else if acc * 10 + digit_val(s[0]) > u32::MAX {
        None
    } else {
        parse_num_rec(s.skip(1), acc * 10 + digit_val(s[0]))
    }
}

/// A decimal number that fits in `u32`: value and rest, or nothing.
pub open spec fn parse_num(s: Seq<char>) -> Option<(int, Seq<char>)> {
    if s.len() > 0 && is_digit(s[0]) {
        parse_num_rec(s, 0)
    } else {
        None
    }
}

/// `true` or `false`: value and rest, or nothing.
pub open spec fn parse_bool(s: Seq<char>) -> Option<(bool, Seq<char>)> {
    if s.len() > 0 && s[0] == 't' {
        match expect(s, render_bool(true)) {
            Some(r) => Some((true, r)),
            None => None,
        }
    } else if s.len() > 0 && s[0] == 'f' {
        match expect(s, render_bool(false)) {
            Some(r) => Some((false, r)),
            None => None,
        }
    } else {
        None
    }
}

/// `null` or a quoted string: value and rest, or nothing.
pub open spec fn parse_opt_string(s: Seq<char>) -> Option<(Option<Seq<char>>, Seq<char>)> {
    if s.len() > 0 && s[0] == 'n' {
        match expect(s, seq!['n', 'u', 'l', 'l']) {
            Some(r) => Some((None, r)),
            None => None,
        }
    } else {
        match parse_string(s) {
            Some((t, r)) => Some((Some(t), r)),
            None => None,
        }
    }
}

/// Consuming a literal consumes exactly that literal.
pub proof fn lemma_expect(lit: Seq<char>, rest: Seq<char>)
    ensures
        expect(lit + rest, lit) == Some(rest),
{
    assert((lit + rest).take(lit.len() as int) =~= lit);
    assert((lit + rest).skip(lit.len() as int) =~= rest);
}

/// Escaping one more character extends the escaped body on the right.
pub proof fn lemma_escape_snoc(s: Seq<char>, c: char)
    ensures
        escape_seq(s.push(c)) == escape_seq(s) + escape_char(c),
    decreases s.len(),
{
    if s.len() == 0 {
        assert(s.push(c)[0] == c);
        assert(s.push(c).skip(1) =~= Seq::<char>::empty());
        assert(escape_seq(Seq::<char>::empty()) == Seq::<char>::empty());
        assert(escape_seq(s.push(c)) =~= escape_seq(s) + escape_char(c));
    } else {
        assert(s.push(c).skip(1) =~= s.skip(1).push(c));
        lemma_escape_snoc(s.skip(1), c);
        assert(escape_seq(s.push(c)) =~= escape_seq(s) + escape_char(c));
    }
}

/// Parsing an escaped, quoted body gives back the characters escaped.
pub proof fn lemma_string_body_round_trip(x: Seq<char>, rest: Seq<char>)
    ensures
        parse_string_body(escape_seq(x) + seq!['"'] + rest) == Some((x, rest)),
    decreases x.len(),
{
    let s = escape_seq(x) + seq!['"'] + rest;
    if x.len() == 0 {
        assert(s[0] == '"');
        assert(s.skip(1) =~= rest);
    } else {
        let c = x[0];
        let e = escape_char(c);
        let tail = escape_seq(x.skip(1)) + seq!['"'] + rest;
        assert(s =~= e + tail);
        lemma_string_body_round_trip(x.skip(1), rest);
        if c == '"' {
            assert(s[0] == '\\' && s[1] == '"');
            assert(s.skip(2) =~= tail);
            assert(seq![s[1]] + x.skip(1) =~= x);
        } else if c == '\\' {
            assert(s[0] == '\\' && s[1] == '\\');
            assert(s.skip(2) =~= tail);
            assert(seq![s[1]] + x.skip(1) =~= x);
        } else if (c as u32) < 32 {
            assert(s[0] == '\\' && s[1] == 'u' && s[2] == '0' && s[3] == '0');
            assert(s[4] == hex_char((c as u32) as int / 16));
            assert(s[5] == hex_char((c as u32) as int % 16));
            assert(s.skip(6) =~= tail);
            let h = (c as u32) as int / 16;
            let l = (c as u32) as int % 16;
            assert(0 <= h < 2 && 0 <= l < 16);
            assert(hex_val(hex_char(h)) == h);
            assert(hex_val(hex_char(l)) == l);
            assert(h * 16 + l == c as u32);
            lemma_char_of_code_inverse(c);
            assert(seq![char_of_code(hex_val(s[4]) * 16 + hex_val(s[5]))] + x.skip(1) =~= x);
        } else {
            assert(s[0] == c);
            assert(c != '"' && c != '\\' && !((c as u32) < 32));
            assert(s.skip(1) =~= tail);
            assert(seq![s[0]] + x.skip(1) =~= x);
        }
    }
}

/// Parsing a rendered string gives back the string.
pub proof fn lemma_string_round_trip(x: Seq<char>, rest: Seq<char>)
    ensures
        parse_string(render_string(x) + rest) == Some((x, rest)),
{
    let s = render_string(x) + rest;
    assert(s[0] == '"');
    assert(s.skip(1) =~= escape_seq(x) + seq!['"'] + rest);
    lemma_string_body_round_trip(x, rest);
}

/// All characters of a rendering of `n` are digits, and there is at
/// least one of them.
pub proof fn lemma_render_num_digits(n: int)
    requires
        0 <= n,
    ensures
        render_num(n).len() >= 1,
        forall|i: int| 0 <= i < render_num(n).len() ==> is_digit(#[trigger] render_num(n)[i]),
    decreases n,
{
    if n >= 10 {
        lemma_render_num_digits(n / 10);
    }
}

/// Value accumulated by consuming the digits `ds` starting from `acc`.
pub open spec fn val_from(acc: int, ds: Seq<char>) -> int
    decreases ds.len(),
{
    if ds.len() == 0 {
        acc
    } else {
        val_from(acc * 10 + digit_val(ds[0]), ds.skip(1))
    }
}

/// Whether consuming the digits `ds` from `acc` stays within `u32`.
pub open spec fn within_u32(acc: int, ds: Seq<char>) -> bool
    decreases ds.len(),
{
    if ds.len() == 0 {
        true
    } else {
        acc * 10 + digit_val(ds[0]) <= u32::MAX && within_u32(acc * 10 + digit_val(ds[0]), ds.skip(1))
    }
}

/// One more digit multiplies the accumulated value by ten.
pub proof fn lemma_val_from_snoc(acc: int, ds: Seq<char>, d: char)
    ensures
        val_from(acc, ds.push(d)) == val_from(acc, ds) * 10 + digit_val(d),
        within_u32(acc, ds.push(d)) == (within_u32(acc, ds) && val_from(acc, ds) * 10 + digit_val(d)
            <= u32::MAX),
    decreases ds.len(),
{
    if ds.len() == 0 {
        assert(ds.push(d)[0] == d);
        assert(ds.push(d).skip(1) =~= Seq::<char>::empty());
        assert(val_from(acc * 10 + digit_val(d), Seq::<char>::empty()) == acc * 10 + digit_val(d));
        assert(within_u32(acc * 10 + digit_val(d), Seq::<char>::empty()));
    } else {
        assert(ds.push(d)[0] == ds[0]);
        assert(ds.push(d).skip(1) =~= ds.skip(1).push(d));
        lemma_val_from_snoc(acc * 10 + digit_val(ds[0]), ds.skip(1), d);
    }
}

/// Consuming the rendered digits of `n` from zero accumulates exactly `n`
/// and never leaves `u32`.
pub proof fn lemma_render_num_val(n: int)
    requires
        0 <= n <= u32::MAX,
    ensures
        val_from(0, render_num(n)) == n,
        within_u32(0, render_num(n)),
    decreases n,
{
    if n < 10 {
        let ds = render_num(n);
        assert(ds.skip(1) =~= Seq::<char>::empty());
        assert(digit_val(digit_char(n)) == n);
        assert(val_from(n * 10 + digit_val(ds[0]), Seq::<char>::empty()) == n * 10 + digit_val(
            ds[0],
        ));
        assert(val_from(0 * 10 + digit_val(ds[0]), Seq::<char>::empty()) == digit_val(ds[0]));
        assert(within_u32(0 * 10 + digit_val(ds[0]), Seq::<char>::empty()));
    } else {
        lemma_render_num_val(n / 10);
        lemma_val_from_snoc(0, render_num(n / 10), digit_char(n % 10));
        assert(digit_val(digit_char(n % 10)) == n % 10);
        assert((n / 10) * 10 + n % 10 == n) by {
            vstd::arithmetic::div_mod::lemma_fundamental_div_mod(n, 10);
        }
    }
}

/// Consuming digits then a non-digit remainder yields the accumulated
/// value and that remainder.
pub proof fn lemma_parse_num_rec(acc: int, ds: Seq<char>, rest: Seq<char>)
    requires
        forall|i: int| 0 <= i < ds.len() ==> is_digit(#[trigger] ds[i]),
        rest.len() == 0 || !is_digit(rest[0]),
        within_u32(acc, ds),
        0 <= acc <= u32::MAX,
    ensures
        parse_num_rec(ds + rest, acc) == Some((val_from(acc, ds), rest)),
    decreases ds.len(),
{
    let s = ds + rest;
    if ds.len() == 0 {
        assert(s =~= rest);
    } else {
        assert(s[0] == ds[0]);
        assert(s.skip(1) =~= ds.skip(1) + rest);
        lemma_parse_num_rec(acc * 10 + digit_val(ds[0]), ds.skip(1), rest);
    }
}

/// Parsing a rendered number gives back the number.
pub proof fn lemma_num_round_trip(n: int, rest: Seq<char>)
    requires
        0 <= n <= u32::MAX,
        rest.len() == 0 || !is_digit(rest[0]),
    ensures
        parse_num(render_num(n) + rest) == Some((n, rest)),
{
    lemma_render_num_digits(n);
    lemma_render_num_val(n);
    lemma_parse_num_rec(0, render_num(n), rest);
    assert((render_num(n) + rest)[0] == render_num(n)[0]);
}

/// Parsing a rendered boolean gives back the boolean.
pub proof fn lemma_bool_round_trip(b: bool, rest: Seq<char>)
    ensures
        parse_bool(render_bool(b) + rest) == Some((b, rest)),
{
    lemma_expect(render_bool(b), rest);
    assert((render_bool(b) + rest)[0] == render_bool(b)[0]);
}

/// Parsing a rendered optional string gives back the option.
pub proof fn lemma_opt_string_round_trip(o: Option<Seq<char>>, rest: Seq<char>)
    ensures
        parse_opt_string(render_opt_string(o) + rest) == Some((o, rest)),
{
    match o {
        None => {
            lemma_expect(seq!['n', 'u', 'l', 'l'], rest);
            assert((render_opt_string(o) + rest)[0] == 'n');
        },
        Some(s) => {
            lemma_string_round_trip(s, rest);
            assert((render_opt_string(o) + rest)[0] == '"');
        },
    }
}

/// Rendered list items, joined by commas.
pub open spec fn render_items<T>(xs: Seq<T>, ri: spec_fn(T) -> Seq<char>) -> Seq<char>
    decreases xs.len(),
{
    if xs.len() == 0 {
        Seq::empty()
    } else if xs.len() == 1 {
        ri(xs[0])
    } else {
        ri(xs[0]) + seq![','] + render_items(xs.skip(1), ri)
    }
}

/// A rendered array.
pub open spec fn render_list<T>(xs: Seq<T>, ri: spec_fn(T) -> Seq<char>) -> Seq<char> {
    seq!['['] + render_items(xs, ri) + seq![']']
}

/// One or more items, consumed together with the closing bracket.  The
/// guard on the remainder's length only justifies termination: a parser
/// that consumes nothing never arises from the grammar.
pub open spec fn parse_items<T>(
    s: Seq<char>,
    pi: spec_fn(Seq<char>) -> Option<(T, Seq<char>)>,
) -> Option<(Seq<T>, Seq<char>)>
    decreases s.len(),
{
    match pi(s) {
        None => None,
        Some((x, r)) => {
            if r.len() >= s.len() {
                None
            } else if r.len() > 0 && r[0] == ',' {
                match parse_items(r.skip(1), pi) {
                    None => None,
                    Some((xs, r2)) => Some((seq![x] + xs, r2)),
                }
            } else if r.len() > 0 && r[0] == ']' {
                Some((seq![x], r.skip(1)))
            } else {
                None
            }
        },
    }
}

/// An array: values and rest, or nothing.
pub open spec fn parse_list<T>(
    s: Seq<char>,
    pi: spec_fn(Seq<char>) -> Option<(T, Seq<char>)>,
) -> Option<(Seq<T>, Seq<char>)> {
    if s.len() >= 2 && s[0] == '[' && s[1] == ']' {
        Some((Seq::empty(), s.skip(2)))
    } else if s.len() >= 1 && s[0] == '[' {
        parse_items(s.skip(1), pi)
    } else {
        None
    }
}

/// Parsing rendered items gives back the items, when parsing a rendered
/// item gives back that item and every rendering is non-empty.
pub proof fn lemma_items_round_trip<T>(
    xs: Seq<T>,
    ri: spec_fn(T) -> Seq<char>,
    pi: spec_fn(Seq<char>) -> Option<(T, Seq<char>)>,
    rest: Seq<char>,
)
    requires
        xs.len() > 0,
        forall|i: int, r: Seq<char>|
            0 <= i < xs.len() ==> #[trigger] pi(ri(xs[i]) + r) == Some((xs[i], r)),
        forall|i: int| 0 <= i < xs.len() ==> (#[trigger] ri(xs[i])).len() >= 1,
    ensures
        parse_items(render_items(xs, ri) + seq![']'] + rest, pi) == Some((xs, rest)),
    decreases xs.len(),
{
    let s = render_items(xs, ri) + seq![']'] + rest;
    if xs.len() == 1 {
        let r0 = seq![']'] + rest;
        assert(s =~= ri(xs[0]) + r0);
        assert(pi(ri(xs[0]) + r0) == Some((xs[0], r0)));
        assert(ri(xs[0]).len() >= 1);
        assert(r0.len() < s.len());
        assert(r0[0] == ']');
        assert(r0.skip(1) =~= rest);
        assert(seq![xs[0]] =~= xs);
    } else {
        let tail_items = render_items(xs.skip(1), ri);
        let r0 = seq![','] + tail_items + seq![']'] + rest;
        assert(s =~= ri(xs[0]) + r0);
        assert(pi(ri(xs[0]) + r0) == Some((xs[0], r0)));
        assert(ri(xs[0]).len() >= 1);
        assert(r0.len() < s.len());
        assert(r0[0] == ',');
        assert forall|i: int, r: Seq<char>|
            0 <= i < xs.skip(1).len() implies #[trigger] pi(ri(xs.skip(1)[i]) + r) == Some(
            (xs.skip(1)[i], r),
        ) by {
            assert(xs.skip(1)[i] == xs[i + 1]);
            assert(pi(ri(xs[i + 1]) + r) == Some((xs[i + 1], r)));
        }
        assert forall|i: int| 0 <= i < xs.skip(1).len() implies (#[trigger] ri(
            xs.skip(1)[i],
        )).len() >= 1 by {
            assert(xs.skip(1)[i] == xs[i + 1]);
            assert(ri(xs[i + 1]).len() >= 1);
        }
        lemma_items_round_trip(xs.skip(1), ri, pi, rest);
        assert(r0.skip(1) =~= tail_items + seq![']'] + rest);
        assert(seq![xs[0]] + xs.skip(1) =~= xs);
    }
}

/// Whether a character is the bracket that closes an array.
pub open spec fn is_close_bracket(c: char) -> bool {
    c == ']'
}

/// Parsing a rendered array gives back the values, when parsing a
/// rendered item gives back that item and no rendering is empty or opens
/// with the closing bracket.
pub proof fn lemma_list_round_trip<T>(
    xs: Seq<T>,
    ri: spec_fn(T) -> Seq<char>,
    pi: spec_fn(Seq<char>) -> Option<(T, Seq<char>)>,
    rest: Seq<char>,
)
    requires
        forall|i: int, r: Seq<char>|
            0 <= i < xs.len() ==> #[trigger] pi(ri(xs[i]) + r) == Some((xs[i], r)),
        forall|i: int| 0 <= i < xs.len() ==> (#[trigger] ri(xs[i])).len() >= 1,
        forall|i: int| 0 <= i < xs.len() ==> !is_close_bracket((#[trigger] ri(xs[i]))[0]),
    ensures
        parse_list(render_list(xs, ri) + rest, pi) == Some((xs, rest)),
{
    let s = render_list(xs, ri) + rest;
    if xs.len() == 0 {
        assert(render_items(xs, ri) =~= Seq::<char>::empty());
        assert(s[0] == '[');
        assert(s[1] == ']');
        assert(s.skip(2) =~= rest);
        assert(Seq::<T>::empty() =~= xs);
    } else {
        assert(s[0] == '[');
        assert(ri(xs[0]).len() >= 1);
        assert(render_items(xs, ri)[0] == ri(xs[0])[0]);
        assert(s[1] == render_items(xs, ri)[0]);
        assert(s[1] != ']');
        assert(s.skip(1) =~= render_items(xs, ri) + seq![']'] + rest);
        lemma_items_round_trip(xs, ri, pi, rest);
    }
}

/// The object key `{"exercise":`.
pub open spec fn lit_exercise_key() -> Seq<char> {
    seq!['{', '"', 'e', 'x', 'e', 'r', 'c', 'i', 's', 'e', '"', ':']
}

/// The object key `,"reps":`.
pub open spec fn lit_reps_key() -> Seq<char> {
    seq![',', '"', 'r', 'e', 'p', 's', '"', ':']
}

/// The object key `,"weight":`.
pub open spec fn lit_weight_key() -> Seq<char> {
    seq![',', '"', 'w', 'e', 'i', 'g', 'h', 't', '"', ':']
}

/// The object key `,"is_dropset":`.
pub open spec fn lit_dropset_key() -> Seq<char> {
    seq![',', '"', 'i', 's', '_', 'd', 'r', 'o', 'p', 's', 'e', 't', '"', ':']
}

/// The object key `{"sets":`.
pub open spec fn lit_sets_key() -> Seq<char> {
    seq!['{', '"', 's', 'e', 't', 's', '"', ':']
}

/// The object key `,"name":`.
pub open spec fn lit_name_after_key() -> Seq<char> {
    seq![',', '"', 'n', 'a', 'm', 'e', '"', ':']
}

/// The object key `{"name":`.
pub open spec fn lit_name_key() -> Seq<char> {
    seq!['{', '"', 'n', 'a', 'm', 'e', '"', ':']
}

/// The object key `,"description":`.
pub open spec fn lit_description_key() -> Seq<char> {
    seq![',', '"', 'd', 'e', 's', 'c', 'r', 'i', 'p', 't', 'i', 'o', 'n', '"', ':']
}

/// The object key `,"muscle_groups":`.
pub open spec fn lit_muscle_key() -> Seq<char> {
    seq![',', '"', 'm', 'u', 's', 'c', 'l', 'e', '_', 'g', 'r', 'o', 'u', 'p', 's', '"', ':']
}

/// The object key `,"equipment":`.
pub open spec fn lit_equipment_key() -> Seq<char> {
    seq![',', '"', 'e', 'q', 'u', 'i', 'p', 'm', 'e', 'n', 't', '"', ':']
}

/// The object key `,"chosen_workout_session":`.
pub open spec fn lit_chosen_key() -> Seq<char> {
    seq![',', '"', 'c', 'h', 'o', 's', 'e', 'n', '_', 'w', 'o', 'r', 'k', 'o', 'u', 't', '_', 's',
        'e', 's', 's', 'i', 'o', 'n', '"', ':']
}

/// The object key `,"workouts":`.
pub open spec fn lit_workouts_key() -> Seq<char> {
    seq![',', '"', 'w', 'o', 'r', 'k', 'o', 'u', 't', 's', '"', ':']
}

/// The object key `,"created_exercises":`.
pub open spec fn lit_created_key() -> Seq<char> {
    seq![',', '"', 'c', 'r', 'e', 'a', 't', 'e', 'd', '_', 'e', 'x', 'e', 'r', 'c', 'i', 's', 'e',
        's', '"', ':']
}

/// The object key `{"users":`.
pub open spec fn lit_users_key() -> Seq<char> {
    seq!['{', '"', 'u', 's', 'e', 'r', 's', '"', ':']
}

/// The envelope tag `{"Users":`.
pub open spec fn lit_users_tag() -> Seq<char> {
    seq!['{', '"', 'U', 's', 'e', 'r', 's', '"', ':']
}

/// The envelope tag `{"UserProfile":`.
pub open spec fn lit_profile_tag() -> Seq<char> {
    seq!['{', '"', 'U', 's', 'e', 'r', 'P', 'r', 'o', 'f', 'i', 'l', 'e', '"', ':']
}

/// The brace that closes an object.
pub open spec fn lit_close() -> Seq<char> {
    seq!['}']
}

/// A rendered set object.
pub open spec fn render_set(v: WorkoutSetView) -> Seq<char> {
    lit_exercise_key() + render_string(v.exercise) + lit_reps_key() + render_num(v.reps as int)
        + lit_weight_key() + render_num(v.weight as int) + lit_dropset_key() + render_bool(
        v.is_dropset,
    ) + lit_close()
}

/// A set object: value and rest, or nothing.
pub open spec fn parse_set(s: Seq<char>) -> Option<(WorkoutSetView, Seq<char>)> {
    match expect(s, lit_exercise_key()) {
        None => None,
        Some(s1) => match parse_string(s1) {
            None => None,
            Some((exercise, s2)) => match expect(s2, lit_reps_key()) {
                None => None,
                Some(s3) => match parse_num(s3) {
                    None => None,
                    Some((reps, s4)) => match expect(s4, lit_weight_key()) {
                        None => None,
                        Some(s5) => match parse_num(s5) {
                            None => None,
                            Some((weight, s6)) => match expect(s6, lit_dropset_key()) {
                                None => None,
                                Some(s7) => match parse_bool(s7) {
                                    None => None,
                                    Some((is_dropset, s8)) => match expect(s8, lit_close()) {
                                        None => None,
                                        Some(s9) => Some(
                                            (
                                                WorkoutSetView {
                                                    exercise,
                                                    reps: reps as u32,
                                                    weight: weight as u32,
                                                    is_dropset,
                                                },
                                                s9,
                                            ),
                                        ),
                                    },
                                },
                            },
                        },
                    },
                },
            },
        },
    }
}

/// Parsing a rendered set gives back the set.
#[verifier::rlimit(100)]
pub proof fn lemma_set_round_trip(v: WorkoutSetView, rest: Seq<char>)
    ensures
        parse_set(render_set(v) + rest) == Some((v, rest)),
{
    let s = render_set(v) + rest;
    let r8 = lit_close() + rest;
    let r7 = render_bool(v.is_dropset) + r8;
    let r6 = lit_dropset_key() + r7;
    let r5 = render_num(v.weight as int) + r6;
    let r4 = lit_weight_key() + r5;
    let r3 = render_num(v.reps as int) + r4;
    let r2 = lit_reps_key() + r3;
    let r1 = render_string(v.exercise) + r2;
    assert(s =~= lit_exercise_key() + r1);
    lemma_expect(lit_exercise_key(), r1);
    assert(r1 =~= render_string(v.exercise) + r2);
    lemma_string_round_trip(v.exercise, r2);
    assert(r2 =~= lit_reps_key() + r3);
    lemma_expect(lit_reps_key(), r3);
    assert(r4[0] == ',');
    assert(!is_digit(r4[0]));
    assert(r3 =~= render_num(v.reps as int) + r4);
    lemma_num_round_trip(v.reps as int, r4);
    assert(r4 =~= lit_weight_key() + r5);
    lemma_expect(lit_weight_key(), r5);
    assert(r6[0] == ',');
    assert(!is_digit(r6[0]));
    assert(r5 =~= render_num(v.weight as int) + r6);
    lemma_num_round_trip(v.weight as int, r6);
    assert(r6 =~= lit_dropset_key() + r7);
    lemma_expect(lit_dropset_key(), r7);
    assert(r7 =~= render_bool(v.is_dropset) + r8);
    lemma_bool_round_trip(v.is_dropset, r8);
    assert(r8 =~= lit_close() + rest);
    lemma_expect(lit_close(), rest);
    assert((v.reps as int) as u32 == v.reps);
    assert((v.weight as int) as u32 == v.weight);
}

/// A rendered session object.
pub open spec fn render_session(v: WorkoutSessionView) -> Seq<char> {
    lit_sets_key() + render_list(v.sets, |x: WorkoutSetView| render_set(x))
        + lit_name_after_key() + render_string(v.name) + lit_close()
}

/// A session object: value and rest, or nothing.
pub open spec fn parse_session(s: Seq<char>) -> Option<(WorkoutSessionView, Seq<char>)> {
    match expect(s, lit_sets_key()) {
        None => None,
        Some(s1) => match parse_list(s1, |t: Seq<char>| parse_set(t)) {
            None => None,
            Some((sets, s2)) => match expect(s2, lit_name_after_key()) {
                None => None,
                Some(s3) => match parse_string(s3) {
                    None => None,
                    Some((name, s4)) => match expect(s4, lit_close()) {
                        None => None,
                        Some(s5) => Some((WorkoutSessionView { sets, name }, s5)),
                    },
                },
            },
        },
    }
}

/// Parsing a rendered session gives back the session.
#[verifier::rlimit(100)]
pub proof fn lemma_session_round_trip(v: WorkoutSessionView, rest: Seq<char>)
    ensures
        parse_session(render_session(v) + rest) == Some((v, rest)),
{
    let ri = |x: WorkoutSetView| render_set(x);
    let pi = |t: Seq<char>| parse_set(t);
    let s = render_session(v) + rest;
    let r4 = lit_close() + rest;
    let r3 = render_string(v.name) + r4;
    let r2 = lit_name_after_key() + r3;
    let r1 = render_list(v.sets, ri) + r2;
    assert(s =~= lit_sets_key() + r1);
    lemma_expect(lit_sets_key(), r1);
    assert forall|i: int, r: Seq<char>|
        0 <= i < v.sets.len() implies #[trigger] pi(ri(v.sets[i]) + r) == Some(
        (v.sets[i], r),
    ) by {
        lemma_set_round_trip(v.sets[i], r);
    }
    assert forall|i: int| 0 <= i < v.sets.len() implies (#[trigger] ri(v.sets[i])).len() >= 1 by {
        assert(render_set(v.sets[i]).len() >= lit_exercise_key().len());
    }
    assert forall|i: int| 0 <= i < v.sets.len() implies !is_close_bracket(
        (#[trigger] ri(v.sets[i]))[0],
    ) by {
        assert(render_set(v.sets[i])[0] == '{');
    }
    lemma_list_round_trip(v.sets, ri, pi, r2);
    assert(r2 =~= lit_name_after_key() + r3);
    lemma_expect(lit_name_after_key(), r3);
    assert(r3 =~= render_string(v.name) + r4);
    lemma_string_round_trip(v.name, r4);
    assert(r4 =~= lit_close() + rest);
    lemma_expect(lit_close(), rest);
}

/// A rendered exercise object.
pub open spec fn render_exercise(v: ExerciseView) -> Seq<char> {
    lit_name_key() + render_string(v.name) + lit_description_key() + render_string(v.description)
        + lit_muscle_key() + render_list(v.muscle_groups, |x: Seq<char>| render_string(x))
        + lit_equipment_key() + render_string(v.equipment) + lit_close()
}

/// An exercise object: value and rest, or nothing.
pub open spec fn parse_exercise(s: Seq<char>) -> Option<(ExerciseView, Seq<char>)> {
    match expect(s, lit_name_key()) {
        None => None,
        Some(s1) => match parse_string(s1) {
            None => None,
            Some((name, s2)) => match expect(s2, lit_description_key()) {
                None => None,
                Some(s3) => match parse_string(s3) {
                    None => None,
                    Some((description, s4)) => match expect(s4, lit_muscle_key()) {
                        None => None,
                        Some(s5) => match parse_list(s5, |t: Seq<char>| parse_string(t)) {
                            None => None,
                            Some((muscle_groups, s6)) => match expect(s6, lit_equipment_key()) {
                                None => None,
                                Some(s7) => match parse_string(s7) {
                                    None => None,
                                    Some((equipment, s8)) => match expect(s8, lit_close()) {
                                        None => None,
                                        Some(s9) => Some(
                                            (
                                                ExerciseView {
                                                    name,
                                                    description,
                                                    muscle_groups,
                                                    equipment,
                                                },
                                                s9,
                                            ),
                                        ),
                                    },
                                },
                            },
                        },
                    },
                },
            },
        },
    }
}

/// Parsing a rendered exercise gives back the exercise.
#[verifier::rlimit(100)]
pub proof fn lemma_exercise_round_trip(v: ExerciseView, rest: Seq<char>)
    ensures
        parse_exercise(render_exercise(v) + rest) == Some((v, rest)),
{
    let ri = |x: Seq<char>| render_string(x);
    let pi = |t: Seq<char>| parse_string(t);
    let s = render_exercise(v) + rest;
    let r8 = lit_close() + rest;
    let r7 = render_string(v.equipment) + r8;
    let r6 = lit_equipment_key() + r7;
    let r5 = render_list(v.muscle_groups, ri) + r6;
    let r4 = lit_muscle_key() + r5;
    let r3 = render_string(v.description) + r4;
    let r2 = lit_description_key() + r3;
    let r1 = render_string(v.name) + r2;
    assert(s =~= lit_name_key() + r1);
    lemma_expect(lit_name_key(), r1);
    assert(r1 =~= render_string(v.name) + r2);
    lemma_string_round_trip(v.name, r2);
    assert(r2 =~= lit_description_key() + r3);
    lemma_expect(lit_description_key(), r3);
    assert(r3 =~= render_string(v.description) + r4);
    lemma_string_round_trip(v.description, r4);
    assert(r4 =~= lit_muscle_key() + r5);
    lemma_expect(lit_muscle_key(), r5);
    assert forall|i: int, r: Seq<char>|
        0 <= i < v.muscle_groups.len() implies #[trigger] pi(ri(v.muscle_groups[i]) + r) == Some(
        (v.muscle_groups[i], r),
    ) by {
        lemma_string_round_trip(v.muscle_groups[i], r);
    }
    assert forall|i: int| 0 <= i < v.muscle_groups.len() implies (#[trigger] ri(
        v.muscle_groups[i],
    )).len() >= 1 by {
        assert(render_string(v.muscle_groups[i]).len() >= 2);
    }
    assert forall|i: int| 0 <= i < v.muscle_groups.len() implies !is_close_bracket(
        (#[trigger] ri(v.muscle_groups[i]))[0],
    ) by {
        assert(render_string(v.muscle_groups[i])[0] == '"');
    }
    lemma_list_round_trip(v.muscle_groups, ri, pi, r6);
    assert(r6 =~= lit_equipment_key() + r7);
    lemma_expect(lit_equipment_key(), r7);
    assert(r7 =~= render_string(v.equipment) + r8);
    lemma_string_round_trip(v.equipment, r8);
    assert(r8 =~= lit_close() + rest);
    lemma_expect(lit_close(), rest);
}

/// A rendered profile object.
pub open spec fn render_profile(v: UserProfileView) -> Seq<char> {
    lit_name_key() + render_string(v.name) + lit_chosen_key() + render_opt_string(
        v.chosen_workout_session,
    ) + lit_workouts_key() + render_list(v.workouts, |x: WorkoutSessionView| render_session(x))
        + lit_created_key() + render_list(
        v.created_exercises,
        |x: ExerciseView| render_exercise(x),
    ) + lit_close()
}

/// A profile object: value and rest, or nothing.
pub open spec fn parse_profile(s: Seq<char>) -> Option<(UserProfileView, Seq<char>)> {
    match expect(s, lit_name_key()) {
        None => None,
        Some(s1) => match parse_string(s1) {
            None => None,
            Some((name, s2)) => match expect(s2, lit_chosen_key()) {
                None => None,
                Some(s3) => match parse_opt_string(s3) {
                    None => None,
                    Some((chosen, s4)) => match expect(s4, lit_workouts_key()) {
                        None => None,
                        Some(s5) => match parse_list(s5, |t: Seq<char>| parse_session(t)) {
                            None => None,
                            Some((workouts, s6)) => match expect(s6, lit_created_key()) {
                                None => None,
                                Some(s7) => match parse_list(
                                    s7,
                                    |t: Seq<char>| parse_exercise(t),
                                ) {
                                    None => None,
                                    Some((created_exercises, s8)) => match expect(
                                        s8,
                                        lit_close(),
                                    ) {
                                        None => None,
                                        Some(s9) => Some(
                                            (
                                                UserProfileView {
                                                    name,
                                                    chosen_workout_session: chosen,
                                                    workouts,
                                                    created_exercises,
                                                },
                                                s9,
                                            ),
                                        ),
                                    },
                                },
                            },
                        },
                    },
                },
            },
        },
    }
}

/// Parsing a rendered profile gives back the profile.
#[verifier::rlimit(100)]
pub proof fn lemma_profile_round_trip(v: UserProfileView, rest: Seq<char>)
    ensures
        parse_profile(render_profile(v) + rest) == Some((v, rest)),
{
    let ri_s = |x: WorkoutSessionView| render_session(x);
    let pi_s = |t: Seq<char>| parse_session(t);
    let ri_e = |x: ExerciseView| render_exercise(x);
    let pi_e = |t: Seq<char>| parse_exercise(t);
    let s = render_profile(v) + rest;
    let r8 = lit_close() + rest;
    let r7 = render_list(v.created_exercises, ri_e) + r8;
    let r6 = lit_created_key() + r7;
    let r5 = render_list(v.workouts, ri_s) + r6;
    let r4 = lit_workouts_key() + r5;
    let r3 = render_opt_string(v.chosen_workout_session) + r4;
    let r2 = lit_chosen_key() + r3;
    let r1 = render_string(v.name) + r2;
    assert(s =~= lit_name_key() + r1);
    lemma_expect(lit_name_key(), r1);
    assert(r1 =~= render_string(v.name) + r2);
    lemma_string_round_trip(v.name, r2);
    assert(r2 =~= lit_chosen_key() + r3);
    lemma_expect(lit_chosen_key(), r3);
    assert(r3 =~= render_opt_string(v.chosen_workout_session) + r4);
    lemma_opt_string_round_trip(v.chosen_workout_session, r4);
    assert(r4 =~= lit_workouts_key() + r5);
    lemma_expect(lit_workouts_key(), r5);
    assert forall|i: int, r: Seq<char>|
        0 <= i < v.workouts.len() implies #[trigger] pi_s(ri_s(v.workouts[i]) + r) == Some(
        (v.workouts[i], r),
    ) by {
        lemma_session_round_trip(v.workouts[i], r);
    }
    assert forall|i: int| 0 <= i < v.workouts.len() implies (#[trigger] ri_s(
        v.workouts[i],
    )).len() >= 1 by {
        assert(render_session(v.workouts[i]).len() >= lit_sets_key().len());
    }
    assert forall|i: int| 0 <= i < v.workouts.len() implies !is_close_bracket(
        (#[trigger] ri_s(v.workouts[i]))[0],
    ) by {
        assert(render_session(v.workouts[i])[0] == '{');
    }
    lemma_list_round_trip(v.workouts, ri_s, pi_s, r6);
    assert(r6 =~= lit_created_key() + r7);
    lemma_expect(lit_created_key(), r7);
    assert forall|i: int, r: Seq<char>|
        0 <= i < v.created_exercises.len() implies #[trigger] pi_e(
        ri_e(v.created_exercises[i]) + r,
    ) == Some((v.created_exercises[i], r)) by {
        lemma_exercise_round_trip(v.created_exercises[i], r);
    }
    assert forall|i: int| 0 <= i < v.created_exercises.len() implies (#[trigger] ri_e(
        v.created_exercises[i],
    )).len() >= 1 by {
        assert(render_exercise(v.created_exercises[i]).len() >= lit_name_key().len());
    }
    assert forall|i: int| 0 <= i < v.created_exercises.len() implies !is_close_bracket(
        (#[trigger] ri_e(v.created_exercises[i]))[0],
    ) by {
        assert(render_exercise(v.created_exercises[i])[0] == '{');
    }
    lemma_list_round_trip(v.created_exercises, ri_e, pi_e, r8);
    assert(r8 =~= lit_close() + rest);
    lemma_expect(lit_close(), rest);
}

/// A rendered registry object.
pub open spec fn render_users(v: UsersView) -> Seq<char> {
    lit_users_key() + render_list(v.users, |x: UserProfileView| render_profile(x)) + lit_close()
}

/// A registry object: value and rest, or nothing.
pub open spec fn parse_users(s: Seq<char>) -> Option<(UsersView, Seq<char>)> {
    match expect(s, lit_users_key()) {
        None => None,
        Some(s1) => match parse_list(s1, |t: Seq<char>| parse_profile(t)) {
            None => None,
            Some((users, s2)) => match expect(s2, lit_close()) {
                None => None,
                Some(s3) => Some((UsersView { users }, s3)),
            },
        },
    }
}

/// Parsing a rendered registry gives back the registry.
#[verifier::rlimit(100)]
pub proof fn lemma_users_round_trip(v: UsersView, rest: Seq<char>)
    ensures
        parse_users(render_users(v) + rest) == Some((v, rest)),
{
    let ri = |x: UserProfileView| render_profile(x);
    let pi = |t: Seq<char>| parse_profile(t);
    let s = render_users(v) + rest;
    let r2 = lit_close() + rest;
    let r1 = render_list(v.users, ri) + r2;
    assert(s =~= lit_users_key() + r1);
    lemma_expect(lit_users_key(), r1);
    assert forall|i: int, r: Seq<char>|
        0 <= i < v.users.len() implies #[trigger] pi(ri(v.users[i]) + r) == Some(
        (v.users[i], r),
    ) by {
        lemma_profile_round_trip(v.users[i], r);
    }
    assert forall|i: int| 0 <= i < v.users.len() implies (#[trigger] ri(v.users[i])).len() >= 1 by {
        assert(render_profile(v.users[i]).len() >= lit_name_key().len());
    }
    assert forall|i: int| 0 <= i < v.users.len() implies !is_close_bracket(
        (#[trigger] ri(v.users[i]))[0],
    ) by {
        assert(render_profile(v.users[i])[0] == '{');
    }
    lemma_list_round_trip(v.users, ri, pi, r2);
    assert(r2 =~= lit_close() + rest);
    lemma_expect(lit_close(), rest);
}

/// A rendered document: a tagged registry or a tagged profile snapshot.
#[verifier::opaque]
pub open spec fn render_contents(v: ContentsView) -> Seq<char> {
    match v {
        ContentsView::Users(u) => lit_users_tag() + render_users(u) + lit_close(),
        ContentsView::UserProfile(p) => lit_profile_tag() + render_profile(p) + lit_close(),
    }
}

/// A document: value and rest, or nothing.
pub open spec fn parse_contents(s: Seq<char>) -> Option<(ContentsView, Seq<char>)> {
    match expect(s, lit_users_tag()) {
        Some(s1) => match parse_users(s1) {
            None => None,
            Some((u, s2)) => match expect(s2, lit_close()) {
                None => None,
                Some(s3) => Some((ContentsView::Users(u), s3)),
            },
        },
        None => match expect(s, lit_profile_tag()) {
            None => None,
            Some(s1) => match parse_profile(s1) {
                None => None,
                Some((p, s2)) => match expect(s2, lit_close()) {
                    None => None,
                    Some(s3) => Some((ContentsView::UserProfile(p), s3)),
                },
            },
        },
    }
}

/// Parsing a rendered registry document gives back the registry.
#[verifier::rlimit(100)]
pub proof fn lemma_contents_users_round_trip(u: UsersView, rest: Seq<char>)
    ensures
        parse_contents(render_contents(ContentsView::Users(u)) + rest) == Some(
            (ContentsView::Users(u), rest),
        ),
{
    reveal(crate::json::render_contents);
    let s = render_contents(ContentsView::Users(u)) + rest;
    let r2 = lit_close() + rest;
    let r1 = render_users(u) + r2;
    assert(s =~= lit_users_tag() + r1);
    lemma_expect(lit_users_tag(), r1);
    assert(r1 =~= render_users(u) + r2);
    lemma_users_round_trip(u, r2);
    assert(r2 =~= lit_close() + rest);
    lemma_expect(lit_close(), rest);
}

/// Parsing a rendered snapshot document gives back the snapshot.
#[verifier::rlimit(100)]
pub proof fn lemma_contents_profile_round_trip(p: UserProfileView, rest: Seq<char>)
    ensures
        parse_contents(render_contents(ContentsView::UserProfile(p)) + rest) == Some(
            (ContentsView::UserProfile(p), rest),
        ),
{
    reveal(crate::json::render_contents);
    let s = render_contents(ContentsView::UserProfile(p)) + rest;
    let r2 = lit_close() + rest;
    let r1 = render_profile(p) + r2;
    assert(s =~= lit_profile_tag() + r1);
    if expect(s, lit_users_tag()) is Some {
        assert(s.take(lit_users_tag().len() as int)[6] == s[6]);
        assert(s[6] == lit_profile_tag()[6]);
        assert(lit_profile_tag()[6] == 'P');
        assert(lit_users_tag()[6] == 's');
        assert(false);
    }
    lemma_expect(lit_profile_tag(), r1);
    assert(r1 =~= render_profile(p) + r2);
    lemma_profile_round_trip(p, r2);
    assert(r2 =~= lit_close() + rest);
    lemma_expect(lit_close(), rest);
}

/// Parsing a rendered document gives back the document.
pub proof fn lemma_contents_round_trip(v: ContentsView, rest: Seq<char>)
    ensures
        parse_contents(render_contents(v) + rest) == Some((v, rest)),
{
    match v {
        ContentsView::Users(u) => {
            lemma_contents_users_round_trip(u, rest);
        },
        ContentsView::UserProfile(p) => {
            lemma_contents_profile_round_trip(p, rest);
        },
    }
}

/// A whole document, with nothing before or after it.
#[verifier::opaque]
pub open spec fn parse_document(s: Seq<char>) -> Option<ContentsView> {
    match parse_contents(s) {
        None => None,
        Some((v, r)) => if r.len() == 0 {
            Some(v)
        } else {
            None
        },
    }
}

/// The round trip of the store: any document, rendered and parsed back,
/// is returned unchanged.
pub proof fn lemma_document_round_trip(v: ContentsView)
    ensures
        parse_document(render_contents(v)) == Some(v),
{
    reveal(crate::json::parse_document);
    lemma_contents_round_trip(v, Seq::empty());
    assert(render_contents(v) + Seq::<char>::empty() =~= render_contents(v));
}

} // verus!
