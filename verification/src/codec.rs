//! The executable codec: rendering a document to text and parsing text
//! back, each proved to compute exactly what the grammar in [`crate::json`]
//! describes.

use vstd::prelude::*;
use vstd::string::StrSliceExecFns;

use crate::exercise::Exercise;
use crate::json::char_of_code;
use crate::json::digit_char;
use crate::json::escape_char;
use crate::json::escape_seq;
use crate::json::expect;
use crate::json::hex_char;
use crate::json::hex_val;
use crate::json::is_digit;
use crate::json::lemma_escape_snoc;
use crate::json::parse_bool;
use crate::json::parse_contents;
use crate::json::parse_document;
use crate::json::parse_exercise;
use crate::json::parse_items;
use crate::json::parse_list;
use crate::json::parse_num;
use crate::json::parse_num_rec;
use crate::json::parse_opt_string;
use crate::json::parse_profile;
use crate::json::parse_session;
use crate::json::parse_set;
use crate::json::parse_string;
use crate::json::parse_string_body;
use crate::json::parse_users;
use crate::json::render_bool;
use crate::json::render_contents;
use crate::json::render_exercise;
use crate::json::render_items;
use crate::json::render_list;
use crate::json::render_num;
use crate::json::render_opt_string;
use crate::json::render_profile;
use crate::json::render_session;
use crate::json::render_set;
use crate::json::render_string;
use crate::json::render_users;
use crate::user_profile::UserProfile;
use crate::user_profile::UserProfileView;
use crate::user_profile::Users;
use crate::utils::ContentsView;
use crate::utils::FileContents;
use crate::views_of;
use crate::workout_session::WorkoutSession;
use crate::workout_session::WorkoutSessionView;
use crate::workout_set::WorkoutSet;
use crate::workout_set::WorkoutSetView;

verus! {

/// Relies on `String`'s `FromIterator` impl: collecting characters
/// builds the string of exactly those characters, in order.
#[verifier::external_body]
fn string_of_chars(v: &Vec<char>) -> (s: String)
    ensures
        s@ == v@,
{
    v.iter().collect()
}

/// The characters of a string slice, in order.
fn chars_of_str(s: &str) -> (v: Vec<char>)
    ensures
        v@ == s@,
{
    let n = s.unicode_len();
    let mut v: Vec<char> = Vec::new();
    let mut k: usize = 0;
    while k < n
        invariant
            k <= n,
            n == s@.len(),
            v@ == s@.take(k as int),
        decreases n - k,
    {
        v.push(s.get_char(k));
        proof {
            assert(v@ =~= s@.take(k + 1int));
        }
        k += 1;
    }
    proof {
        assert(s@.take(n as int) =~= s@);
    }
    v
}

/// Whether a character is a decimal digit.
fn is_digit_exec(c: char) -> (r: bool)
    ensures
        r == is_digit(c),
{
    let u = c as u32;
    48 <= u && u <= 57
}

/// The character for a decimal digit value.
fn digit_char_exec(d: u32) -> (c: char)
    requires
        d < 10,
    ensures
        c == digit_char(d as int),
{
    if d == 0 {
        '0'
    } else if d == 1 {
        '1'
    } else if d == 2 {
        '2'
    } else if d == 3 {
        '3'
    } else if d == 4 {
        '4'
    } else if d == 5 {
        '5'
    } else if d == 6 {
        '6'
    } else if d == 7 {
        '7'
    } else if d == 8 {
        '8'
    } else {
        '9'
    }
}

/// The lower-case character for a hexadecimal digit value.
fn hex_char_exec(d: u32) -> (c: char)
    requires
        d < 16,
    ensures
        c == hex_char(d as int),
{
    if d < 10 {
        digit_char_exec(d)
    } else if d == 10 {
        'a'
    } else if d == 11 {
        'b'
    } else if d == 12 {
        'c'
    } else if d == 13 {
        'd'
    } else if d == 14 {
        'e'
    } else {
        'f'
    }
}

/// The value of a lower-case hexadecimal digit character, if it is one.
fn hex_val_of(c: char) -> (r: Option<u32>)
    ensures
        match r {
            Some(x) => hex_val(c) == x && x < 16,
            None => hex_val(c) == -1,
        },
{
    let u = c as u32;
    if 48 <= u && u <= 57 {
        Some(u - 48)
    } else if 97 <= u && u <= 102 {
        Some(u - 87)
    } else {
        None
    }
}

/// The control character with a given scalar value.
fn char_of_code_exec(n: u32) -> (c: char)
    requires
        n < 32,
    ensures
        c == char_of_code(n as int),
{
    if n == 0 {
        '\u{00}'
    } else if n == 1 {
        '\u{01}'
    } else if n == 2 {
        '\u{02}'
    } else if n == 3 {
        '\u{03}'
    } else if n == 4 {
        '\u{04}'
    } else if n == 5 {
        '\u{05}'
    } else if n == 6 {
        '\u{06}'
    } else if n == 7 {
        '\u{07}'
    } else if n == 8 {
        '\u{08}'
    } else if n == 9 {
        '\u{09}'
    } else if n == 10 {
        '\u{0a}'
    } else if n == 11 {
        '\u{0b}'
    } else if n == 12 {
        '\u{0c}'
    } else if n == 13 {
        '\u{0d}'
    } else if n == 14 {
        '\u{0e}'
    } else if n == 15 {
        '\u{0f}'
    } else if n == 16 {
        '\u{10}'
    } else if n == 17 {
        '\u{11}'
    } else if n == 18 {
        '\u{12}'
    } else if n == 19 {
        '\u{13}'
    } else if n == 20 {
        '\u{14}'
    } else if n == 21 {
        '\u{15}'
    } else if n == 22 {
        '\u{16}'
    } else if n == 23 {
        '\u{17}'
    } else if n == 24 {
        '\u{18}'
    } else if n == 25 {
        '\u{19}'
    } else if n == 26 {
        '\u{1a}'
    } else if n == 27 {
        '\u{1b}'
    } else if n == 28 {
        '\u{1c}'
    } else if n == 29 {
        '\u{1d}'
    } else if n == 30 {
        '\u{1e}'
    } else {
        '\u{1f}'
    }
}

/// Appends a literal pattern of characters.
fn push_chars(out: &mut Vec<char>, pat: &[char])
    ensures
        final(out)@ == old(out)@ + pat@,
{
    let mut k: usize = 0;
    while k < pat.len()
        invariant
            k <= pat@.len(),
            out@ == old(out)@ + pat@.take(k as int),
        decreases pat@.len() - k,
    {
        out.push(pat[k]);
        proof {
            assert(old(out)@ + pat@.take(k + 1int) =~= (old(out)@ + pat@.take(k as int)).push(
                pat@[k as int],
            ));
        }
        k += 1;
    }
    proof {
        assert(pat@.take(pat@.len() as int) =~= pat@);
    }
}

/// Appends the decimal rendering of a number.
fn render_num_into(n: u32, out: &mut Vec<char>)
    ensures
        final(out)@ == old(out)@ + render_num(n as int),
    decreases n,
{
    if n < 10 {
        out.push(digit_char_exec(n));
        proof {
            assert(final(out)@ =~= old(out)@ + render_num(n as int));
        }
    } else {
        render_num_into(n / 10, out);
        out.push(digit_char_exec(n % 10));
        proof {
            assert(final(out)@ =~= old(out)@ + render_num(n as int));
        }
    }
}

/// Appends the quoted, escaped rendering of a string.
fn render_string_into(s: &str, out: &mut Vec<char>)
    ensures
        final(out)@ == old(out)@ + render_string(s@),
{
    out.push('"');
    let n = s.unicode_len();
    let mut k: usize = 0;
    while k < n
        invariant
            k <= n,
            n == s@.len(),
            out@ == old(out)@ + seq!['"'] + escape_seq(s@.take(k as int)),
        decreases n - k,
    {
        let ghost before = out@;
        let c = s.get_char(k);
        let u = c as u32;
        if c == '"' {
            out.push('\\');
            out.push('"');
        } else if c == '\\' {
            out.push('\\');
            out.push('\\');
        } else if u < 32 {
            out.push('\\');
            out.push('u');
            out.push('0');
            out.push('0');
            out.push(hex_char_exec(u / 16));
            out.push(hex_char_exec(u % 16));
        } else {
            out.push(c);
        }
        proof {
            assert(out@ =~= before + escape_char(c));
            assert(s@.take(k + 1int) =~= s@.take(k as int).push(c));
            lemma_escape_snoc(s@.take(k as int), c);
            assert(out@ =~= old(out)@ + seq!['"'] + escape_seq(s@.take(k + 1int)));
        }
        k += 1;
    }
    out.push('"');
    proof {
        assert(s@.take(n as int) =~= s@);
        assert(final(out)@ =~= old(out)@ + render_string(s@));
    }
}

/// Appends `true` or `false`.
fn render_bool_into(b: bool, out: &mut Vec<char>)
    ensures
        final(out)@ == old(out)@ + render_bool(b),
{
    if b {
        push_chars(out, &['t', 'r', 'u', 'e']);
    } else {
        push_chars(out, &['f', 'a', 'l', 's', 'e']);
    }
    proof {
        assert(final(out)@ =~= old(out)@ + render_bool(b));
    }
}

/// Appends `null` or a quoted string.
fn render_opt_string_into(o: &Option<String>, out: &mut Vec<char>)
    ensures
        final(out)@ == old(out)@ + render_opt_string(
            match o {
                Some(s) => Some(s@),
                None => None,
            },
        ),
{
    match o {
        None => {
            push_chars(out, &['n', 'u', 'l', 'l']);
            proof {
                assert(final(out)@ =~= old(out)@ + render_opt_string(None));
            }
        },
        Some(s) => {
            render_string_into(s.as_str(), out);
        },
    }
}

/// The characters of the key `{"exercise":`.
fn arr_exercise_key() -> (a: [char; 12])
    ensures
        a@ == crate::json::lit_exercise_key(),
{
    let a = ['{', '"', 'e', 'x', 'e', 'r', 'c', 'i', 's', 'e', '"', ':'];
    proof {
        assert(a@ =~= crate::json::lit_exercise_key());
    }
    a
}

/// The characters of the key `,"reps":`.
fn arr_reps_key() -> (a: [char; 8])
    ensures
        a@ == crate::json::lit_reps_key(),
{
    let a = [',', '"', 'r', 'e', 'p', 's', '"', ':'];
    proof {
        assert(a@ =~= crate::json::lit_reps_key());
    }
    a
}

/// The characters of the key `,"weight":`.
fn arr_weight_key() -> (a: [char; 10])
    ensures
        a@ == crate::json::lit_weight_key(),
{
    let a = [',', '"', 'w', 'e', 'i', 'g', 'h', 't', '"', ':'];
    proof {
        assert(a@ =~= crate::json::lit_weight_key());
    }
    a
}

/// The characters of the key `,"is_dropset":`.
fn arr_dropset_key() -> (a: [char; 14])
    ensures
        a@ == crate::json::lit_dropset_key(),
{
    let a = [',', '"', 'i', 's', '_', 'd', 'r', 'o', 'p', 's', 'e', 't', '"', ':'];
    proof {
        assert(a@ =~= crate::json::lit_dropset_key());
    }
    a
}

/// The characters of the key `{"sets":`.
fn arr_sets_key() -> (a: [char; 8])
    ensures
        a@ == crate::json::lit_sets_key(),
{
    let a = ['{', '"', 's', 'e', 't', 's', '"', ':'];
    proof {
        assert(a@ =~= crate::json::lit_sets_key());
    }
    a
}

/// The characters of the key `,"name":`.
fn arr_name_after_key() -> (a: [char; 8])
    ensures
        a@ == crate::json::lit_name_after_key(),
{
    let a = [',', '"', 'n', 'a', 'm', 'e', '"', ':'];
    proof {
        assert(a@ =~= crate::json::lit_name_after_key());
    }
    a
}

/// The characters of the key `{"name":`.
fn arr_name_key() -> (a: [char; 8])
    ensures
        a@ == crate::json::lit_name_key(),
{
    let a = ['{', '"', 'n', 'a', 'm', 'e', '"', ':'];
    proof {
        assert(a@ =~= crate::json::lit_name_key());
    }
    a
}

/// The characters of the key `,"description":`.
fn arr_description_key() -> (a: [char; 15])
    ensures
        a@ == crate::json::lit_description_key(),
{
    let a = [',', '"', 'd', 'e', 's', 'c', 'r', 'i', 'p', 't', 'i', 'o', 'n', '"', ':'];
    proof {
        assert(a@ =~= crate::json::lit_description_key());
    }
    a
}

/// The characters of the key `,"muscle_groups":`.
fn arr_muscle_key() -> (a: [char; 17])
    ensures
        a@ == crate::json::lit_muscle_key(),
{
    let a = [',', '"', 'm', 'u', 's', 'c', 'l', 'e', '_', 'g', 'r', 'o', 'u', 'p', 's', '"', ':'];
    proof {
        assert(a@ =~= crate::json::lit_muscle_key());
    }
    a
}

/// The characters of the key `,"equipment":`.
fn arr_equipment_key() -> (a: [char; 13])
    ensures
        a@ == crate::json::lit_equipment_key(),
{
    let a = [',', '"', 'e', 'q', 'u', 'i', 'p', 'm', 'e', 'n', 't', '"', ':'];
    proof {
        assert(a@ =~= crate::json::lit_equipment_key());
    }
    a
}

/// The characters of the key `,"chosen_workout_session":`.
fn arr_chosen_key() -> (a: [char; 26])
    ensures
        a@ == crate::json::lit_chosen_key(),
{
    let a = [',', '"', 'c', 'h', 'o', 's', 'e', 'n', '_', 'w', 'o', 'r', 'k', 'o', 'u', 't', '_',
        's', 'e', 's', 's', 'i', 'o', 'n', '"', ':'];
    proof {
        assert(a@ =~= crate::json::lit_chosen_key());
    }
    a
}

/// The characters of the key `,"workouts":`.
fn arr_workouts_key() -> (a: [char; 12])
    ensures
        a@ == crate::json::lit_workouts_key(),
{
    let a = [',', '"', 'w', 'o', 'r', 'k', 'o', 'u', 't', 's', '"', ':'];
    proof {
        assert(a@ =~= crate::json::lit_workouts_key());
    }
    a
}

/// The characters of the key `,"created_exercises":`.
fn arr_created_key() -> (a: [char; 21])
    ensures
        a@ == crate::json::lit_created_key(),
{
    let a = [',', '"', 'c', 'r', 'e', 'a', 't', 'e', 'd', '_', 'e', 'x', 'e', 'r', 'c', 'i', 's',
        'e', 's', '"', ':'];
    proof {
        assert(a@ =~= crate::json::lit_created_key());
    }
    a
}

/// The characters of the key `{"users":`.
fn arr_users_key() -> (a: [char; 9])
    ensures
        a@ == crate::json::lit_users_key(),
{
    let a = ['{', '"', 'u', 's', 'e', 'r', 's', '"', ':'];
    proof {
        assert(a@ =~= crate::json::lit_users_key());
    }
    a
}

/// The characters of the tag `{"Users":`.
fn arr_users_tag() -> (a: [char; 9])
    ensures
        a@ == crate::json::lit_users_tag(),
{
    let a = ['{', '"', 'U', 's', 'e', 'r', 's', '"', ':'];
    proof {
        assert(a@ =~= crate::json::lit_users_tag());
    }
    a
}

/// The characters of the tag `{"UserProfile":`.
fn arr_profile_tag() -> (a: [char; 15])
    ensures
        a@ == crate::json::lit_profile_tag(),
{
    let a = ['{', '"', 'U', 's', 'e', 'r', 'P', 'r', 'o', 'f', 'i', 'l', 'e', '"', ':'];
    proof {
        assert(a@ =~= crate::json::lit_profile_tag());
    }
    a
}

/// The brace that closes an object.
fn arr_close() -> (a: [char; 1])
    ensures
        a@ == crate::json::lit_close(),
{
    let a = ['}'];
    proof {
        assert(a@ =~= crate::json::lit_close());
    }
    a
}

/// Appends a rendered set object.
fn render_set_into(v: &WorkoutSet, out: &mut Vec<char>)
    ensures
        final(out)@ == old(out)@ + render_set(v@),
{
    push_chars(out, &arr_exercise_key());
    render_string_into(v.exercise.as_str(), out);
    push_chars(out, &arr_reps_key());
    render_num_into(v.reps, out);
    push_chars(out, &arr_weight_key());
    render_num_into(v.weight, out);
    push_chars(out, &arr_dropset_key());
    render_bool_into(v.is_dropset, out);
    out.push('}');
    proof {
        assert(final(out)@ =~= old(out)@ + render_set(v@));
    }
}

/// Appends the comma-joined renderings of the sets from position `k` on.
fn render_sets_from(v: &Vec<WorkoutSet>, k: usize, out: &mut Vec<char>)
    requires
        k < v@.len(),
    ensures
        final(out)@ == old(out)@ + render_items(
            views_of(v@).skip(k as int),
            |x: WorkoutSetView| render_set(x),
        ),
    decreases v@.len() - k,
{
    let n = v.len();
    render_set_into(&v[k], out);
    proof {
        assert(views_of(v@).skip(k as int)[0] == v@[k as int]@);
    }
    if k + 1 < n {
        out.push(',');
        render_sets_from(v, k + 1, out);
        proof {
            assert(views_of(v@).skip(k as int).skip(1) =~= views_of(v@).skip(k + 1int));
            assert(final(out)@ =~= old(out)@ + render_items(
                views_of(v@).skip(k as int),
                |x: WorkoutSetView| render_set(x),
            ));
        }
    } else {
        proof {
            assert(views_of(v@).skip(k as int).len() == 1);
            assert(final(out)@ =~= old(out)@ + render_items(
                views_of(v@).skip(k as int),
                |x: WorkoutSetView| render_set(x),
            ));
        }
    }
}

/// Appends a rendered array of sets.
fn render_sets_list_into(v: &Vec<WorkoutSet>, out: &mut Vec<char>)
    ensures
        final(out)@ == old(out)@ + render_list(views_of(v@), |x: WorkoutSetView| render_set(x)),
{
    out.push('[');
    if v.len() > 0 {
        render_sets_from(v, 0, out);
        proof {
            assert(views_of(v@).skip(0int) =~= views_of(v@));
        }
    }
    out.push(']');
    proof {
        if v@.len() == 0 {
            assert(views_of(v@).len() == 0);
        }
        assert(final(out)@ =~= old(out)@ + render_list(
            views_of(v@),
            |x: WorkoutSetView| render_set(x),
        ));
    }
}

/// Appends a rendered session object.
fn render_session_into(v: &WorkoutSession, out: &mut Vec<char>)
    ensures
        final(out)@ == old(out)@ + render_session(v@),
{
    push_chars(out, &arr_sets_key());
    render_sets_list_into(&v.sets, out);
    push_chars(out, &arr_name_after_key());
    render_string_into(v.name.as_str(), out);
    out.push('}');
    proof {
        assert(final(out)@ =~= old(out)@ + render_session(v@));
    }
}

/// Appends the comma-joined renderings of the sessions from position `k`.
fn render_sessions_from(v: &Vec<WorkoutSession>, k: usize, out: &mut Vec<char>)
    requires
        k < v@.len(),
    ensures
        final(out)@ == old(out)@ + render_items(
            views_of(v@).skip(k as int),
            |x: WorkoutSessionView| render_session(x),
        ),
    decreases v@.len() - k,
{
    let n = v.len();
    render_session_into(&v[k], out);
    proof {
        assert(views_of(v@).skip(k as int)[0] == v@[k as int]@);
    }
    if k + 1 < n {
        out.push(',');
        render_sessions_from(v, k + 1, out);
        proof {
            assert(views_of(v@).skip(k as int).skip(1) =~= views_of(v@).skip(k + 1int));
            assert(final(out)@ =~= old(out)@ + render_items(
                views_of(v@).skip(k as int),
                |x: WorkoutSessionView| render_session(x),
            ));
        }
    } else {
        proof {
            assert(views_of(v@).skip(k as int).len() == 1);
            assert(final(out)@ =~= old(out)@ + render_items(
                views_of(v@).skip(k as int),
                |x: WorkoutSessionView| render_session(x),
            ));
        }
    }
}

/// Appends a rendered array of sessions.
fn render_sessions_list_into(v: &Vec<WorkoutSession>, out: &mut Vec<char>)
    ensures
        final(out)@ == old(out)@ + render_list(
            views_of(v@),
            |x: WorkoutSessionView| render_session(x),
        ),
{
    out.push('[');
    if v.len() > 0 {
        render_sessions_from(v, 0, out);
        proof {
            assert(views_of(v@).skip(0int) =~= views_of(v@));
        }
    }
    out.push(']');
    proof {
        if v@.len() == 0 {
            assert(views_of(v@).len() == 0);
        }
        assert(final(out)@ =~= old(out)@ + render_list(
            views_of(v@),
            |x: WorkoutSessionView| render_session(x),
        ));
    }
}

/// Appends the comma-joined renderings of the strings from position `k`.
fn render_strings_from(v: &Vec<String>, k: usize, out: &mut Vec<char>)
    requires
        k < v@.len(),
    ensures
        final(out)@ == old(out)@ + render_items(
            views_of(v@).skip(k as int),
            |x: Seq<char>| render_string(x),
        ),
    decreases v@.len() - k,
{
    let n = v.len();
    render_string_into(v[k].as_str(), out);
    proof {
        assert(views_of(v@).skip(k as int)[0] == v@[k as int]@);
    }
    if k + 1 < n {
        out.push(',');
        render_strings_from(v, k + 1, out);
        proof {
            assert(views_of(v@).skip(k as int).skip(1) =~= views_of(v@).skip(k + 1int));
            assert(final(out)@ =~= old(out)@ + render_items(
                views_of(v@).skip(k as int),
                |x: Seq<char>| render_string(x),
            ));
        }
    } else {
        proof {
            assert(views_of(v@).skip(k as int).len() == 1);
            assert(final(out)@ =~= old(out)@ + render_items(
                views_of(v@).skip(k as int),
                |x: Seq<char>| render_string(x),
            ));
        }
    }
}

/// Appends a rendered array of strings.
fn render_strings_list_into(v: &Vec<String>, out: &mut Vec<char>)
    ensures
        final(out)@ == old(out)@ + render_list(views_of(v@), |x: Seq<char>| render_string(x)),
{
    out.push('[');
    if v.len() > 0 {
        render_strings_from(v, 0, out);
        proof {
            assert(views_of(v@).skip(0int) =~= views_of(v@));
        }
    }
    out.push(']');
    proof {
        if v@.len() == 0 {
            assert(views_of(v@).len() == 0);
        }
        assert(final(out)@ =~= old(out)@ + render_list(
            views_of(v@),
            |x: Seq<char>| render_string(x),
        ));
    }
}

/// Appends a rendered exercise object.
fn render_exercise_into(v: &Exercise, out: &mut Vec<char>)
    ensures
        final(out)@ == old(out)@ + render_exercise(v@),
{
    push_chars(out, &arr_name_key());
    render_string_into(v.name.as_str(), out);
    push_chars(out, &arr_description_key());
    render_string_into(v.description.as_str(), out);
    push_chars(out, &arr_muscle_key());
    render_strings_list_into(&v.muscle_groups, out);
    push_chars(out, &arr_equipment_key());
    render_string_into(v.equipment.as_str(), out);
    out.push('}');
    proof {
        assert(final(out)@ =~= old(out)@ + render_exercise(v@));
    }
}

/// Appends the comma-joined renderings of the exercises from position `k`.
fn render_exercises_from(v: &Vec<Exercise>, k: usize, out: &mut Vec<char>)
    requires
        k < v@.len(),
    ensures
        final(out)@ == old(out)@ + render_items(
            views_of(v@).skip(k as int),
            |x: crate::exercise::ExerciseView| render_exercise(x),
        ),
    decreases v@.len() - k,
{
    let n = v.len();
    render_exercise_into(&v[k], out);
    proof {
        assert(views_of(v@).skip(k as int)[0] == v@[k as int]@);
    }
    if k + 1 < n {
        out.push(',');
        render_exercises_from(v, k + 1, out);
        proof {
            assert(views_of(v@).skip(k as int).skip(1) =~= views_of(v@).skip(k + 1int));
            assert(final(out)@ =~= old(out)@ + render_items(
                views_of(v@).skip(k as int),
                |x: crate::exercise::ExerciseView| render_exercise(x),
            ));
        }
    } else {
        proof {
            assert(views_of(v@).skip(k as int).len() == 1);
            assert(final(out)@ =~= old(out)@ + render_items(
                views_of(v@).skip(k as int),
                |x: crate::exercise::ExerciseView| render_exercise(x),
            ));
        }
    }
}

/// Appends a rendered array of exercises.
fn render_exercises_list_into(v: &Vec<Exercise>, out: &mut Vec<char>)
    ensures
        final(out)@ == old(out)@ + render_list(
            views_of(v@),
            |x: crate::exercise::ExerciseView| render_exercise(x),
        ),
{
    out.push('[');
    if v.len() > 0 {
        render_exercises_from(v, 0, out);
        proof {
            assert(views_of(v@).skip(0int) =~= views_of(v@));
        }
    }
    out.push(']');
    proof {
        if v@.len() == 0 {
            assert(views_of(v@).len() == 0);
        }
        assert(final(out)@ =~= old(out)@ + render_list(
            views_of(v@),
            |x: crate::exercise::ExerciseView| render_exercise(x),
        ));
    }
}

/// Appends a rendered profile object.
#[verifier::rlimit(50)]
fn render_profile_into(v: &UserProfile, out: &mut Vec<char>)
    ensures
        final(out)@ == old(out)@ + render_profile(v@),
{
    push_chars(out, &arr_name_key());
    render_string_into(v.name.as_str(), out);
    push_chars(out, &arr_chosen_key());
    render_opt_string_into(&v.chosen_workout_session, out);
    push_chars(out, &arr_workouts_key());
    render_sessions_list_into(&v.workouts, out);
    push_chars(out, &arr_created_key());
    render_exercises_list_into(&v.created_exercises, out);
    out.push('}');
    proof {
        assert(final(out)@ =~= old(out)@ + render_profile(v@));
    }
}

/// Appends the comma-joined renderings of the profiles from position `k`.
#[verifier::rlimit(50)]
fn render_profiles_from(v: &Vec<UserProfile>, k: usize, out: &mut Vec<char>)
    requires
        k < v@.len(),
    ensures
        final(out)@ == old(out)@ + render_items(
            views_of(v@).skip(k as int),
            |x: UserProfileView| render_profile(x),
        ),
    decreases v@.len() - k,
{
    let n = v.len();
    render_profile_into(&v[k], out);
    proof {
        assert(views_of(v@).skip(k as int)[0] == v@[k as int]@);
    }
    if k + 1 < n {
        out.push(',');
        render_profiles_from(v, k + 1, out);
        proof {
            assert(views_of(v@).skip(k as int).skip(1) =~= views_of(v@).skip(k + 1int));
            assert(final(out)@ =~= old(out)@ + render_items(
                views_of(v@).skip(k as int),
                |x: UserProfileView| render_profile(x),
            ));
        }
    } else {
        proof {
            assert(views_of(v@).skip(k as int).len() == 1);
            assert(final(out)@ =~= old(out)@ + render_items(
                views_of(v@).skip(k as int),
                |x: UserProfileView| render_profile(x),
            ));
        }
    }
}

/// Appends a rendered array of profiles.
fn render_profiles_list_into(v: &Vec<UserProfile>, out: &mut Vec<char>)
    ensures
        final(out)@ == old(out)@ + render_list(
            views_of(v@),
            |x: UserProfileView| render_profile(x),
        ),
{
    out.push('[');
    if v.len() > 0 {
        render_profiles_from(v, 0, out);
        proof {
            assert(views_of(v@).skip(0int) =~= views_of(v@));
        }
    }
    out.push(']');
    proof {
        if v@.len() == 0 {
            assert(views_of(v@).len() == 0);
        }
        assert(final(out)@ =~= old(out)@ + render_list(
            views_of(v@),
            |x: UserProfileView| render_profile(x),
        ));
    }
}

/// Appends a rendered registry object.
fn render_users_into(v: &Users, out: &mut Vec<char>)
    ensures
        final(out)@ == old(out)@ + render_users(v@),
{
    push_chars(out, &arr_users_key());
    render_profiles_list_into(&v.users, out);
    out.push('}');
    proof {
        assert(final(out)@ =~= old(out)@ + render_users(v@));
    }
}

/// Consumes an expected literal at position `i`, if it is there.
fn expect_at(v: &Vec<char>, i: usize, pat: &[char]) -> (r: Option<usize>)
    requires
        i <= v@.len(),
    ensures
        match expect(v@.skip(i as int), pat@) {
            Some(rest) => (r matches Some(j) && i <= j <= v@.len() && v@.skip(j as int) == rest),
            None => r is None,
        },
{
    let n = v.len();
    let m = pat.len();
    if m > n - i {
        proof {
            assert(expect(v@.skip(i as int), pat@) is None);
        }
        return None;
    }
    let mut k: usize = 0;
    while k < m
        invariant
            k <= m,
            m == pat@.len(),
            n == v@.len(),
            i + m <= n,
            forall|t: int| 0 <= t < k ==> v@[i + t] == pat@[t],
        decreases m - k,
    {
        if v[i + k] != pat[k] {
            proof {
                let s = v@.skip(i as int);
                assert(s.take(pat@.len() as int)[k as int] == v@[i + k]);
                assert(s.take(pat@.len() as int) != pat@);
            }
            return None;
        }
        k += 1;
    }
    proof {
        let s = v@.skip(i as int);
        assert(s.take(pat@.len() as int) =~= pat@);
        assert(s.skip(pat@.len() as int) =~= v@.skip(i + pat@.len()));
    }
    Some(i + m)
}

/// The body of a quoted string from position `i`, after its opening
/// quote: the decoded characters and the position after the closing
/// quote.
fn parse_string_body_at(v: &Vec<char>, i: usize) -> (r: Option<(Vec<char>, usize)>)
    requires
        i <= v@.len(),
    ensures
        match parse_string_body(v@.skip(i as int)) {
            Some(tr) => (r matches Some(p) && p.0@ == tr.0 && i <= p.1 <= v@.len() && v@.skip(
                p.1 as int,
            ) == tr.1),
            None => r is None,
        },
    decreases v@.len() - i,
{
    let ghost s = v@.skip(i as int);
    let n = v.len();
    if i >= n {
        return None;
    }
    proof {
        assert(s[0] == v@[i as int]);
    }
    let c = v[i];
    if c == '"' {
        proof {
            assert(s.skip(1) =~= v@.skip(i + 1int));
        }
        let t: Vec<char> = Vec::new();
        proof {
            assert(t@ =~= Seq::<char>::empty());
        }
        return Some((t, i + 1));
    }
    if c == '\\' {
        if n - i < 2 {
            return None;
        }
        proof {
            assert(s[1] == v@[i + 1int]);
        }
        let c2 = v[i + 1];
        if c2 == '"' || c2 == '\\' {
            proof {
                assert(s.skip(2) =~= v@.skip(i + 2int));
            }
            match parse_string_body_at(v, i + 2) {
                None => None,
                Some((t, j)) => {
                    let ghost tv = t@;
                    let mut t = t;
                    t.insert(0, c2);
                    proof {
                        assert(t@ =~= seq![s[1]] + tv);
                    }
                    Some((t, j))
                },
            }
        } else if c2 == 'u' {
            if n - i < 6 {
                return None;
            }
            proof {
                assert(s[2] == v@[i + 2int]);
                assert(s[3] == v@[i + 3int]);
                assert(s[4] == v@[i + 4int]);
                assert(s[5] == v@[i + 5int]);
            }
            if v[i + 2] != '0' || v[i + 3] != '0' {
                return None;
            }
            let h4 = hex_val_of(v[i + 4]);
            let h5 = hex_val_of(v[i + 5]);
            match (h4, h5) {
                (Some(a), Some(b)) => {
                    if a * 16 + b < 32 && v[i + 4] == hex_char_exec(a) && v[i + 5]
                        == hex_char_exec(b) {
                        proof {
                            assert(s.skip(6) =~= v@.skip(i + 6int));
                        }
                        match parse_string_body_at(v, i + 6) {
                            None => None,
                            Some((t, j)) => {
                                let ghost tv = t@;
                                let ch = char_of_code_exec(a * 16 + b);
                                let mut t = t;
                                t.insert(0, ch);
                                proof {
                                    assert(t@ =~= seq![
                                        char_of_code(hex_val(s[4]) * 16 + hex_val(s[5])),
                                    ] + tv);
                                }
                                Some((t, j))
                            },
                        }
                    } else {
                        None
                    }
                },
                _ => None,
            }
        } else {
            None
        }
    } else if (c as u32) < 32 {
        None
    } else {
        proof {
            assert(s.skip(1) =~= v@.skip(i + 1int));
        }
        match parse_string_body_at(v, i + 1) {
            None => None,
            Some((t, j)) => {
                let ghost tv = t@;
                let mut t = t;
                t.insert(0, c);
                proof {
                    assert(t@ =~= seq![s[0]] + tv);
                }
                Some((t, j))
            },
        }
    }
}

/// A quoted string from position `i`.
fn parse_string_at(v: &Vec<char>, i: usize) -> (r: Option<(String, usize)>)
    requires
        i <= v@.len(),
    ensures
        match parse_string(v@.skip(i as int)) {
            Some(tr) => (r matches Some(p) && p.0@ == tr.0 && i <= p.1 <= v@.len() && v@.skip(
                p.1 as int,
            ) == tr.1),
            None => r is None,
        },
{
    let n = v.len();
    if i >= n {
        return None;
    }
    proof {
        assert(v@.skip(i as int)[0] == v@[i as int]);
    }
    if v[i] != '"' {
        return None;
    }
    proof {
        assert(v@.skip(i as int).skip(1) =~= v@.skip(i + 1int));
    }
    match parse_string_body_at(v, i + 1) {
        None => None,
        Some((t, j)) => Some((string_of_chars(&t), j)),
    }
}

/// Digits from position `i`, consumed into an accumulator.
fn parse_num_rec_at(v: &Vec<char>, i: usize, acc: u32) -> (r: Option<(u32, usize)>)
    requires
        i <= v@.len(),
    ensures
        match parse_num_rec(v@.skip(i as int), acc as int) {
            Some(tr) => (r matches Some(p) && p.0 as int == tr.0 && i <= p.1 <= v@.len()
                && v@.skip(p.1 as int) == tr.1),
            None => r is None,
        },
    decreases v@.len() - i,
{
    let n = v.len();
    if i >= n {
        return Some((acc, i));
    }
    proof {
        assert(v@.skip(i as int)[0] == v@[i as int]);
    }
    let c = v[i];
    if !is_digit_exec(c) {
        return Some((acc, i));
    }
    let d = c as u32 - 48;
    let big = acc as u64 * 10 + d as u64;
    if big > u32::MAX as u64 {
        return None;
    }
    proof {
        assert(v@.skip(i as int).skip(1) =~= v@.skip(i + 1int));
    }
    parse_num_rec_at(v, i + 1, big as u32)
}

/// A decimal number from position `i`.
fn parse_num_at(v: &Vec<char>, i: usize) -> (r: Option<(u32, usize)>)
    requires
        i <= v@.len(),
    ensures
        match parse_num(v@.skip(i as int)) {
            Some(tr) => (r matches Some(p) && p.0 as int == tr.0 && i <= p.1 <= v@.len()
                && v@.skip(p.1 as int) == tr.1),
            None => r is None,
        },
{
    let n = v.len();
    if i >= n {
        return None;
    }
    proof {
        assert(v@.skip(i as int)[0] == v@[i as int]);
    }
    if !is_digit_exec(v[i]) {
        return None;
    }
    parse_num_rec_at(v, i, 0)
}

/// `true` or `false` from position `i`.
fn parse_bool_at(v: &Vec<char>, i: usize) -> (r: Option<(bool, usize)>)
    requires
        i <= v@.len(),
    ensures
        match parse_bool(v@.skip(i as int)) {
            Some(tr) => (r matches Some(p) && p.0 == tr.0 && i <= p.1 <= v@.len() && v@.skip(
                p.1 as int,
            ) == tr.1),
            None => r is None,
        },
{
    let n = v.len();
    if i >= n {
        return None;
    }
    proof {
        assert(v@.skip(i as int)[0] == v@[i as int]);
    }
    let c = v[i];
    if c == 't' {
        let t = ['t', 'r', 'u', 'e'];
        proof {
            assert(t@ =~= render_bool(true));
        }
        match expect_at(v, i, &t) {
            None => None,
            Some(j) => Some((true, j)),
        }
    } else if c == 'f' {
        let f = ['f', 'a', 'l', 's', 'e'];
        proof {
            assert(f@ =~= render_bool(false));
        }
        match expect_at(v, i, &f) {
            None => None,
            Some(j) => Some((false, j)),
        }
    } else {
        None
    }
}

/// `null` or a quoted string from position `i`.
fn parse_opt_string_at(v: &Vec<char>, i: usize) -> (r: Option<(Option<String>, usize)>)
    requires
        i <= v@.len(),
    ensures
        match parse_opt_string(v@.skip(i as int)) {
            Some(tr) => (r matches Some(p) && i <= p.1 <= v@.len() && v@.skip(p.1 as int) == tr.1
                && match p.0 {
                Some(x) => tr.0 == Some(x@),
                None => tr.0 is None,
            }),
            None => r is None,
        },
{
    let n = v.len();
    if i < n {
        proof {
            assert(v@.skip(i as int)[0] == v@[i as int]);
        }
        if v[i] == 'n' {
            let nl = ['n', 'u', 'l', 'l'];
            proof {
                assert(nl@ =~= seq!['n', 'u', 'l', 'l']);
            }
            return match expect_at(v, i, &nl) {
                None => None,
                Some(j) => Some((None, j)),
            };
        }
    }
    match parse_string_at(v, i) {
        None => None,
        Some((x, j)) => Some((Some(x), j)),
    }
}

/// A set object from position `i`.
fn parse_set_at(v: &Vec<char>, i: usize) -> (r: Option<(WorkoutSet, usize)>)
    requires
        i <= v@.len(),
    ensures
        match parse_set(v@.skip(i as int)) {
            Some(tr) => (r matches Some(p) && p.0@ == tr.0 && i <= p.1 <= v@.len() && v@.skip(
                p.1 as int,
            ) == tr.1),
            None => r is None,
        },
{
    let j1 = match expect_at(v, i, &arr_exercise_key()) {
        None => {
            return None;
        },
        Some(j) => j,
    };
    let (exercise, j2) = match parse_string_at(v, j1) {
        None => {
            return None;
        },
        Some(p) => p,
    };
    let j3 = match expect_at(v, j2, &arr_reps_key()) {
        None => {
            return None;
        },
        Some(j) => j,
    };
    let (reps, j4) = match parse_num_at(v, j3) {
        None => {
            return None;
        },
        Some(p) => p,
    };
    let j5 = match expect_at(v, j4, &arr_weight_key()) {
        None => {
            return None;
        },
        Some(j) => j,
    };
    let (weight, j6) = match parse_num_at(v, j5) {
        None => {
            return None;
        },
        Some(p) => p,
    };
    let j7 = match expect_at(v, j6, &arr_dropset_key()) {
        None => {
            return None;
        },
        Some(j) => j,
    };
    let (is_dropset, j8) = match parse_bool_at(v, j7) {
        None => {
            return None;
        },
        Some(p) => p,
    };
    let j9 = match expect_at(v, j8, &arr_close()) {
        None => {
            return None;
        },
        Some(j) => j,
    };
    Some((WorkoutSet { exercise, reps, weight, is_dropset }, j9))
}

/// Set array items from position `i`, through the closing bracket.
fn parse_sets_items_at(v: &Vec<char>, i: usize) -> (r: Option<(Vec<WorkoutSet>, usize)>)
    requires
        i <= v@.len(),
    ensures
        match parse_items(v@.skip(i as int), |t: Seq<char>| parse_set(t)) {
            Some(tr) => (r matches Some(p) && views_of(p.0@) == tr.0 && i <= p.1 <= v@.len()
                && v@.skip(p.1 as int) == tr.1),
            None => r is None,
        },
    decreases v@.len() - i,
{
    let n = v.len();
    match parse_set_at(v, i) {
        None => None,
        Some((x, j)) => {
            if j <= i {
                None
            } else if j < n && v[j] == ',' {
                proof {
                    assert(v@.skip(j as int)[0] == v@[j as int]);
                    assert(v@.skip(j as int).skip(1) =~= v@.skip(j + 1int));
                }
                match parse_sets_items_at(v, j + 1) {
                    None => None,
                    Some((xs, j2)) => {
                        let ghost xv = x@;
                        let ghost xsv = views_of(xs@);
                        let mut xs = xs;
                        xs.insert(0, x);
                        proof {
                            assert(views_of(xs@) =~= seq![xv] + xsv);
                        }
                        Some((xs, j2))
                    },
                }
            } else if j < n && v[j] == ']' {
                proof {
                    assert(v@.skip(j as int)[0] == v@[j as int]);
                    assert(v@.skip(j as int).skip(1) =~= v@.skip(j + 1int));
                }
                let ghost xv = x@;
                let mut xs: Vec<WorkoutSet> = Vec::new();
                xs.push(x);
                proof {
                    assert(views_of(xs@) =~= seq![xv]);
                }
                Some((xs, j + 1))
            } else {
                None
            }
        },
    }
}

/// A set array from position `i`.
fn parse_sets_list_at(v: &Vec<char>, i: usize) -> (r: Option<(Vec<WorkoutSet>, usize)>)
    requires
        i <= v@.len(),
    ensures
        match parse_list(v@.skip(i as int), |t: Seq<char>| parse_set(t)) {
            Some(tr) => (r matches Some(p) && views_of(p.0@) == tr.0 && i <= p.1 <= v@.len()
                && v@.skip(p.1 as int) == tr.1),
            None => r is None,
        },
{
    let n = v.len();
    if i >= n {
        return None;
    }
    proof {
        assert(v@.skip(i as int)[0] == v@[i as int]);
    }
    if v[i] != '[' {
        return None;
    }
    if i + 1 < n && v[i + 1] == ']' {
        proof {
            assert(v@.skip(i as int)[1] == v@[i + 1int]);
            assert(v@.skip(i as int).skip(2) =~= v@.skip(i + 2int));
            assert(views_of(Seq::<WorkoutSet>::empty()) =~= Seq::<WorkoutSetView>::empty());
        }
        let xs: Vec<WorkoutSet> = Vec::new();
        proof {
            assert(views_of(xs@) =~= Seq::<WorkoutSetView>::empty());
        }
        return Some((xs, i + 2));
    }
    proof {
        if v@.skip(i as int).len() >= 2 {
            assert(v@.skip(i as int)[1] == v@[i + 1int]);
        }
        assert(v@.skip(i as int).skip(1) =~= v@.skip(i + 1int));
    }
    parse_sets_items_at(v, i + 1)
}

/// A session object from position `i`.
fn parse_session_at(v: &Vec<char>, i: usize) -> (r: Option<(WorkoutSession, usize)>)
    requires
        i <= v@.len(),
    ensures
        match parse_session(v@.skip(i as int)) {
            Some(tr) => (r matches Some(p) && p.0@ == tr.0 && i <= p.1 <= v@.len() && v@.skip(
                p.1 as int,
            ) == tr.1),
            None => r is None,
        },
{
    let j1 = match expect_at(v, i, &arr_sets_key()) {
        None => {
            return None;
        },
        Some(j) => j,
    };
    let (sets, j2) = match parse_sets_list_at(v, j1) {
        None => {
            return None;
        },
        Some(p) => p,
    };
    let j3 = match expect_at(v, j2, &arr_name_after_key()) {
        None => {
            return None;
        },
        Some(j) => j,
    };
    let (name, j4) = match parse_string_at(v, j3) {
        None => {
            return None;
        },
        Some(p) => p,
    };
    let j5 = match expect_at(v, j4, &arr_close()) {
        None => {
            return None;
        },
        Some(j) => j,
    };
    Some((WorkoutSession { sets, name }, j5))
}

/// Session array items from position `i`, through the closing bracket.
fn parse_sessions_items_at(v: &Vec<char>, i: usize) -> (r: Option<(Vec<WorkoutSession>, usize)>)
    requires
        i <= v@.len(),
    ensures
        match parse_items(v@.skip(i as int), |t: Seq<char>| parse_session(t)) {
            Some(tr) => (r matches Some(p) && views_of(p.0@) == tr.0 && i <= p.1 <= v@.len()
                && v@.skip(p.1 as int) == tr.1),
            None => r is None,
        },
    decreases v@.len() - i,
{
    let n = v.len();
    match parse_session_at(v, i) {
        None => None,
        Some((x, j)) => {
            if j <= i {
                None
            } else if j < n && v[j] == ',' {
                proof {
                    assert(v@.skip(j as int)[0] == v@[j as int]);
                    assert(v@.skip(j as int).skip(1) =~= v@.skip(j + 1int));
                }
                match parse_sessions_items_at(v, j + 1) {
                    None => None,
                    Some((xs, j2)) => {
                        let ghost xv = x@;
                        let ghost xsv = views_of(xs@);
                        let mut xs = xs;
                        xs.insert(0, x);
                        proof {
                            assert(views_of(xs@) =~= seq![xv] + xsv);
                        }
                        Some((xs, j2))
                    },
                }
            } else if j < n && v[j] == ']' {
                proof {
                    assert(v@.skip(j as int)[0] == v@[j as int]);
                    assert(v@.skip(j as int).skip(1) =~= v@.skip(j + 1int));
                }
                let ghost xv = x@;
                let mut xs: Vec<WorkoutSession> = Vec::new();
                xs.push(x);
                proof {
                    assert(views_of(xs@) =~= seq![xv]);
                }
                Some((xs, j + 1))
            } else {
                None
            }
        },
    }
}

/// A session array from position `i`.
fn parse_sessions_list_at(v: &Vec<char>, i: usize) -> (r: Option<(Vec<WorkoutSession>, usize)>)
    requires
        i <= v@.len(),
    ensures
        match parse_list(v@.skip(i as int), |t: Seq<char>| parse_session(t)) {
            Some(tr) => (r matches Some(p) && views_of(p.0@) == tr.0 && i <= p.1 <= v@.len()
                && v@.skip(p.1 as int) == tr.1),
            None => r is None,
        },
{
    let n = v.len();
    if i >= n {
        return None;
    }
    proof {
        assert(v@.skip(i as int)[0] == v@[i as int]);
    }
    if v[i] != '[' {
        return None;
    }
    if i + 1 < n && v[i + 1] == ']' {
        proof {
            assert(v@.skip(i as int)[1] == v@[i + 1int]);
            assert(v@.skip(i as int).skip(2) =~= v@.skip(i + 2int));
        }
        let xs: Vec<WorkoutSession> = Vec::new();
        proof {
            assert(views_of(xs@) =~= Seq::<WorkoutSessionView>::empty());
        }
        return Some((xs, i + 2));
    }
    proof {
        if v@.skip(i as int).len() >= 2 {
            assert(v@.skip(i as int)[1] == v@[i + 1int]);
        }
        assert(v@.skip(i as int).skip(1) =~= v@.skip(i + 1int));
    }
    parse_sessions_items_at(v, i + 1)
}

/// String array items from position `i`, through the closing bracket.
fn parse_strings_items_at(v: &Vec<char>, i: usize) -> (r: Option<(Vec<String>, usize)>)
    requires
        i <= v@.len(),
    ensures
        match parse_items(v@.skip(i as int), |t: Seq<char>| parse_string(t)) {
            Some(tr) => (r matches Some(p) && views_of(p.0@) == tr.0 && i <= p.1 <= v@.len()
                && v@.skip(p.1 as int) == tr.1),
            None => r is None,
        },
    decreases v@.len() - i,
{
    let n = v.len();
    match parse_string_at(v, i) {
        None => None,
        Some((x, j)) => {
            if j <= i {
                None
            } else if j < n && v[j] == ',' {
                proof {
                    assert(v@.skip(j as int)[0] == v@[j as int]);
                    assert(v@.skip(j as int).skip(1) =~= v@.skip(j + 1int));
                }
                match parse_strings_items_at(v, j + 1) {
                    None => None,
                    Some((xs, j2)) => {
                        let ghost xv = x@;
                        let ghost xsv = views_of(xs@);
                        let mut xs = xs;
                        xs.insert(0, x);
                        proof {
                            assert(views_of(xs@) =~= seq![xv] + xsv);
                        }
                        Some((xs, j2))
                    },
                }
            } else if j < n && v[j] == ']' {
                proof {
                    assert(v@.skip(j as int)[0] == v@[j as int]);
                    assert(v@.skip(j as int).skip(1) =~= v@.skip(j + 1int));
                }
                let ghost xv = x@;
                let mut xs: Vec<String> = Vec::new();
                xs.push(x);
                proof {
                    assert(views_of(xs@) =~= seq![xv]);
                }
                Some((xs, j + 1))
            } else {
                None
            }
        },
    }
}

/// A string array from position `i`.
fn parse_strings_list_at(v: &Vec<char>, i: usize) -> (r: Option<(Vec<String>, usize)>)
    requires
        i <= v@.len(),
    ensures
        match parse_list(v@.skip(i as int), |t: Seq<char>| parse_string(t)) {
            Some(tr) => (r matches Some(p) && views_of(p.0@) == tr.0 && i <= p.1 <= v@.len()
                && v@.skip(p.1 as int) == tr.1),
            None => r is None,
        },
{
    let n = v.len();
    if i >= n {
        return None;
    }
    proof {
        assert(v@.skip(i as int)[0] == v@[i as int]);
    }
    if v[i] != '[' {
        return None;
    }
    if i + 1 < n && v[i + 1] == ']' {
        proof {
            assert(v@.skip(i as int)[1] == v@[i + 1int]);
            assert(v@.skip(i as int).skip(2) =~= v@.skip(i + 2int));
        }
        let xs: Vec<String> = Vec::new();
        proof {
            assert(views_of(xs@) =~= Seq::<Seq<char>>::empty());
        }
        return Some((xs, i + 2));
    }
    proof {
        if v@.skip(i as int).len() >= 2 {
            assert(v@.skip(i as int)[1] == v@[i + 1int]);
        }
        assert(v@.skip(i as int).skip(1) =~= v@.skip(i + 1int));
    }
    parse_strings_items_at(v, i + 1)
}

/// An exercise object from position `i`.
fn parse_exercise_at(v: &Vec<char>, i: usize) -> (r: Option<(Exercise, usize)>)
    requires
        i <= v@.len(),
    ensures
        match parse_exercise(v@.skip(i as int)) {
            Some(tr) => (r matches Some(p) && p.0@ == tr.0 && i <= p.1 <= v@.len() && v@.skip(
                p.1 as int,
            ) == tr.1),
            None => r is None,
        },
{
    let j1 = match expect_at(v, i, &arr_name_key()) {
        None => {
            return None;
        },
        Some(j) => j,
    };
    let (name, j2) = match parse_string_at(v, j1) {
        None => {
            return None;
        },
        Some(p) => p,
    };
    let j3 = match expect_at(v, j2, &arr_description_key()) {
        None => {
            return None;
        },
        Some(j) => j,
    };
    let (description, j4) = match parse_string_at(v, j3) {
        None => {
            return None;
        },
        Some(p) => p,
    };
    let j5 = match expect_at(v, j4, &arr_muscle_key()) {
        None => {
            return None;
        },
        Some(j) => j,
    };
    let (muscle_groups, j6) = match parse_strings_list_at(v, j5) {
        None => {
            return None;
        },
        Some(p) => p,
    };
    let j7 = match expect_at(v, j6, &arr_equipment_key()) {
        None => {
            return None;
        },
        Some(j) => j,
    };
    let (equipment, j8) = match parse_string_at(v, j7) {
        None => {
            return None;
        },
        Some(p) => p,
    };
    let j9 = match expect_at(v, j8, &arr_close()) {
        None => {
            return None;
        },
        Some(j) => j,
    };
    Some((Exercise { name, description, muscle_groups, equipment }, j9))
}

/// Exercise array items from position `i`, through the closing bracket.
fn parse_exercises_items_at(v: &Vec<char>, i: usize) -> (r: Option<(Vec<Exercise>, usize)>)
    requires
        i <= v@.len(),
    ensures
        match parse_items(v@.skip(i as int), |t: Seq<char>| parse_exercise(t)) {
            Some(tr) => (r matches Some(p) && views_of(p.0@) == tr.0 && i <= p.1 <= v@.len()
                && v@.skip(p.1 as int) == tr.1),
            None => r is None,
        },
    decreases v@.len() - i,
{
    let n = v.len();
    match parse_exercise_at(v, i) {
        None => None,
        Some((x, j)) => {
            if j <= i {
                None
            } else if j < n && v[j] == ',' {
                proof {
                    assert(v@.skip(j as int)[0] == v@[j as int]);
                    assert(v@.skip(j as int).skip(1) =~= v@.skip(j + 1int));
                }
                match parse_exercises_items_at(v, j + 1) {
                    None => None,
                    Some((xs, j2)) => {
                        let ghost xv = x@;
                        let ghost xsv = views_of(xs@);
                        let mut xs = xs;
                        xs.insert(0, x);
                        proof {
                            assert(views_of(xs@) =~= seq![xv] + xsv);
                        }
                        Some((xs, j2))
                    },
                }
            } else if j < n && v[j] == ']' {
                proof {
                    assert(v@.skip(j as int)[0] == v@[j as int]);
                    assert(v@.skip(j as int).skip(1) =~= v@.skip(j + 1int));
                }
                let ghost xv = x@;
                let mut xs: Vec<Exercise> = Vec::new();
                xs.push(x);
                proof {
                    assert(views_of(xs@) =~= seq![xv]);
                }
                Some((xs, j + 1))
            } else {
                None
            }
        },
    }
}

/// An exercise array from position `i`.
fn parse_exercises_list_at(v: &Vec<char>, i: usize) -> (r: Option<(Vec<Exercise>, usize)>)
    requires
        i <= v@.len(),
    ensures
        match parse_list(v@.skip(i as int), |t: Seq<char>| parse_exercise(t)) {
            Some(tr) => (r matches Some(p) && views_of(p.0@) == tr.0 && i <= p.1 <= v@.len()
                && v@.skip(p.1 as int) == tr.1),
            None => r is None,
        },
{
    let n = v.len();
    if i >= n {
        return None;
    }
    proof {
        assert(v@.skip(i as int)[0] == v@[i as int]);
    }
    if v[i] != '[' {
        return None;
    }
    if i + 1 < n && v[i + 1] == ']' {
        proof {
            assert(v@.skip(i as int)[1] == v@[i + 1int]);
            assert(v@.skip(i as int).skip(2) =~= v@.skip(i + 2int));
        }
        let xs: Vec<Exercise> = Vec::new();
        proof {
            assert(views_of(xs@) =~= Seq::<crate::exercise::ExerciseView>::empty());
        }
        return Some((xs, i + 2));
    }
    proof {
        if v@.skip(i as int).len() >= 2 {
            assert(v@.skip(i as int)[1] == v@[i + 1int]);
        }
        assert(v@.skip(i as int).skip(1) =~= v@.skip(i + 1int));
    }
    parse_exercises_items_at(v, i + 1)
}

/// A profile object from position `i`.
#[verifier::rlimit(50)]
fn parse_profile_at(v: &Vec<char>, i: usize) -> (r: Option<(UserProfile, usize)>)
    requires
        i <= v@.len(),
    ensures
        match parse_profile(v@.skip(i as int)) {
            Some(tr) => (r matches Some(p) && p.0@ == tr.0 && i <= p.1 <= v@.len() && v@.skip(
                p.1 as int,
            ) == tr.1),
            None => r is None,
        },
{
    let j1 = match expect_at(v, i, &arr_name_key()) {
        None => {
            return None;
        },
        Some(j) => j,
    };
    let (name, j2) = match parse_string_at(v, j1) {
        None => {
            return None;
        },
        Some(p) => p,
    };
    let j3 = match expect_at(v, j2, &arr_chosen_key()) {
        None => {
            return None;
        },
        Some(j) => j,
    };
    let (chosen_workout_session, j4) = match parse_opt_string_at(v, j3) {
        None => {
            return None;
        },
        Some(p) => p,
    };
    let j5 = match expect_at(v, j4, &arr_workouts_key()) {
        None => {
            return None;
        },
        Some(j) => j,
    };
    let (workouts, j6) = match parse_sessions_list_at(v, j5) {
        None => {
            return None;
        },
        Some(p) => p,
    };
    let j7 = match expect_at(v, j6, &arr_created_key()) {
        None => {
            return None;
        },
        Some(j) => j,
    };
    let (created_exercises, j8) = match parse_exercises_list_at(v, j7) {
        None => {
            return None;
        },
        Some(p) => p,
    };
    let j9 = match expect_at(v, j8, &arr_close()) {
        None => {
            return None;
        },
        Some(j) => j,
    };
    Some((UserProfile { name, chosen_workout_session, workouts, created_exercises }, j9))
}

/// Profile array items from position `i`, through the closing bracket.
#[verifier::rlimit(100)]
fn parse_profiles_items_at(v: &Vec<char>, i: usize) -> (r: Option<(Vec<UserProfile>, usize)>)
    requires
        i <= v@.len(),
    ensures
        match parse_items(v@.skip(i as int), |t: Seq<char>| parse_profile(t)) {
            Some(tr) => (r matches Some(p) && views_of(p.0@) == tr.0 && i <= p.1 <= v@.len()
                && v@.skip(p.1 as int) == tr.1),
            None => r is None,
        },
    decreases v@.len() - i,
{
    let n = v.len();
    match parse_profile_at(v, i) {
        None => None,
        Some((x, j)) => {
            if j <= i {
                None
            } else if j < n && v[j] == ',' {
                proof {
                    assert(v@.skip(j as int)[0] == v@[j as int]);
                    assert(v@.skip(j as int).skip(1) =~= v@.skip(j + 1int));
                }
                match parse_profiles_items_at(v, j + 1) {
                    None => None,
                    Some((xs, j2)) => {
                        let ghost xv = x@;
                        let ghost xsv = views_of(xs@);
                        let mut xs = xs;
                        xs.insert(0, x);
                        proof {
                            assert(views_of(xs@) =~= seq![xv] + xsv);
                        }
                        Some((xs, j2))
                    },
                }
            } else if j < n && v[j] == ']' {
                proof {
                    assert(v@.skip(j as int)[0] == v@[j as int]);
                    assert(v@.skip(j as int).skip(1) =~= v@.skip(j + 1int));
                }
                let ghost xv = x@;
                let mut xs: Vec<UserProfile> = Vec::new();
                xs.push(x);
                proof {
                    assert(views_of(xs@) =~= seq![xv]);
                }
                Some((xs, j + 1))
            } else {
                None
            }
        },
    }
}

/// A profile array from position `i`.
fn parse_profiles_list_at(v: &Vec<char>, i: usize) -> (r: Option<(Vec<UserProfile>, usize)>)
    requires
        i <= v@.len(),
    ensures
        match parse_list(v@.skip(i as int), |t: Seq<char>| parse_profile(t)) {
            Some(tr) => (r matches Some(p) && views_of(p.0@) == tr.0 && i <= p.1 <= v@.len()
                && v@.skip(p.1 as int) == tr.1),
            None => r is None,
        },
{
    let n = v.len();
    if i >= n {
        return None;
    }
    proof {
        assert(v@.skip(i as int)[0] == v@[i as int]);
    }
    if v[i] != '[' {
        return None;
    }
    if i + 1 < n && v[i + 1] == ']' {
        proof {
            assert(v@.skip(i as int)[1] == v@[i + 1int]);
            assert(v@.skip(i as int).skip(2) =~= v@.skip(i + 2int));
        }
        let xs: Vec<UserProfile> = Vec::new();
        proof {
            assert(views_of(xs@) =~= Seq::<UserProfileView>::empty());
        }
        return Some((xs, i + 2));
    }
    proof {
        if v@.skip(i as int).len() >= 2 {
            assert(v@.skip(i as int)[1] == v@[i + 1int]);
        }
        assert(v@.skip(i as int).skip(1) =~= v@.skip(i + 1int));
    }
    parse_profiles_items_at(v, i + 1)
}

/// A registry object from position `i`.
fn parse_users_at(v: &Vec<char>, i: usize) -> (r: Option<(Users, usize)>)
    requires
        i <= v@.len(),
    ensures
        match parse_users(v@.skip(i as int)) {
            Some(tr) => (r matches Some(p) && p.0@ == tr.0 && i <= p.1 <= v@.len() && v@.skip(
                p.1 as int,
            ) == tr.1),
            None => r is None,
        },
{
    let j1 = match expect_at(v, i, &arr_users_key()) {
        None => {
            return None;
        },
        Some(j) => j,
    };
    let (users, j2) = match parse_profiles_list_at(v, j1) {
        None => {
            return None;
        },
        Some(p) => p,
    };
    let j3 = match expect_at(v, j2, &arr_close()) {
        None => {
            return None;
        },
        Some(j) => j,
    };
    Some((Users { users }, j3))
}

/// A document from position `i`: a tagged registry or profile snapshot.
#[verifier::rlimit(50)]
fn parse_contents_at(v: &Vec<char>, i: usize) -> (r: Option<(FileContents, usize)>)
    requires
        i <= v@.len(),
    ensures
        match parse_contents(v@.skip(i as int)) {
            Some(tr) => (r matches Some(p) && p.0@ == tr.0 && i <= p.1 <= v@.len() && v@.skip(
                p.1 as int,
            ) == tr.1),
            None => r is None,
        },
{
    match expect_at(v, i, &arr_users_tag()) {
        Some(j1) => {
            let (u, j2) = match parse_users_at(v, j1) {
                None => {
                    return None;
                },
                Some(p) => p,
            };
            let j3 = match expect_at(v, j2, &arr_close()) {
                None => {
                    return None;
                },
                Some(j) => j,
            };
            proof {
                assert((&['}'])@ =~= crate::json::lit_close());
            }
            Some((FileContents::Users(u), j3))
        },
        None => {
            let j1 = match expect_at(v, i, &arr_profile_tag()) {
                None => {
                    return None;
                },
                Some(j) => j,
            };
            let (p, j2) = match parse_profile_at(v, j1) {
                None => {
                    return None;
                },
                Some(q) => q,
            };
            let j3 = match expect_at(v, j2, &arr_close()) {
                None => {
                    return None;
                },
                Some(j) => j,
            };
            proof {
                assert((&['}'])@ =~= crate::json::lit_close());
            }
            Some((FileContents::UserProfile(p), j3))
        },
    }
}

/// The document a text holds, if the whole text is one: the inverse of
/// `encode_contents` on everything it produces, and nothing on any other
/// text.
pub fn decode_contents(s: &str) -> (r: Option<FileContents>)
    ensures
        match parse_document(s@) {
            Some(cv) => (r matches Some(c) && c@ == cv),
            None => r is None,
        },
{
    let v = chars_of_str(s);
    proof {
        reveal(crate::json::parse_document);
        assert(v@.skip(0int) =~= v@);
    }
    match parse_contents_at(&v, 0) {
        None => None,
        Some((c, j)) => {
            if j == v.len() {
                Some(c)
            } else {
                None
            }
        },
    }
}

/// The full document text of a registry or snapshot: exactly the
/// grammar's rendering of its value.
pub fn encode_contents(c: &FileContents) -> (s: String)
    ensures
        s@ == render_contents(c@),
{
    let mut out: Vec<char> = Vec::new();
    match c {
        FileContents::Users(u) => {
            push_chars(&mut out, &arr_users_tag());
            render_users_into(u, &mut out);
            out.push('}');
        },
        FileContents::UserProfile(p) => {
            push_chars(&mut out, &arr_profile_tag());
            render_profile_into(p, &mut out);
            out.push('}');
        },
    }
    proof {
        reveal(crate::json::render_contents);
        assert(out@ =~= render_contents(c@));
    }
    string_of_chars(&out)
}

} // verus!
