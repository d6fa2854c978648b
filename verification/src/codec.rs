//! The persistence codec: a stable, human-readable structured form for the
//! task collection, written and read as text.
//!
//! The encoded form is one object holding a `tasks` array; each task carries
//! `title`, `body`, `completed` (the historical key for the pending flag),
//! `creation_date` and `completion_date` (a string, or `null` while the task
//! is pending). The encoder emits the fields in that fixed order with no
//! surrounding whitespace; string contents are escaped as in JSON. The
//! decoder accepts that form, and for forward compatibility with older saved
//! files also accepts a task in which `completed` or `creation_date` (or
//! both, or the trailing `completion_date`) are absent, substituting the same
//! defaults used at construction.
//!
//! The whole grammar is defined here as specification functions; the
//! executable encoder and decoder are proved against them, and
//! [`crate::laws`] proves that decoding inverts encoding.

use vstd::prelude::*;
use crate::task::Task;
use crate::task::TaskView;

verus! {

// ---------------------------------------------------------------------------
// Literal fragments of the encoded form.
// ---------------------------------------------------------------------------

pub open spec fn lit_open() -> Seq<char> {
    "{\"tasks\":["@
}

pub open spec fn lit_title() -> Seq<char> {
    "{\"title\":"@
}

pub open spec fn lit_body() -> Seq<char> {
    ",\"body\":"@
}

pub open spec fn lit_completed() -> Seq<char> {
    ",\"completed\":"@
}

pub open spec fn lit_creation() -> Seq<char> {
    ",\"creation_date\":"@
}

pub open spec fn lit_completion() -> Seq<char> {
    ",\"completion_date\":"@
}

pub open spec fn lit_true() -> Seq<char> {
    "true"@
}

pub open spec fn lit_false() -> Seq<char> {
    "false"@
}

pub open spec fn lit_null() -> Seq<char> {
    "null"@
}

// ---------------------------------------------------------------------------
// The encoder, as a specification.
// ---------------------------------------------------------------------------

/// The hexadecimal digit for a value below sixteen, in lower case.
pub open spec fn hex_char(n: int) -> char {
    if n < 10 {
        ((n + 48) as u32) as char
    } else {
        ((n + 87) as u32) as char
    }
}

/// The escaped form of one character inside an encoded string: the named
/// escapes for quote, backslash and the common control characters, a
/// four-digit hexadecimal escape for the remaining control characters, and
/// the character itself otherwise.
pub open spec fn escape_char(c: char) -> Seq<char> {
    if c == '"' {
        seq!['\\', '"']
    } else if c == '\\' {
        seq!['\\', '\\']
    } else if c == '\n' {
        seq!['\\', 'n']
    } else if c == '\r' {
        seq!['\\', 'r']
    } else if c == '\t' {
        seq!['\\', 't']
    } else if (c as u32) < 32 {
        seq!['\\', 'u', '0', '0', hex_char(c as u32 as int / 16), hex_char(c as u32 as int % 16)]
    } else {
        seq![c]
    }
}

pub open spec fn escape_str(s: Seq<char>) -> Seq<char>
    decreases s.len(),
{
    if s.len() == 0 {
        Seq::empty()
    } else {
        escape_char(s[0]) + escape_str(s.skip(1))
    }
}

/// A string value in the encoded form: quoted and escaped.
pub open spec fn quote_str(s: Seq<char>) -> Seq<char> {
    seq!['"'] + escape_str(s) + seq!['"']
}

pub open spec fn encode_bool(b: bool) -> Seq<char> {
    if b {
        lit_true()
    } else {
        lit_false()
    }
}

pub open spec fn encode_completion(d: Option<Seq<char>>) -> Seq<char> {
    match d {
        Some(s) => quote_str(s),
        None => lit_null(),
    }
}

/// One task in the encoded form, every field present.
pub open spec fn encode_task(t: TaskView) -> Seq<char> {
    lit_title() + quote_str(t.title) + lit_body() + quote_str(t.body) + lit_completed()
        + encode_bool(t.pending) + lit_creation() + quote_str(t.creation_date) + lit_completion()
        + encode_completion(t.completion_date) + seq!['}']
}

/// The tasks standing after the first element of the array, each preceded
/// by a comma.
pub open spec fn encode_tasks_rest(ts: Seq<TaskView>) -> Seq<char>
    decreases ts.len(),
{
    if ts.len() == 0 {
        Seq::empty()
    } else {
        seq![','] + encode_task(ts[0]) + encode_tasks_rest(ts.skip(1))
    }
}

/// The comma-separated task list.
pub open spec fn encode_tasks(ts: Seq<TaskView>) -> Seq<char> {
    if ts.len() == 0 {
        Seq::empty()
    } else {
        encode_task(ts[0]) + encode_tasks_rest(ts.skip(1))
    }
}

/// The full encoded form of a task collection.
pub open spec fn spec_encode(ts: Seq<TaskView>) -> Seq<char> {
    lit_open() + encode_tasks(ts) + seq![']', '}']
}

// ---------------------------------------------------------------------------
// The decoder, as a specification. Each parsing function takes the text
// still to be read and yields the parsed value and the text after it, or
// nothing where the text does not match the grammar.
// ---------------------------------------------------------------------------

pub open spec fn starts_with(s: Seq<char>, p: Seq<char>) -> bool {
    p.len() <= s.len() && s.take(p.len() as int) == p
}

pub open spec fn is_hex(c: char) -> bool {
    (48 <= c as u32 && c as u32 <= 57) || (97 <= c as u32 && c as u32 <= 102)
}

/// The value of a hexadecimal digit accepted by [`is_hex`].
pub open spec fn hex_val(c: char) -> int {
    if c as u32 <= 57 {
        c as u32 - 48
    } else {
        c as u32 - 87
    }
}

/// A unicode scalar value: what one character can hold.
pub open spec fn is_scalar_value(v: int) -> bool {
    (0 <= v < 0xD800) || (0xE000 <= v <= 0x10FFFF)
}

/// Reads one escape sequence standing at the head of `s`; yields the
/// character it denotes and how many characters it occupies.
pub open spec fn parse_escape(s: Seq<char>) -> Option<(char, int)> {
    if s.len() >= 2 && s[0] == '\\' {
        if s[1] == '"' {
            Some(('"', 2))
        } else if s[1] == '\\' {
            Some(('\\', 2))
        } else if s[1] == 'n' {
            Some(('\n', 2))
        } else if s[1] == 'r' {
            Some(('\r', 2))
        } else if s[1] == 't' {
            Some(('\t', 2))
        } else if s[1] == 'u' {
            if s.len() >= 6 && is_hex(s[2]) && is_hex(s[3]) && is_hex(s[4]) && is_hex(s[5]) {
                let v = hex_val(s[2]) * 4096 + hex_val(s[3]) * 256 + hex_val(s[4]) * 16 + hex_val(
                    s[5],
                );
                if is_scalar_value(v) {
                    Some(((v as u32) as char, 6))
                } else {
                    None
                }
            } else {
                None
            }
        } else {
            None
        }
    } else {
        None
    }
}

/// Reads the contents of a string up to and including its closing quote.
/// An unescaped control character, a bad escape, or an unterminated string
/// does not parse.
pub open spec fn parse_str_chars(s: Seq<char>) -> Option<(Seq<char>, Seq<char>)>
    decreases s.len(),
{
    if s.len() == 0 {
        None
    } else if s[0] == '"' {
        Some((Seq::empty(), s.skip(1)))
    } else if s[0] == '\\' {
        match parse_escape(s) {
            Some((c, n)) => if 2 <= n && n <= s.len() {
                match parse_str_chars(s.skip(n)) {
                    Some((content, rest)) => Some((seq![c] + content, rest)),
                    None => None,
                }
            } else {
                None
            },
            None => None,
        }
    } else if (s[0] as u32) < 32 {
        None
    } else {
        match parse_str_chars(s.skip(1)) {
            Some((content, rest)) => Some((seq![s[0]] + content, rest)),
            None => None,
        }
    }
}

/// Reads a quoted string value.
pub open spec fn parse_string(s: Seq<char>) -> Option<(Seq<char>, Seq<char>)> {
    if s.len() > 0 && s[0] == '"' {
        parse_str_chars(s.skip(1))
    } else {
        None
    }
}

pub open spec fn parse_bool(s: Seq<char>) -> Option<(bool, Seq<char>)> {
    if starts_with(s, lit_true()) {
        Some((true, s.skip(lit_true().len() as int)))
    } else if starts_with(s, lit_false()) {
        Some((false, s.skip(lit_false().len() as int)))
    } else {
        None
    }
}

/// Reads the optional `completed` field; absent means pending, the same
/// default used at construction.
pub open spec fn parse_completed_opt(s: Seq<char>) -> Option<(bool, Seq<char>)> {
    if starts_with(s, lit_completed()) {
        parse_bool(s.skip(lit_completed().len() as int))
    } else {
        Some((true, s))
    }
}

/// Reads the optional `creation_date` field; absent means the given default.
pub open spec fn parse_creation_opt(s: Seq<char>, default_creation: Seq<char>) -> Option<
    (Seq<char>, Seq<char>),
> {
    if starts_with(s, lit_creation()) {
        parse_string(s.skip(lit_creation().len() as int))
    } else {
        Some((default_creation, s))
    }
}

/// Reads the optional `completion_date` field: a string, `null`, or absent
/// (both of the latter meaning not yet finished).
pub open spec fn parse_completion_opt(s: Seq<char>) -> Option<(Option<Seq<char>>, Seq<char>)> {
    if starts_with(s, lit_completion()) {
        let s2 = s.skip(lit_completion().len() as int);
        if starts_with(s2, lit_null()) {
            Some((None, s2.skip(lit_null().len() as int)))
        } else {
            match parse_string(s2) {
                Some((d, rest)) => Some((Some(d), rest)),
                None => None,
            }
        }
    } else {
        Some((None, s))
    }
}

/// Reads one task object. `title` and `body` are required; the other fields
/// are read by the tolerant helpers above.
pub open spec fn parse_task(s: Seq<char>, default_creation: Seq<char>) -> Option<
    (TaskView, Seq<char>),
> {
    if starts_with(s, lit_title()) {
        match parse_string(s.skip(lit_title().len() as int)) {
            Some((title, s1)) => if starts_with(s1, lit_body()) {
                match parse_string(s1.skip(lit_body().len() as int)) {
                    Some((body, s2)) => match parse_completed_opt(s2) {
                        Some((pending, s3)) => match parse_creation_opt(s3, default_creation) {
                            Some((creation, s4)) => match parse_completion_opt(s4) {
                                Some((completion, s5)) => if s5.len() > 0 && s5[0] == '}' {
                                    Some(
                                        (
                                            TaskView {
                                                title,
                                                body,
                                                pending,
                                                creation_date: creation,
                                                completion_date: completion,
                                            },
                                            s5.skip(1),
                                        ),
                                    )
                                } else {
                                    None
                                },
                                None => None,
                            },
                            None => None,
                        },
                        None => None,
                    },
                    None => None,
                }
            } else {
                None
            },
            None => None,
        }
    } else {
        None
    }
}

/// Reads the tasks standing after the first element of the array: either the
/// closing bracket, or a comma and a further task, and so on.
pub open spec fn parse_tasks_more(s: Seq<char>, default_creation: Seq<char>) -> Option<
    (Seq<TaskView>, Seq<char>),
>
    decreases s.len(),
{
    if s.len() > 0 && s[0] == ']' {
        Some((Seq::empty(), s.skip(1)))
    } else if s.len() > 0 && s[0] == ',' {
        match parse_task(s.skip(1), default_creation) {
            Some((t, rest)) => if rest.len() < s.len() {
                match parse_tasks_more(rest, default_creation) {
                    Some((ts, rest2)) => Some((seq![t] + ts, rest2)),
                    None => None,
                }
            } else {
                None
            },
            None => None,
        }
    } else {
        None
    }
}

/// Reads the task array from just after its opening bracket, up to and
/// including the closing bracket.
pub open spec fn parse_tasks(s: Seq<char>, default_creation: Seq<char>) -> Option<
    (Seq<TaskView>, Seq<char>),
> {
    if s.len() > 0 && s[0] == ']' {
        Some((Seq::empty(), s.skip(1)))
    } else {
        match parse_task(s, default_creation) {
            Some((t, rest)) => if rest.len() < s.len() {
                match parse_tasks_more(rest, default_creation) {
                    Some((ts, rest2)) => Some((seq![t] + ts, rest2)),
                    None => None,
                }
            } else {
                None
            },
            None => None,
        }
    }
}

/// The whole decoder: the text must hold exactly one encoded collection and
/// nothing after it.
pub open spec fn spec_decode(s: Seq<char>, default_creation: Seq<char>) -> Option<Seq<TaskView>> {
    if starts_with(s, lit_open()) {
        match parse_tasks(s.skip(lit_open().len() as int), default_creation) {
            Some((ts, rest)) => if rest.len() == 1 && rest[0] == '}' {
                Some(ts)
            } else {
                None
            },
            None => None,
        }
    } else {
        None
    }
}

// ---------------------------------------------------------------------------
// Character and string plumbing.
// ---------------------------------------------------------------------------

/// The characters of a text, one by one.
pub fn str_to_chars(s: &str) -> (r: Vec<char>)
    ensures
        r@ == s@,
{
    let n = s.unicode_len();
    let mut r: Vec<char> = Vec::new();
    let mut i: usize = 0;
    while i < n
        invariant
            i <= n,
            n == s@.len(),
            r@ == s@.take(i as int),
        decreases n - i,
    {
        r.push(s.get_char(i));
        proof {
            assert(r@ =~= s@.take((i + 1) as int));
        }
        i = i + 1;
    }
    proof {
        assert(s@.take(n as int) =~= s@);
    }
    r
}

/// The text holding the given characters, one by one.
pub fn chars_to_string(v: &Vec<char>) -> (r: String)
    ensures
        r@ == v@,
{
    let mut r = String::new();
    let mut i: usize = 0;
    while i < v.len()
        invariant
            i <= v.len(),
            r@ == v@.take(i as int),
        decreases v.len() - i,
    {
        crate::ext::push_char(&mut r, v[i]);
        proof {
            assert(r@ =~= v@.take((i + 1) as int));
        }
        i = i + 1;
    }
    proof {
        assert(v@.take(v.len() as int) =~= v@);
    }
    r
}

// ---------------------------------------------------------------------------
// The executable encoder.
// ---------------------------------------------------------------------------

/// The hexadecimal digit character for a value below sixteen.
pub(crate) fn hex_digit(n: u32) -> (c: char)
    requires
        n < 16,
    ensures
        c == hex_char(n as int),
{
    let v: u32 = if n < 10 {
        n + 48
    } else {
        n + 87
    };
    match char::from_u32(v) {
        Some(c) => c,
        None => {
            proof {
                assert(false);
            }
            ' '
        },
    }
}

pub(crate) fn push_lit(out: &mut Vec<char>, lit: &str)
    ensures
        final(out)@ == old(out)@ + lit@,
{
    let n = lit.unicode_len();
    let mut i: usize = 0;
    while i < n
        invariant
            i <= n,
            n == lit@.len(),
            out@ == old(out)@ + lit@.take(i as int),
        decreases n - i,
    {
        out.push(lit.get_char(i));
        proof {
            assert(out@ =~= old(out)@ + lit@.take((i + 1) as int));
        }
        i = i + 1;
    }
    proof {
        assert(old(out)@ + lit@.take(n as int) =~= old(out)@ + lit@);
    }
}

fn push_escaped_char(out: &mut Vec<char>, c: char)
    ensures
        final(out)@ == old(out)@ + escape_char(c),
{
    if c == '"' {
        out.push('\\');
        out.push('"');
    } else if c == '\\' {
        out.push('\\');
        out.push('\\');
    } else if c == '\n' {
        out.push('\\');
        out.push('n');
    } else if c == '\r' {
        out.push('\\');
        out.push('r');
    } else if c == '\t' {
        out.push('\\');
        out.push('t');
    } else {
        let v = c as u32;
        if v < 32 {
            out.push('\\');
            out.push('u');
            out.push('0');
            out.push('0');
            let hi = hex_digit(v / 16);
            out.push(hi);
            let lo = hex_digit(v % 16);
            out.push(lo);
        } else {
            out.push(c);
        }
    }
    proof {
        assert(out@ =~= old(out)@ + escape_char(c));
    }
}

fn push_escaped_from(out: &mut Vec<char>, s: &str, i: usize)
    requires
        i <= s@.len(),
    ensures
        final(out)@ == old(out)@ + escape_str(s@.skip(i as int)),
    decreases s@.len() - i,
{
    let n = s.unicode_len();
    if i < n {
        push_escaped_char(out, s.get_char(i));
        push_escaped_from(out, s, i + 1);
        proof {
            assert(s@.skip(i as int).skip(1) =~= s@.skip((i + 1) as int));
            assert(s@.skip(i as int)[0] == s@[i as int]);
            assert(out@ =~= old(out)@ + escape_str(s@.skip(i as int)));
        }
    } else {
        proof {
            assert(s@.skip(i as int).len() == 0);
            assert(out@ =~= old(out)@ + escape_str(s@.skip(i as int)));
        }
    }
}

fn push_quoted(out: &mut Vec<char>, s: &str)
    ensures
        final(out)@ == old(out)@ + quote_str(s@),
{
    out.push('"');
    push_escaped_from(out, s, 0);
    out.push('"');
    proof {
        assert(s@.skip(0) =~= s@);
        assert(out@ =~= old(out)@ + quote_str(s@));
    }
}

fn push_task(out: &mut Vec<char>, t: &Task)
    ensures
        final(out)@ == old(out)@ + encode_task(t@),
{
    push_lit(out, "{\"title\":");
    push_quoted(out, t.title.as_str());
    push_lit(out, ",\"body\":");
    push_quoted(out, t.body.as_str());
    push_lit(out, ",\"completed\":");
    if t.pending {
        push_lit(out, "true");
    } else {
        push_lit(out, "false");
    }
    push_lit(out, ",\"creation_date\":");
    push_quoted(out, t.creation_date.as_str());
    push_lit(out, ",\"completion_date\":");
    match &t.completion_date {
        Some(d) => push_quoted(out, d.as_str()),
        None => push_lit(out, "null"),
    }
    out.push('}');
    proof {
        assert(out@ =~= old(out)@ + encode_task(t@));
    }
}

fn push_tasks_rest(out: &mut Vec<char>, tasks: &Vec<Task>, i: usize)
    requires
        1 <= i <= tasks@.len(),
    ensures
        final(out)@ == old(out)@ + encode_tasks_rest(tasks.deep_view().skip(i as int)),
    decreases tasks.len() - i,
{
    let ghost dv = tasks.deep_view();
    proof {
        assert(dv.len() == tasks@.len());
    }
    if i < tasks.len() {
        out.push(',');
        push_task(out, &tasks[i]);
        push_tasks_rest(out, tasks, i + 1);
        proof {
            assert(dv.skip(i as int)[0] == dv[i as int]);
            assert(dv[i as int] == tasks@[i as int]@);
            assert(dv.skip(i as int).skip(1) =~= dv.skip((i + 1) as int));
            assert(out@ =~= old(out)@ + encode_tasks_rest(dv.skip(i as int)));
        }
    } else {
        proof {
            assert(dv.skip(i as int).len() == 0);
            assert(out@ =~= old(out)@ + encode_tasks_rest(dv.skip(i as int)));
        }
    }
}

/// Encodes a task collection into its persisted textual form.
pub fn encode_to_string(tasks: &Vec<Task>) -> (r: String)
    ensures
        r@ == spec_encode(tasks.deep_view()),
{
    let ghost dv = tasks.deep_view();
    let mut out: Vec<char> = Vec::new();
    push_lit(&mut out, "{\"tasks\":[");
    if tasks.len() > 0 {
        push_task(&mut out, &tasks[0]);
        proof {
            assert(dv[0] == tasks@[0]@);
        }
        push_tasks_rest(&mut out, tasks, 1);
    }
    out.push(']');
    out.push('}');
    proof {
        if dv.len() == 0 {
        } else {
            assert(dv.skip(1) =~= dv.skip(1));
        }
        assert(out@ =~= spec_encode(dv));
    }
    chars_to_string(&out)
}

// ---------------------------------------------------------------------------
// The executable decoder. Each function reads from position `i` of the
// character buffer and is proved to agree with the corresponding parsing
// specification on the text from `i` on.
// ---------------------------------------------------------------------------

/// Whether the text from position `i` on starts with the given literal.
fn match_lit(v: &Vec<char>, i: usize, lit: &str) -> (b: bool)
    requires
        i <= v@.len(),
    ensures
        b == starts_with(v@.skip(i as int), lit@),
{
    let ghost s = v@.skip(i as int);
    let n = lit.unicode_len();
    let len = v.len();
    if n > len - i {
        return false;
    }
    let mut j: usize = 0;
    while j < n
        invariant
            j <= n,
            n == lit@.len(),
            len == v@.len(),
            i + n <= len,
            s == v@.skip(i as int),
            forall|k: int| 0 <= k < j ==> s[k] == lit@[k],
        decreases n - j,
    {
        if v[i + j] != lit.get_char(j) {
            proof {
                assert(s[j as int] == v@[(i + j) as int]);
                assert(s.take(n as int)[j as int] != lit@[j as int]);
            }
            return false;
        }
        j = j + 1;
    }
    proof {
        assert(s.take(n as int) =~= lit@);
    }
    true
}

/// The value of a hexadecimal digit, where the character is one.
fn hex_value(c: char) -> (r: Option<u32>)
    ensures
        match r {
            Some(n) => is_hex(c) && n < 16 && n as int == hex_val(c),
            None => !is_hex(c),
        },
{
    let v = c as u32;
    if 48 <= v && v <= 57 {
        Some(v - 48)
    } else if 97 <= v && v <= 102 {
        Some(v - 87)
    } else {
        None
    }
}

/// Reads one escape sequence at position `i`.
fn parse_escape_at(v: &Vec<char>, i: usize) -> (r: Option<(char, usize)>)
    requires
        i <= v@.len(),
    ensures
        match r {
            Some((c, j)) => i <= j <= v@.len() && parse_escape(v@.skip(i as int)) == Some(
                (c, j - i),
            ),
            None => parse_escape(v@.skip(i as int)) is None,
        },
{
    let ghost s = v@.skip(i as int);
    if v.len() - i < 2 || v[i] != '\\' {
        return None;
    }
    proof {
        assert(s[0] == v@[i as int]);
        assert(s[1] == v@[i as int + 1]);
    }
    let e = v[i + 1];
    if e == '"' {
        Some(('"', i + 2))
    } else if e == '\\' {
        Some(('\\', i + 2))
    } else if e == 'n' {
        Some(('\n', i + 2))
    } else if e == 'r' {
        Some(('\r', i + 2))
    } else if e == 't' {
        Some(('\t', i + 2))
    } else if e == 'u' {
        if v.len() - i < 6 {
            return None;
        }
        proof {
            assert(s[2] == v@[i as int + 2]);
            assert(s[3] == v@[i as int + 3]);
            assert(s[4] == v@[i as int + 4]);
            assert(s[5] == v@[i as int + 5]);
        }
        let h2 = hex_value(v[i + 2]);
        let h3 = hex_value(v[i + 3]);
        let h4 = hex_value(v[i + 4]);
        let h5 = hex_value(v[i + 5]);
        match (h2, h3, h4, h5) {
            (Some(a), Some(b), Some(c), Some(d)) => {
                let val: u32 = a * 4096 + b * 256 + c * 16 + d;
                if val < 0xD800 || val >= 0xE000 {
                    match char::from_u32(val) {
                        Some(ch) => Some((ch, i + 6)),
                        None => {
                            proof {
                                assert(false);
                            }
                            None
                        },
                    }
                } else {
                    None
                }
            },
            _ => None,
        }
    } else {
        None
    }
}

/// Reads the contents of a string at position `i`, up to and including the
/// closing quote.
fn parse_str_chars_at(v: &Vec<char>, i: usize) -> (r: Option<(Vec<char>, usize)>)
    requires
        i <= v@.len(),
    ensures
        match r {
            Some((content, j)) => i <= j <= v@.len() && parse_str_chars(v@.skip(i as int))
                == Some((content@, v@.skip(j as int))),
            None => parse_str_chars(v@.skip(i as int)) is None,
        },
    decreases v@.len() - i,
{
    let ghost s = v@.skip(i as int);
    if i == v.len() {
        return None;
    }
    proof {
        assert(s[0] == v@[i as int]);
    }
    let c0 = v[i];
    if c0 == '"' {
        let content: Vec<char> = Vec::new();
        proof {
            assert(s.skip(1) =~= v@.skip(i as int + 1));
        }
        Some((content, i + 1))
    } else if c0 == '\\' {
        match parse_escape_at(v, i) {
            Some((c, j)) => {
                proof {
                    assert(s.skip(j - i) =~= v@.skip(j as int));
                }
                match parse_str_chars_at(v, j) {
                    Some((contents, k)) => {
                        let mut content = contents;
                        let ghost before = content@;
                        content.insert(0, c);
                        proof {
                            assert(content@ =~= seq![c] + before);
                        }
                        Some((content, k))
                    },
                    None => None,
                }
            },
            None => None,
        }
    } else if (c0 as u32) < 32 {
        None
    } else {
        proof {
            assert(s.skip(1) =~= v@.skip(i as int + 1));
        }
        match parse_str_chars_at(v, i + 1) {
            Some((contents, k)) => {
                let mut content = contents;
                let ghost before = content@;
                content.insert(0, c0);
                proof {
                    assert(content@ =~= seq![c0] + before);
                }
                Some((content, k))
            },
            None => None,
        }
    }
}

/// Reads a quoted string value at position `i`.
fn parse_string_at(v: &Vec<char>, i: usize) -> (r: Option<(String, usize)>)
    requires
        i <= v@.len(),
    ensures
        match r {
            Some((out, j)) => i <= j <= v@.len() && parse_string(v@.skip(i as int)) == Some(
                (out@, v@.skip(j as int)),
            ),
            None => parse_string(v@.skip(i as int)) is None,
        },
{
    let ghost s = v@.skip(i as int);
    if i < v.len() && v[i] == '"' {
        proof {
            assert(s[0] == v@[i as int]);
            assert(s.skip(1) =~= v@.skip(i as int + 1));
        }
        match parse_str_chars_at(v, i + 1) {
            Some((content, j)) => Some((chars_to_string(&content), j)),
            None => None,
        }
    } else {
        proof {
            if s.len() > 0 {
                assert(s[0] == v@[i as int]);
            }
        }
        None
    }
}

/// Reads `true` or `false` at position `i`.
fn parse_bool_at(v: &Vec<char>, i: usize) -> (r: Option<(bool, usize)>)
    requires
        i <= v@.len(),
    ensures
        match r {
            Some((b, j)) => i <= j <= v@.len() && parse_bool(v@.skip(i as int)) == Some(
                (b, v@.skip(j as int)),
            ),
            None => parse_bool(v@.skip(i as int)) is None,
        },
{
    let ghost s = v@.skip(i as int);
    let len = v.len();
    proof {
        assert(s.len() == len - i);
    }
    if match_lit(v, i, "true") {
        let n = "true".unicode_len();
        proof {
            assert(s.len() == v@.len() - i);
            assert(s.skip(n as int) =~= v@.skip(i as int + n));
        }
        Some((true, i + n))
    } else if match_lit(v, i, "false") {
        let n = "false".unicode_len();
        proof {
            assert(s.len() == v@.len() - i);
            assert(s.skip(n as int) =~= v@.skip(i as int + n));
        }
        Some((false, i + n))
    } else {
        None
    }
}

/// Reads one task object at position `i`.
#[verifier::rlimit(100)]
fn parse_task_at(v: &Vec<char>, i: usize, default_creation: &str) -> (r: Option<(Task, usize)>)
    requires
        i <= v@.len(),
    ensures
        match r {
            Some((t, j)) => i <= j <= v@.len() && parse_task(v@.skip(i as int), default_creation@)
                == Some((t@, v@.skip(j as int))),
            None => parse_task(v@.skip(i as int), default_creation@) is None,
        },
{
    let ghost s = v@.skip(i as int);
    let len = v.len();
    proof {
        assert(s.len() == len - i);
    }
    if !match_lit(v, i, "{\"title\":") {
        return None;
    }
    let n0 = "{\"title\":".unicode_len();
    proof {
        assert(s.len() == v@.len() - i);
        assert(s.skip(n0 as int) =~= v@.skip(i as int + n0));
    }
    let (title, i1) = match parse_string_at(v, i + n0) {
        Some(p) => p,
        None => {
            return None;
        },
    };
    let ghost s1 = v@.skip(i1 as int);
    if !match_lit(v, i1, ",\"body\":") {
        return None;
    }
    let n1 = ",\"body\":".unicode_len();
    proof {
        assert(s1.len() == v@.len() - i1);
        assert(s1.skip(n1 as int) =~= v@.skip(i1 as int + n1));
    }
    let (body, i2) = match parse_string_at(v, i1 + n1) {
        Some(p) => p,
        None => {
            return None;
        },
    };
    let ghost s2 = v@.skip(i2 as int);
    // optional `completed`
    let (pending, i3) = if match_lit(v, i2, ",\"completed\":") {
        let n2 = ",\"completed\":".unicode_len();
        proof {
            assert(s2.len() == v@.len() - i2);
            assert(s2.skip(n2 as int) =~= v@.skip(i2 as int + n2));
        }
        match parse_bool_at(v, i2 + n2) {
            Some(p) => p,
            None => {
                return None;
            },
        }
    } else {
        (true, i2)
    };
    let ghost s3 = v@.skip(i3 as int);
    proof {
        assert(parse_completed_opt(s2) == Some((pending, s3)));
    }
    // optional `creation_date`
    let (creation, i4) = if match_lit(v, i3, ",\"creation_date\":") {
        let n3 = ",\"creation_date\":".unicode_len();
        proof {
            assert(s3.len() == v@.len() - i3);
            assert(s3.skip(n3 as int) =~= v@.skip(i3 as int + n3));
        }
        match parse_string_at(v, i3 + n3) {
            Some(p) => p,
            None => {
                return None;
            },
        }
    } else {
        (String::from_str(default_creation), i3)
    };
    let ghost s4 = v@.skip(i4 as int);
    proof {
        assert(parse_creation_opt(s3, default_creation@) == Some((creation@, s4)));
    }
    // optional `completion_date`
    let (completion, i5) = if match_lit(v, i4, ",\"completion_date\":") {
        let n4 = ",\"completion_date\":".unicode_len();
        proof {
            assert(s4.len() == v@.len() - i4);
        }
        let i4b = i4 + n4;
        proof {
            assert(s4.skip(n4 as int) =~= v@.skip(i4b as int));
        }
        if match_lit(v, i4b, "null") {
            let n5 = "null".unicode_len();
            proof {
                assert(v@.skip(i4b as int).len() == v@.len() - i4b);
                assert(v@.skip(i4b as int).skip(n5 as int) =~= v@.skip(i4b as int + n5));
            }
            (None, i4b + n5)
        } else {
            match parse_string_at(v, i4b) {
                Some((d, j)) => (Some(d), j),
                None => {
                    return None;
                },
            }
        }
    } else {
        (None, i4)
    };
    let ghost s5 = v@.skip(i5 as int);
    let ghost completion_view: Option<Seq<char>> = match completion {
        Some(ref d) => Some(d@),
        None => None,
    };
    proof {
        assert(parse_completion_opt(s4) == Some((completion_view, s5)));
    }
    if i5 < v.len() && v[i5] == '}' {
        proof {
            assert(s5[0] == v@[i5 as int]);
            assert(s5.skip(1) =~= v@.skip(i5 as int + 1));
        }
        let t = Task { title, body, pending, creation_date: creation, completion_date: completion };
        Some((t, i5 + 1))
    } else {
        proof {
            if s5.len() > 0 {
                assert(s5[0] == v@[i5 as int]);
            }
        }
        None
    }
}

/// Reads the tasks standing after the first array element, at position `i`.
fn parse_tasks_more_at(v: &Vec<char>, i: usize, default_creation: &str) -> (r: Option<
    (Vec<Task>, usize),
>)
    requires
        i <= v@.len(),
    ensures
        match r {
            Some((ts, j)) => i <= j <= v@.len() && parse_tasks_more(
                v@.skip(i as int),
                default_creation@,
            ) == Some((ts.deep_view(), v@.skip(j as int))),
            None => parse_tasks_more(v@.skip(i as int), default_creation@) is None,
        },
    decreases v@.len() - i,
{
    let ghost s = v@.skip(i as int);
    if i == v.len() {
        return None;
    }
    proof {
        assert(s[0] == v@[i as int]);
    }
    if v[i] == ']' {
        let ts: Vec<Task> = Vec::new();
        proof {
            assert(s.skip(1) =~= v@.skip(i as int + 1));
            assert(ts.deep_view() =~= Seq::<TaskView>::empty());
        }
        Some((ts, i + 1))
    } else if v[i] == ',' {
        proof {
            assert(s.skip(1) =~= v@.skip(i as int + 1));
        }
        match parse_task_at(v, i + 1, default_creation) {
            Some((t, j)) => {
                proof {
                    assert(v@.skip(j as int).len() < s.len());
                }
                match parse_tasks_more_at(v, j, default_creation) {
                    Some((more, k)) => {
                        let mut ts = more;
                        let ghost before = ts;
                        ts.insert(0, t);
                        proof {
                            lemma_deep_view_insert_front(before, ts, t);
                        }
                        Some((ts, k))
                    },
                    None => None,
                }
            },
            None => None,
        }
    } else {
        None
    }
}

/// Reads the task array at position `i`, from just after its opening bracket
/// up to and including the closing bracket.
fn parse_tasks_at(v: &Vec<char>, i: usize, default_creation: &str) -> (r: Option<
    (Vec<Task>, usize),
>)
    requires
        i <= v@.len(),
    ensures
        match r {
            Some((ts, j)) => i <= j <= v@.len() && parse_tasks(
                v@.skip(i as int),
                default_creation@,
            ) == Some((ts.deep_view(), v@.skip(j as int))),
            None => parse_tasks(v@.skip(i as int), default_creation@) is None,
        },
{
    let ghost s = v@.skip(i as int);
    if i < v.len() && v[i] == ']' {
        proof {
            assert(s[0] == v@[i as int]);
        }
        let ts: Vec<Task> = Vec::new();
        proof {
            assert(s.skip(1) =~= v@.skip(i as int + 1));
            assert(ts.deep_view() =~= Seq::<TaskView>::empty());
        }
        return Some((ts, i + 1));
    }
    proof {
        if s.len() > 0 {
            assert(s[0] == v@[i as int]);
        }
    }
    match parse_task_at(v, i, default_creation) {
        Some((t, j)) => {
            if j == i {
                proof {
                    assert(!(v@.skip(j as int).len() < s.len()));
                }
                return None;
            }
            proof {
                assert(v@.skip(j as int).len() < s.len());
            }
            match parse_tasks_more_at(v, j, default_creation) {
                Some((more, k)) => {
                    let mut ts = more;
                    let ghost before = ts;
                    ts.insert(0, t);
                    proof {
                        lemma_deep_view_insert_front(before, ts, t);
                    }
                    Some((ts, k))
                },
                None => None,
            }
        },
        None => None,
    }
}

/// Inserting a task at the front prepends its view to the collection's view.
proof fn lemma_deep_view_insert_front(before: Vec<Task>, after: Vec<Task>, t: Task)
    requires
        after@ == before@.insert(0, t),
    ensures
        after.deep_view() == seq![t@] + before.deep_view(),
{
    assert(after@.len() == before@.len() + 1);
    assert forall|k: int| 0 <= k < after@.len() implies after.deep_view()[k] == (seq![t@]
        + before.deep_view())[k] by {
        if k == 0 {
            assert(after@[0] == t);
        } else {
            assert(after@[k] == before@[k - 1]);
        }
    }
    assert(after.deep_view() =~= seq![t@] + before.deep_view());
}

/// Decodes the persisted textual form of a task collection. Yields the tasks
/// where the text holds exactly one encoded collection, and nothing where it
/// does not; a task missing the `completed` or `creation_date` field gets the
/// construction defaults (pending, and the given default timestamp).
pub fn decode_from_str(s: &str, default_creation: &str) -> (r: Option<Vec<Task>>)
    ensures
        match r {
            Some(ts) => spec_decode(s@, default_creation@) == Some(ts.deep_view()),
            None => spec_decode(s@, default_creation@) is None,
        },
{
    let v = str_to_chars(s);
    proof {
        assert(v@.skip(0) =~= s@);
    }
    if !match_lit(&v, 0, "{\"tasks\":[") {
        return None;
    }
    let n = "{\"tasks\":[".unicode_len();
    proof {
        assert(s@.skip(n as int) =~= v@.skip(n as int));
    }
    match parse_tasks_at(&v, n, default_creation) {
        Some((ts, j)) => {
            let ghost rest = v@.skip(j as int);
            if v.len() - j == 1 && v[j] == '}' {
                proof {
                    assert(rest.len() == 1);
                    assert(rest[0] == v@[j as int]);
                }
                Some(ts)
            } else {
                proof {
                    if rest.len() > 0 {
                        assert(rest[0] == v@[j as int]);
                    }
                }
                None
            }
        },
        None => None,
    }
}

} // verus!
