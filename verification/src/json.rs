//! The JSON protocol codec: the fixed on-disk format exchanged with the
//! module through `input.json` and `result.json`.
//!
//! Values are written in the compact form (no inter-token whitespace), the
//! same shape the in-module harness writes, and read back by a parser that
//! is proved to invert the writer.

use vstd::prelude::*;

use crate::model::JsonValue;

verus! {

broadcast use vstd::seq::axiom_seq_index_decreases, vstd::std_specs::vec::axiom_vec_decreases_to_view, vstd::utf8::char_u32_cast, vstd::utf8::char_is_scalar;

/// Relies on String::push: appends exactly one character.
#[verifier::external_body]
pub(crate) fn push_char(s: &mut String, c: char)
    ensures
        final(s)@ == old(s)@.push(c),
{
    s.push(c);
}

/// The mathematical shape of a JSON value, used by all contracts.
#[verifier::ext_equal]
pub enum JsonView {
    Null,
    Bool(bool),
    Int(int),
    Str(Seq<char>),
    Arr(Seq<JsonView>),
    Obj(Seq<(Seq<char>, JsonView)>),
}

/// The abstraction of an executable JSON value.
pub open spec fn json_view(v: JsonValue) -> JsonView
    decreases v,
{
    match v {
        JsonValue::Null => JsonView::Null,
        JsonValue::Bool(b) => JsonView::Bool(b),
        JsonValue::Int(i) => JsonView::Int(i as int),
        JsonValue::Str(s) => JsonView::Str(s@),
        JsonValue::Arr(es) => JsonView::Arr(
            Seq::new(
                es@.len(),
                |i: int|
                    if 0 <= i < es@.len() {
                        json_view(es@[i])
                    } else {
                        JsonView::Null
                    },
            ),
        ),
        JsonValue::Obj(fs) => JsonView::Obj(
            Seq::new(
                fs@.len(),
                |i: int|
                    if 0 <= i < fs@.len() {
                        (fs@[i].0@, json_view(fs@[i].1))
                    } else {
                        (Seq::empty(), JsonView::Null)
                    },
            ),
        ),
    }
}

impl View for JsonValue {
    type V = JsonView;

    open spec fn view(&self) -> JsonView {
        json_view(*self)
    }
}

/// Integers a `JsonValue` can carry are 64-bit; a view is well formed when
/// every number in it fits.
pub open spec fn json_wf(v: JsonView) -> bool
    decreases v,
{
    match v {
        JsonView::Null => true,
        JsonView::Bool(_) => true,
        JsonView::Int(i) => i64::MIN <= i <= i64::MAX,
        JsonView::Str(_) => true,
        JsonView::Arr(es) => forall|i: int| 0 <= i < es.len() ==> json_wf(#[trigger] es[i]),
        JsonView::Obj(fs) => forall|i: int| 0 <= i < fs.len() ==> json_wf(#[trigger] fs[i].1),
    }
}

/// The view of an executable value is always well formed.
pub proof fn lemma_json_view_wf(v: JsonValue)
    ensures
        json_wf(v@),
    decreases v,
{
    match v {
        JsonValue::Arr(es) => {
            assert forall|i: int| 0 <= i < es@.len() implies json_wf(
                #[trigger] (v@ -> Arr_0)[i],
            ) by {
                lemma_json_view_wf(es@[i]);
            }
        },
        JsonValue::Obj(fs) => {
            assert forall|i: int| 0 <= i < fs@.len() implies json_wf(
                #[trigger] (v@ -> Obj_0)[i].1,
            ) by {
                lemma_json_view_wf(fs@[i].1);
            }
        },
        _ => {},
    }
}

// ------------------------------------------------------------------
// writing
// ------------------------------------------------------------------
/// The character for one decimal digit.
pub open spec fn spec_digit_char(d: int) -> char {
    ((48 + d) as u8) as char
}

/// The lowercase character for one hexadecimal digit.
pub open spec fn spec_hex_char(d: int) -> char {
    if d < 10 {
        ((48 + d) as u8) as char
    } else {
        ((87 + d) as u8) as char
    }
}

/// Decimal digits of a non-negative number, most significant first.
pub open spec fn spec_digits(n: nat) -> Seq<char>
    decreases n,
{
    if n < 10 {
        seq![spec_digit_char(n as int)]
    } else {
        spec_digits(n / 10).push(spec_digit_char((n % 10) as int))
    }
}

/// The decimal form of an integer.
pub open spec fn spec_int_chars(i: int) -> Seq<char> {
    if i < 0 {
        seq!['-'] + spec_digits((-i) as nat)
    } else {
        spec_digits(i as nat)
    }
}

/// How one character appears inside a JSON string literal.
pub open spec fn spec_escape_char(c: char) -> Seq<char> {
    if c == '"' {
        seq!['\\', '"']
    } else if c == '\\' {
        seq!['\\', '\\']
    } else if c == '\n' {
        seq!['\\', 'n']
    } else if c == '\r' {
        seq!['\\', 'r']
    } else if c == '\t' {
        seq!['\\', 't']
    } else if (c as u32) == 8 {
        seq!['\\', 'b']
    } else if (c as u32) == 12 {
        seq!['\\', 'f']
    } else if (c as u32) < 32 {
        seq!['\\', 'u', '0', '0', spec_hex_char((c as u32) as int / 16), spec_hex_char(
            (c as u32) as int % 16,
        )]
    } else {
        seq![c]
    }
}

/// A string's characters with JSON escaping applied.
pub open spec fn spec_escape(s: Seq<char>) -> Seq<char>
    decreases s.len(),
{
    if s.len() == 0 {
        Seq::empty()
    } else {
        spec_escape_char(s[0]) + spec_escape(s.skip(1))
    }
}

/// The compact JSON text of a value.
pub open spec fn spec_json(v: JsonView) -> Seq<char>
    decreases v, 1int,
{
    match v {
        JsonView::Null => seq!['n', 'u', 'l', 'l'],
        JsonView::Bool(b) => if b {
            seq!['t', 'r', 'u', 'e']
        } else {
            seq!['f', 'a', 'l', 's', 'e']
        },
        JsonView::Int(i) => spec_int_chars(i),
        JsonView::Str(s) => seq!['"'] + spec_escape(s) + seq!['"'],
        JsonView::Arr(es) => seq!['['] + spec_json_items(es) + seq![']'],
        JsonView::Obj(fs) => seq!['{'] + spec_json_fields(fs) + seq!['}'],
    }
}

/// Comma-separated texts of array elements.
pub open spec fn spec_json_items(es: Seq<JsonView>) -> Seq<char>
    decreases es, 0int,
{
    if es.len() == 0 {
        Seq::empty()
    } else if es.len() == 1 {
        spec_json(es[0])
    } else {
        spec_json(es[0]) + seq![','] + spec_json_items(es.skip(1))
    }
}

/// The text of one object member: `"name":value`.
pub open spec fn spec_member(name: Seq<char>, v: JsonView) -> Seq<char>
    decreases v, 2int,
{
    seq!['"'] + spec_escape(name) + seq!['"', ':'] + spec_json(v)
}

/// Comma-separated `"name":value` texts of object members.
pub open spec fn spec_json_fields(fs: Seq<(Seq<char>, JsonView)>) -> Seq<char>
    decreases fs, 0int,
{
    if fs.len() == 0 {
        Seq::empty()
    } else {
        let head = spec_member(fs[0].0, fs[0].1);
        if fs.len() == 1 {
            head
        } else {
            head + seq![','] + spec_json_fields(fs.skip(1))
        }
    }
}

/// Appending one element to a run extends its serialized items by a comma
/// (when the run was non-empty) and the element's text.
proof fn lemma_items_snoc(es: Seq<JsonView>, x: JsonView)
    ensures
        spec_json_items(es.push(x)) == if es.len() == 0 {
            spec_json(x)
        } else {
            spec_json_items(es) + seq![','] + spec_json(x)
        },
    decreases es.len(),
{
    if es.len() == 0 {
        assert(es.push(x) =~= seq![x]);
        assert(spec_json_items(seq![x]) == spec_json(seq![x][0]));
    } else {
        lemma_items_snoc(es.skip(1), x);
        assert(es.push(x).skip(1) =~= es.skip(1).push(x));
        if es.len() == 1 {
            assert(spec_json_items(es) == spec_json(es[0]));
        }
    }
}

proof fn lemma_fields_snoc(fs: Seq<(Seq<char>, JsonView)>, x: (Seq<char>, JsonView))
    ensures
        spec_json_fields(fs.push(x)) == ({
            let head = spec_member(x.0, x.1);
            if fs.len() == 0 {
                head
            } else {
                spec_json_fields(fs) + seq![','] + head
            }
        }),
    decreases fs.len(),
{
    if fs.len() == 0 {
        assert(fs.push(x) =~= seq![x]);
    } else {
        lemma_fields_snoc(fs.skip(1), x);
        assert(fs.push(x).skip(1) =~= fs.skip(1).push(x));
    }
}

/// Escaping distributes over appending one character.
proof fn lemma_escape_snoc(s: Seq<char>, c: char)
    ensures
        spec_escape(s.push(c)) == spec_escape(s) + spec_escape_char(c),
    decreases s.len(),
{
    if s.len() == 0 {
        assert(s.push(c) =~= seq![c]);
        assert(seq![c].skip(1) =~= Seq::<char>::empty());
        assert(spec_escape_char(c) + spec_escape(Seq::<char>::empty()) =~= spec_escape_char(c));
        assert(spec_escape(s) + spec_escape_char(c) =~= spec_escape_char(c));
    } else {
        lemma_escape_snoc(s.skip(1), c);
        assert(s.push(c).skip(1) =~= s.skip(1).push(c));
        assert(spec_escape_char(s[0]) + (spec_escape(s.skip(1)) + spec_escape_char(c))
            =~= spec_escape_char(s[0]) + spec_escape(s.skip(1)) + spec_escape_char(c));
    }
}

/// Writes the decimal digits of `n`.
fn write_digits(n: u64, out: &mut String)
    ensures
        final(out)@ == old(out)@ + spec_digits(n as nat),
    decreases n,
{
    if n >= 10 {
        write_digits(n / 10, out);
    }
    let d: u8 = 48 + ((n % 10) as u8);
    push_char(out, d as char);
}

/// Writes the decimal form of `i`.
fn write_int(i: i64, out: &mut String)
    ensures
        final(out)@ == old(out)@ + spec_int_chars(i as int),
{
    if i < 0 {
        push_char(out, '-');
        let m: u64 = (-(i as i128)) as u64;
        write_digits(m, out);
        proof {
            assert(old(out)@.push('-') + spec_digits(m as nat) =~= old(out)@ + (seq!['-']
                + spec_digits(m as nat)));
        }
    } else {
        write_digits(i as u64, out);
    }
}

/// Writes the characters of `s` with JSON escaping.
fn write_escaped(s: &str, out: &mut String)
    ensures
        final(out)@ == old(out)@ + spec_escape(s@),
{
    let n = s.unicode_len();
    let mut i: usize = 0;
    proof {
        assert(s@.take(0) =~= Seq::<char>::empty());
        assert(old(out)@ + Seq::<char>::empty() =~= old(out)@);
    }
    while i < n
        invariant
            i <= n,
            n == s@.len(),
            out@ == old(out)@ + spec_escape(s@.take(i as int)),
        decreases n - i,
    {
        let c = s.get_char(i);
        let code = c as u32;
        if c == '"' {
            push_char(out, '\\');
            push_char(out, '"');
        } else if c == '\\' {
            push_char(out, '\\');
            push_char(out, '\\');
        } else if c == '\n' {
            push_char(out, '\\');
            push_char(out, 'n');
        } else if c == '\r' {
            push_char(out, '\\');
            push_char(out, 'r');
        } else if c == '\t' {
            push_char(out, '\\');
            push_char(out, 't');
        } else if code == 8 {
            push_char(out, '\\');
            push_char(out, 'b');
        } else if code == 12 {
            push_char(out, '\\');
            push_char(out, 'f');
        } else if code < 32 {
            push_char(out, '\\');
            push_char(out, 'u');
            push_char(out, '0');
            push_char(out, '0');
            let hi: u8 = (code / 16) as u8;
            let lo: u8 = (code % 16) as u8;
            let hic: u8 = if hi < 10 {
                48 + hi
            } else {
                87 + hi
            };
            let loc: u8 = if lo < 10 {
                48 + lo
            } else {
                87 + lo
            };
            push_char(out, hic as char);
            push_char(out, loc as char);
        } else {
            push_char(out, c);
        }
        proof {
            assert(s@.take(i + 1).drop_last() =~= s@.take(i as int));
            assert(s@.take(i + 1) =~= s@.take(i as int).push(s@[i as int]));
            lemma_escape_snoc(s@.take(i as int), s@[i as int]);
            assert(out@ =~= old(out)@ + spec_escape(s@.take(i + 1)));
        }
        i = i + 1;
    }
    proof {
        assert(s@.take(n as int) =~= s@);
    }
}

/// Appends the compact JSON text of `v` to `out`.
#[verifier::loop_isolation(false)]
#[verifier::rlimit(60)]
pub fn write_json(v: &JsonValue, out: &mut String)
    ensures
        final(out)@ == old(out)@ + spec_json(v@),
    decreases *v,
{
    match v {
        JsonValue::Null => {
            proof {
                reveal_strlit("null");
                assert("null"@ =~= seq!['n', 'u', 'l', 'l']);
            }
            out.append("null");
        },
        JsonValue::Bool(b) => {
            if *b {
                proof {
                    reveal_strlit("true");
                    assert("true"@ =~= seq!['t', 'r', 'u', 'e']);
                }
                out.append("true");
            } else {
                proof {
                    reveal_strlit("false");
                    assert("false"@ =~= seq!['f', 'a', 'l', 's', 'e']);
                }
                out.append("false");
            }
        },
        JsonValue::Int(i) => {
            write_int(*i, out);
        },
        JsonValue::Str(s) => {
            push_char(out, '"');
            write_escaped(s.as_str(), out);
            push_char(out, '"');
            proof {
                assert(old(out)@.push('"') + spec_escape(s@) =~= old(out)@ + (seq!['"']
                    + spec_escape(s@)));
                assert((old(out)@ + (seq!['"'] + spec_escape(s@))).push('"') =~= old(out)@ + (
                seq!['"'] + spec_escape(s@) + seq!['"']));
            }
        },
        JsonValue::Arr(es) => {
            push_char(out, '[');
            let ghost views = v@ -> Arr_0;
            let mut i: usize = 0;
            proof {
                assert(views.take(0) =~= Seq::<JsonView>::empty());
                assert(out@ =~= old(out)@ + seq!['['] + spec_json_items(views.take(0)));
            }
            while i < es.len()
                invariant
                    i <= es@.len(),
                    out@ == old(out)@ + seq!['['] + spec_json_items(views.take(i as int)),
                decreases es@.len() - i,
            {
                if i > 0 {
                    push_char(out, ',');
                }
                write_json(&es[i], out);
                proof {
                    assert(views[i as int] == es@[i as int]@);
                    assert(views.take(i + 1) =~= views.take(i as int).push(views[i as int]));
                    lemma_items_snoc(views.take(i as int), views[i as int]);
                    assert(out@ =~= old(out)@ + seq!['['] + spec_json_items(views.take(i + 1)));
                }
                i = i + 1;
            }
            push_char(out, ']');
            proof {
                assert(views.take(es@.len() as int) =~= views);
                assert((old(out)@ + seq!['['] + spec_json_items(views)).push(']') =~= old(out)@ + (
                seq!['['] + spec_json_items(views) + seq![']']));
            }
        },
        JsonValue::Obj(fs) => {
            push_char(out, '{');
            let ghost views = v@ -> Obj_0;
            let mut i: usize = 0;
            proof {
                assert(views.take(0) =~= Seq::<(Seq<char>, JsonView)>::empty());
                assert(out@ =~= old(out)@ + seq!['{'] + spec_json_fields(views.take(0)));
            }
            while i < fs.len()
                invariant
                    i <= fs@.len(),
                    out@ == old(out)@ + seq!['{'] + spec_json_fields(views.take(i as int)),
                decreases fs@.len() - i,
            {
                if i > 0 {
                    push_char(out, ',');
                }
                push_char(out, '"');
                write_escaped(fs[i].0.as_str(), out);
                push_char(out, '"');
                push_char(out, ':');
                write_json(&fs[i].1, out);
                proof {
                    assert(views[i as int] == (fs@[i as int].0@, fs@[i as int].1@));
                    assert(views.take(i + 1) =~= views.take(i as int).push(views[i as int]));
                    lemma_fields_snoc(views.take(i as int), views[i as int]);
                    assert(spec_member(views[i as int].0, views[i as int].1) == seq!['"']
                        + spec_escape(views[i as int].0) + seq!['"', ':'] + spec_json(
                        views[i as int].1,
                    ));
                    assert(out@ =~= old(out)@ + seq!['{'] + spec_json_fields(views.take(i + 1)));
                }
                i = i + 1;
            }
            push_char(out, '}');
            proof {
                assert(views.take(fs@.len() as int) =~= views);
                assert((old(out)@ + seq!['{'] + spec_json_fields(views)).push('}') =~= old(out)@ + (
                seq!['{'] + spec_json_fields(views) + seq!['}']));
            }
        },
    }
}

/// The compact JSON text of a value as a fresh string.
pub fn json_to_string(v: &JsonValue) -> (r: String)
    ensures
        r@ == spec_json(v@),
{
    let mut out = String::new();
    write_json(v, &mut out);
    proof {
        assert(Seq::<char>::empty() + spec_json(v@) =~= spec_json(v@));
    }
    out
}


// ------------------------------------------------------------------
// reading
// ------------------------------------------------------------------
/// Relies on char::from_u32: yields the character with the given code for
/// every Unicode scalar value, and nothing for surrogates and codes past the
/// last code point.
#[verifier::external_body]
fn char_from_u32(c: u32) -> (r: Option<char>)
    ensures
        c < 0xD800 || (0xE000 <= c && c <= 0x10FFFF) ==> r == Some(c as char),
        0xD800 <= c < 0xE000 || c > 0x10FFFF ==> r is None,
{
    char::from_u32(c)
}

pub open spec fn is_digit(c: char) -> bool {
    48 <= c as u32 <= 57
}

pub open spec fn digit_val(c: char) -> int {
    c as u32 as int - 48
}

pub open spec fn is_hex_digit(c: char) -> bool {
    is_digit(c) || (97 <= c as u32 <= 102) || (65 <= c as u32 <= 70)
}

pub open spec fn hex_val(c: char) -> int {
    if is_digit(c) {
        digit_val(c)
    } else if 97 <= c as u32 <= 102 {
        c as u32 as int - 87
    } else {
        c as u32 as int - 55
    }
}

/// The first position at or after `pos` holding no decimal digit.
pub open spec fn digit_run_end(s: Seq<char>, pos: int) -> int
    decreases s.len() - pos,
{
    if pos < 0 || pos >= s.len() {
        pos
    } else if is_digit(s[pos]) {
        digit_run_end(s, pos + 1)
    } else {
        pos
    }
}

/// The number a run of decimal digits denotes, most significant first.
pub open spec fn digits_val(ds: Seq<char>) -> int
    decreases ds.len(),
{
    if ds.len() == 0 {
        0
    } else {
        digits_val(ds.drop_last()) * 10 + digit_val(ds.last())
    }
}

/// Reads a JSON number at `pos`: an optional minus sign and a digit run,
/// accepted only when the value fits a 64-bit signed integer.
pub open spec fn sparse_number(s: Seq<char>, pos: int) -> Option<(JsonView, int)> {
    if pos < 0 || pos >= s.len() {
        None
    } else {
        let neg = s[pos] == '-';
        let start = if neg {
            pos + 1
        } else {
            pos
        };
        if start >= s.len() || !is_digit(s[start]) {
            None
        } else {
            let end = digit_run_end(s, start);
            let m = digits_val(s.subrange(start, end));
            if neg {
                if m <= 0x8000_0000_0000_0000 {
                    Some((JsonView::Int(-m), end))
                } else {
                    None
                }
            } else {
                if m <= 0x7fff_ffff_ffff_ffff {
                    Some((JsonView::Int(m), end))
                } else {
                    None
                }
            }
        }
    }
}

/// Reads the body of a string literal from just after the opening quote,
/// accumulating unescaped characters, up to and over the closing quote.
pub open spec fn sparse_string(s: Seq<char>, pos: int, acc: Seq<char>) -> Option<(Seq<char>, int)>
    decreases s.len() - pos,
{
    if pos < 0 || pos >= s.len() {
        None
    } else {
        let c = s[pos];
        if c == '"' {
            Some((acc, pos + 1))
        } else if c == '\\' {
            if pos + 1 >= s.len() {
                None
            } else {
                let e = s[pos + 1];
                if e == '"' {
                    sparse_string(s, pos + 2, acc.push('"'))
                } else if e == '\\' {
                    sparse_string(s, pos + 2, acc.push('\\'))
                } else if e == '/' {
                    sparse_string(s, pos + 2, acc.push('/'))
                } else if e == 'n' {
                    sparse_string(s, pos + 2, acc.push('\n'))
                } else if e == 'r' {
                    sparse_string(s, pos + 2, acc.push('\r'))
                } else if e == 't' {
                    sparse_string(s, pos + 2, acc.push('\t'))
                } else if e == 'b' {
                    sparse_string(s, pos + 2, acc.push('\u{8}'))
                } else if e == 'f' {
                    sparse_string(s, pos + 2, acc.push('\u{c}'))
                } else if e == 'u' {
                    if pos + 5 >= s.len() {
                        None
                    } else if is_hex_digit(s[pos + 2]) && is_hex_digit(s[pos + 3]) && is_hex_digit(
                        s[pos + 4],
                    ) && is_hex_digit(s[pos + 5]) {
                        let code = hex_val(s[pos + 2]) * 4096 + hex_val(s[pos + 3]) * 256 + hex_val(
                            s[pos + 4],
                        ) * 16 + hex_val(s[pos + 5]);
                        if code < 0xD800 || code >= 0xE000 {
                            sparse_string(s, pos + 6, acc.push(code as u32 as char))
                        } else {
                            None
                        }
                    } else {
                        None
                    }
                } else {
                    None
                }
            }
        } else if c as u32 >= 32 {
            sparse_string(s, pos + 1, acc.push(c))
        } else {
            None
        }
    }
}

/// Reads one JSON value at `pos` in the compact protocol form.
pub open spec fn sparse_value(s: Seq<char>, pos: int) -> Option<(JsonView, int)>
    decreases s.len() - pos, 2int,
{
    if pos < 0 || pos >= s.len() {
        None
    } else {
        let c = s[pos];
        if c == 'n' {
            if pos + 4 <= s.len() && s[pos + 1] == 'u' && s[pos + 2] == 'l' && s[pos + 3] == 'l' {
                Some((JsonView::Null, pos + 4))
            } else {
                None
            }
        } else if c == 't' {
            if pos + 4 <= s.len() && s[pos + 1] == 'r' && s[pos + 2] == 'u' && s[pos + 3] == 'e' {
                Some((JsonView::Bool(true), pos + 4))
            } else {
                None
            }
        } else if c == 'f' {
            if pos + 5 <= s.len() && s[pos + 1] == 'a' && s[pos + 2] == 'l' && s[pos + 3] == 's'
                && s[pos + 4] == 'e' {
                Some((JsonView::Bool(false), pos + 5))
            } else {
                None
            }
        } else if c == '"' {
            match sparse_string(s, pos + 1, Seq::empty()) {
                Some((str, end)) => Some((JsonView::Str(str), end)),
                None => None,
            }
        } else if c == '-' || is_digit(c) {
            sparse_number(s, pos)
        } else if c == '[' {
            if pos + 1 < s.len() && s[pos + 1] == ']' {
                Some((JsonView::Arr(Seq::empty()), pos + 2))
            } else {
                match sparse_items(s, pos + 1) {
                    Some((es, end)) => Some((JsonView::Arr(es), end)),
                    None => None,
                }
            }
        } else if c == '{' {
            if pos + 1 < s.len() && s[pos + 1] == '}' {
                Some((JsonView::Obj(Seq::empty()), pos + 2))
            } else {
                match sparse_fields(s, pos + 1) {
                    Some((fs, end)) => Some((JsonView::Obj(fs), end)),
                    None => None,
                }
            }
        } else {
            None
        }
    }
}

/// Reads one or more comma-separated values and the closing bracket.
pub open spec fn sparse_items(s: Seq<char>, pos: int) -> Option<(Seq<JsonView>, int)>
    decreases s.len() - pos, 3int,
{
    if pos < 0 || pos >= s.len() {
        None
    } else {
        match sparse_value(s, pos) {
            None => None,
            Some((v, end)) => {
                if end <= pos || end >= s.len() {
                    None
                } else if s[end] == ',' {
                    match sparse_items(s, end + 1) {
                        Some((rest, e2)) => Some((seq![v] + rest, e2)),
                        None => None,
                    }
                } else if s[end] == ']' {
                    Some((seq![v], end + 1))
                } else {
                    None
                }
            },
        }
    }
}

/// Reads one or more comma-separated `"name":value` members and the closing
/// brace.
pub open spec fn sparse_fields(s: Seq<char>, pos: int) -> Option<
    (Seq<(Seq<char>, JsonView)>, int),
>
    decreases s.len() - pos, 3int,
{
    if pos < 0 || pos >= s.len() {
        None
    } else if s[pos] != '"' {
        None
    } else {
        match sparse_string(s, pos + 1, Seq::empty()) {
            None => None,
            Some((name, nend)) => {
                if nend <= pos + 1 || nend >= s.len() {
                    None
                } else if s[nend] != ':' {
                    None
                } else {
                    match sparse_value(s, nend + 1) {
                        None => None,
                        Some((v, vend)) => {
                            if vend <= nend + 1 || vend >= s.len() {
                                None
                            } else if s[vend] == ',' {
                                match sparse_fields(s, vend + 1) {
                                    Some((rest, e2)) => Some((seq![(name, v)] + rest, e2)),
                                    None => None,
                                }
                            } else if s[vend] == '}' {
                                Some((seq![(name, v)], vend + 1))
                            } else {
                                None
                            }
                        },
                    }
                }
            },
        }
    }
}


/// An executable parse result agrees with the specification parser's.
pub open spec fn value_matches(r: Option<(JsonValue, usize)>, sp: Option<(JsonView, int)>) -> bool {
    match r {
        None => sp is None,
        Some((v, e)) => sp == Some((v@, e as int)),
    }
}

pub open spec fn string_matches(r: Option<(String, usize)>, sp: Option<(Seq<char>, int)>) -> bool {
    match r {
        None => sp is None,
        Some((st, e)) => sp == Some((st@, e as int)),
    }
}

/// The characters of a string slice as a vector.
pub fn str_chars(s: &str) -> (r: Vec<char>)
    ensures
        r@ == s@,
{
    let n = s.unicode_len();
    let mut out: Vec<char> = Vec::new();
    let mut i: usize = 0;
    while i < n
        invariant
            i <= n,
            n == s@.len(),
            out@ =~= s@.take(i as int),
        decreases n - i,
    {
        out.push(s.get_char(i));
        proof {
            assert(s@.take(i + 1) =~= s@.take(i as int).push(s@[i as int]));
        }
        i = i + 1;
    }
    proof {
        assert(s@.take(n as int) =~= s@);
    }
    out
}

/// The value of a digit run is never negative.
proof fn lemma_digits_val_nonneg(s: Seq<char>, start: int, j: int)
    requires
        0 <= start <= j <= s.len(),
        forall|i: int| start <= i < j ==> is_digit(#[trigger] s[i]),
    ensures
        digits_val(s.subrange(start, j)) >= 0,
    decreases j - start,
{
    if j == start {
        assert(s.subrange(start, j) =~= Seq::<char>::empty());
    } else {
        lemma_digits_val_nonneg(s, start, j - 1);
        assert(s.subrange(start, j).drop_last() =~= s.subrange(start, j - 1));
    }
}

/// A digit run is worth no less than any of its prefixes.
proof fn lemma_digits_val_grows(s: Seq<char>, start: int, j: int, end: int)
    requires
        0 <= start <= j <= end <= s.len(),
        forall|i: int| start <= i < end ==> is_digit(#[trigger] s[i]),
    ensures
        digits_val(s.subrange(start, end)) >= digits_val(s.subrange(start, j)),
    decreases end - j,
{
    lemma_digits_val_nonneg(s, start, j);
    if j < end {
        lemma_digits_val_grows(s, start, j + 1, end);
        assert(s.subrange(start, j + 1).drop_last() =~= s.subrange(start, j));
    }
}

/// Whether `c` is a decimal digit.
fn is_digit_char(c: char) -> (r: bool)
    ensures
        r == is_digit(c),
{
    let code = c as u32;
    48 <= code && code <= 57
}

/// Reads a number, mirroring `sparse_number`.
#[verifier::loop_isolation(false)]
fn parse_number(s: &Vec<char>, pos: usize) -> (r: Option<(JsonValue, usize)>)
    requires
        pos < s@.len(),
        s@[pos as int] == '-' || is_digit(s@[pos as int]),
    ensures
        value_matches(r, sparse_number(s@, pos as int)),
{
    let n = s.len();
    let neg = s[pos] == '-';
    let start = if neg {
        pos + 1
    } else {
        pos
    };
    if start >= n {
        return None;
    }
    let c0 = s[start];
    let code0 = c0 as u32;
    if !(48 <= code0 && code0 <= 57) {
        return None;
    }
    let ghost gstart = start as int;
    let mut p = start;
    let mut acc: u64 = 0;
    proof {
        assert(s@.subrange(gstart, gstart) =~= Seq::<char>::empty());
    }
    while p < s.len() && is_digit_char(s[p])
        invariant
            start <= p <= s@.len(),
            forall|i: int| gstart <= i < p ==> is_digit(#[trigger] s@[i]),
            digit_run_end(s@, p as int) == digit_run_end(s@, gstart),
            acc as int == digits_val(s@.subrange(gstart, p as int)),
        decreases s@.len() - p,
    {
        let d: u64 = (s[p] as u32 - 48) as u64;
        if acc > (u64::MAX - d) / 10 {
            // the run cannot fit any 64-bit integer
            proof {
                let end = digit_run_end(s@, gstart);
                lemma_digit_run_end_props(s@, p as int);
                assert(digit_run_end(s@, p + 1) == end);
                lemma_digit_run_digits(s@, p + 1, end);
                assert(s@.subrange(gstart, p + 1).drop_last() =~= s@.subrange(gstart, p as int));
                assert(digits_val(s@.subrange(gstart, p + 1)) > u64::MAX);
                lemma_digit_run_digits(s@, gstart, end);
                lemma_digits_val_grows(s@, gstart, p + 1, end);
            }
            return None;
        }
        acc = acc * 10 + d;
        proof {
            assert(s@.subrange(gstart, p + 1).drop_last() =~= s@.subrange(gstart, p as int));
        }
        p = p + 1;
    }
    proof {
        lemma_digit_run_end_props(s@, p as int);
        assert(digit_run_end(s@, gstart) == p as int);
    }
    if neg {
        if acc <= 0x8000_0000_0000_0000 {
            let v: i64 = if acc == 0x8000_0000_0000_0000 {
                i64::MIN
            } else {
                -(acc as i64)
            };
            Some((JsonValue::Int(v), p))
        } else {
            None
        }
    } else {
        if acc <= 0x7fff_ffff_ffff_ffff {
            Some((JsonValue::Int(acc as i64), p))
        } else {
            None
        }
    }
}

/// Where a digit run ends, no digit stands, and every position before it
/// within the run holds one.
proof fn lemma_digit_run_end_props(s: Seq<char>, pos: int)
    requires
        0 <= pos,
    ensures
        digit_run_end(s, pos) == pos || (pos < s.len() && is_digit(s[pos]) && digit_run_end(s, pos)
            == digit_run_end(s, pos + 1)),
        pos < s.len() && !is_digit(s[pos]) ==> digit_run_end(s, pos) == pos,
        pos >= s.len() ==> digit_run_end(s, pos) == pos,
{
}

/// Every position inside a digit run holds a digit.
proof fn lemma_digit_run_digits(s: Seq<char>, pos: int, end: int)
    requires
        0 <= pos,
        end == digit_run_end(s, pos),
    ensures
        pos <= end,
        pos <= s.len() ==> end <= s.len(),
        forall|i: int| pos <= i < end ==> is_digit(#[trigger] s[i]),
    decreases s.len() - pos,
{
    if 0 <= pos < s.len() && is_digit(s[pos]) {
        lemma_digit_run_digits(s, pos + 1, end);
    }
}

/// Reads a string body, mirroring `sparse_string`.
#[verifier::loop_isolation(false)]
#[verifier::rlimit(100)]
fn parse_string_body(s: &Vec<char>, pos: usize) -> (r: Option<(String, usize)>)
    ensures
        string_matches(r, sparse_string(s@, pos as int, Seq::empty())),
{
    let mut p = pos;
    let mut out = String::new();
    loop
        invariant
            pos <= p,
            sparse_string(s@, pos as int, Seq::empty()) == sparse_string(s@, p as int, out@),
        decreases s@.len() - p,
    {
        if p >= s.len() {
            return None;
        }
        let c = s[p];
        if c == '"' {
            return Some((out, p + 1));
        } else if c == '\\' {
            if p + 1 >= s.len() {
                return None;
            }
            let e = s[p + 1];
            if e == '"' {
                push_char(&mut out, '"');
            } else if e == '\\' {
                push_char(&mut out, '\\');
            } else if e == '/' {
                push_char(&mut out, '/');
            } else if e == 'n' {
                push_char(&mut out, '\n');
            } else if e == 'r' {
                push_char(&mut out, '\r');
            } else if e == 't' {
                push_char(&mut out, '\t');
            } else if e == 'b' {
                push_char(&mut out, '\u{8}');
            } else if e == 'f' {
                push_char(&mut out, '\u{c}');
            } else if e == 'u' {
                if s.len() - p <= 5 {
                    return None;
                }
                let mut code: u32 = 0;
                let mut ok = true;
                let mut k: usize = 2;
                while k < 6
                    invariant
                        2 <= k <= 6,
                        p + 5 < s@.len(),
                        ok ==> forall|i: int| 2 <= i < k ==> is_hex_digit(#[trigger] s@[p + i]),
                        !ok ==> exists|i: int| 2 <= i < k && !is_hex_digit(#[trigger] s@[p + i]),
                        ok ==> code as int == spec_hex_prefix(s@, p as int, k as int),
                        k == 2 ==> code == 0,
                        k == 3 ==> code < 0x10,
                        k == 4 ==> code < 0x100,
                        k == 5 ==> code < 0x1000,
                        k == 6 ==> code < 0x10000,
                    decreases 6 - k,
                {
                    let hc = s[p + k];
                    let hcode = hc as u32;
                    if 48 <= hcode && hcode <= 57 {
                        code = code * 16 + (hcode - 48);
                    } else if 97 <= hcode && hcode <= 102 {
                        code = code * 16 + (hcode - 87);
                    } else if 65 <= hcode && hcode <= 70 {
                        code = code * 16 + (hcode - 55);
                    } else {
                        ok = false;
                        code = 0;
                    }
                    k = k + 1;
                }
                proof {
                    lemma_hex_prefix_value(s@, p as int);
                }
                if !ok {
                    return None;
                }
                if !(code < 0xD800 || code >= 0xE000) {
                    return None;
                }
                match char_from_u32(code) {
                    Some(ch) => {
                        push_char(&mut out, ch);
                        p = p + 6;
                        continue;
                    },
                    None => {
                        proof {
                            assert(false);
                        }
                        return None;
                    },
                }
            } else {
                return None;
            }
            p = p + 2;
        } else if c as u32 >= 32 {
            push_char(&mut out, c);
            p = p + 1;
        } else {
            return None;
        }
    }
}

/// The value of the first `k - 2` hex digits after a `\u` escape.
pub open spec fn spec_hex_prefix(s: Seq<char>, p: int, k: int) -> int
    decreases k,
{
    if k <= 2 {
        0
    } else {
        spec_hex_prefix(s, p, k - 1) * 16 + hex_val(s[p + k - 1])
    }
}

proof fn lemma_hex_prefix_value(s: Seq<char>, p: int)
    requires
        0 <= p,
        p + 5 < s.len(),
    ensures
        spec_hex_prefix(s, p, 6) == hex_val(s[p + 2]) * 4096 + hex_val(s[p + 3]) * 256 + hex_val(
            s[p + 4],
        ) * 16 + hex_val(s[p + 5]),
{
    assert(spec_hex_prefix(s, p, 2) == 0);
    assert(spec_hex_prefix(s, p, 3) == hex_val(s[p + 2]));
    assert(spec_hex_prefix(s, p, 4) == hex_val(s[p + 2]) * 16 + hex_val(s[p + 3]));
    assert(spec_hex_prefix(s, p, 5) == spec_hex_prefix(s, p, 4) * 16 + hex_val(s[p + 4]));
    assert(spec_hex_prefix(s, p, 6) == spec_hex_prefix(s, p, 5) * 16 + hex_val(s[p + 5]));
}


/// The views of a run of executable values.
pub open spec fn json_views(es: Seq<JsonValue>) -> Seq<JsonView> {
    Seq::new(
        es.len(),
        |i: int|
            if 0 <= i < es.len() {
                json_view(es[i])
            } else {
                JsonView::Null
            },
    )
}

/// The views of a run of executable object members.
pub open spec fn json_field_views(fs: Seq<(String, JsonValue)>) -> Seq<(Seq<char>, JsonView)> {
    Seq::new(
        fs.len(),
        |i: int|
            if 0 <= i < fs.len() {
                (fs[i].0@, json_view(fs[i].1))
            } else {
                (Seq::empty(), JsonView::Null)
            },
    )
}

/// While part of an element run has been read into `vs`, the whole run's
/// parse is the parse of the rest, prefixed by `vs`.
pub open spec fn items_inv(s: Seq<char>, start: int, vs: Seq<JsonView>, p: int) -> bool {
    match sparse_items(s, p) {
        Some((rest, e)) => sparse_items(s, start) == Some::<(Seq<JsonView>, int)>((vs + rest, e)),
        None => sparse_items(s, start) is None,
    }
}

pub open spec fn fields_inv(
    s: Seq<char>,
    start: int,
    vs: Seq<(Seq<char>, JsonView)>,
    p: int,
) -> bool {
    match sparse_fields(s, p) {
        Some((rest, e)) => sparse_fields(s, start) == Some::<
            (Seq<(Seq<char>, JsonView)>, int),
        >((vs + rest, e)),
        None => sparse_fields(s, start) is None,
    }
}

/// Reads one JSON value, mirroring `sparse_value`.
#[verifier::loop_isolation(false)]
#[verifier::rlimit(100)]
pub fn parse_value(s: &Vec<char>, pos: usize) -> (r: Option<(JsonValue, usize)>)
    ensures
        value_matches(r, sparse_value(s@, pos as int)),
    decreases s@.len() - pos, 2int,
{
    let n = s.len();
    if pos >= n {
        return None;
    }
    let c = s[pos];
    if c == 'n' {
        if n - pos >= 4 && s[pos + 1] == 'u' && s[pos + 2] == 'l' && s[pos + 3] == 'l' {
            Some((JsonValue::Null, pos + 4))
        } else {
            None
        }
    } else if c == 't' {
        if n - pos >= 4 && s[pos + 1] == 'r' && s[pos + 2] == 'u' && s[pos + 3] == 'e' {
            Some((JsonValue::Bool(true), pos + 4))
        } else {
            None
        }
    } else if c == 'f' {
        if n - pos >= 5 && s[pos + 1] == 'a' && s[pos + 2] == 'l' && s[pos + 3] == 's' && s[pos + 4]
            == 'e' {
            Some((JsonValue::Bool(false), pos + 5))
        } else {
            None
        }
    } else if c == '"' {
        match parse_string_body(s, pos + 1) {
            Some((st, end)) => Some((JsonValue::Str(st), end)),
            None => None,
        }
    } else if c == '-' || is_digit_char(c) {
        parse_number(s, pos)
    } else if c == '[' {
        if pos + 1 < n && s[pos + 1] == ']' {
            let es: Vec<JsonValue> = Vec::new();
            proof {
                assert((JsonValue::Arr(es)@ -> Arr_0) =~= Seq::<JsonView>::empty());
            }
            return Some((JsonValue::Arr(es), pos + 2));
        }
        match parse_items(s, pos + 1) {
            Some((items, end)) => {
                proof {
                    assert((JsonValue::Arr(items)@ -> Arr_0) =~= json_views(items@));
                }
                Some((JsonValue::Arr(items), end))
            },
            None => None,
        }
    } else if c == '{' {
        if pos + 1 < n && s[pos + 1] == '}' {
            let fs: Vec<(String, JsonValue)> = Vec::new();
            proof {
                assert((JsonValue::Obj(fs)@ -> Obj_0) =~= Seq::<(Seq<char>, JsonView)>::empty());
            }
            return Some((JsonValue::Obj(fs), pos + 2));
        }
        match parse_fields(s, pos + 1) {
            Some((members, end)) => {
                proof {
                    assert((JsonValue::Obj(members)@ -> Obj_0) =~= json_field_views(members@));
                }
                Some((JsonValue::Obj(members), end))
            },
            None => None,
        }
    } else {
        None
    }
}

/// Reads an element run and the closing bracket, mirroring `sparse_items`.
#[verifier::loop_isolation(false)]
#[verifier::rlimit(100)]
fn parse_items(s: &Vec<char>, pos: usize) -> (r: Option<(Vec<JsonValue>, usize)>)
    requires
        pos <= s@.len(),
    ensures
        match r {
            None => sparse_items(s@, pos as int) is None,
            Some((items, e)) => sparse_items(s@, pos as int) == Some::<
                (Seq<JsonView>, int),
            >((json_views(items@), e as int)),
        },
    decreases s@.len() - pos, 3int,
{
    let n = s.len();
    let ghost start = pos as int;
    let mut items: Vec<JsonValue> = Vec::new();
    let ghost mut vs: Seq<JsonView> = Seq::empty();
    let mut p = pos;
    proof {
        assert(items_inv(s@, start, vs, p as int)) by {
            match sparse_items(s@, p as int) {
                Some((rest, e)) => {
                    assert(vs + rest =~= rest);
                },
                None => {},
            }
        }
    }
    loop
        invariant
            pos <= p <= s@.len(),
            items_inv(s@, start, vs, p as int),
            vs.len() == items@.len(),
            forall|j: int| 0 <= j < vs.len() ==> vs[j] == json_view(#[trigger] items@[j]),
        decreases s@.len() - p,
    {
        if p >= n {
            return None;
        }
        let r = parse_value(s, p);
        match r {
            None => {
                return None;
            },
            Some((v, e)) => {
                if e <= p || e >= n {
                    return None;
                }
                let ghost vs0 = vs;
                let ghost gv = v@;
                let sep = s[e];
                items.push(v);
                proof {
                    vs = vs.push(gv);
                }
                if sep == ',' {
                    proof {
                        assert(items_inv(s@, start, vs, (e + 1) as int)) by {
                            match sparse_items(s@, (e + 1) as int) {
                                Some((rest, e2)) => {
                                    assert(sparse_items(s@, p as int) == Some::<
                                        (Seq<JsonView>, int),
                                    >((seq![gv] + rest, e2)));
                                    assert(vs0 + (seq![gv] + rest) =~= vs + rest);
                                },
                                None => {
                                    assert(sparse_items(s@, p as int) is None);
                                },
                            }
                        }
                    }
                    p = e + 1;
                } else if sep == ']' {
                    proof {
                        assert(sparse_items(s@, p as int) == Some::<
                            (Seq<JsonView>, int),
                        >((seq![gv], e + 1)));
                        assert(vs0 + seq![gv] =~= vs);
                        assert(sparse_items(s@, start) == Some::<
                            (Seq<JsonView>, int),
                        >((vs, e + 1)));
                        assert(json_views(items@) =~= vs);
                    }
                    return Some((items, e + 1));
                } else {
                    return None;
                }
            },
        }
    }
}

/// Reads a member run and the closing brace, mirroring `sparse_fields`.
#[verifier::loop_isolation(false)]
#[verifier::rlimit(100)]
fn parse_fields(s: &Vec<char>, pos: usize) -> (r: Option<(Vec<(String, JsonValue)>, usize)>)
    requires
        pos <= s@.len(),
    ensures
        match r {
            None => sparse_fields(s@, pos as int) is None,
            Some((members, e)) => sparse_fields(s@, pos as int) == Some::<
                (Seq<(Seq<char>, JsonView)>, int),
            >((json_field_views(members@), e as int)),
        },
    decreases s@.len() - pos, 3int,
{
    let n = s.len();
    let ghost start = pos as int;
    let mut members: Vec<(String, JsonValue)> = Vec::new();
    let ghost mut vs: Seq<(Seq<char>, JsonView)> = Seq::empty();
    let mut p = pos;
    proof {
        assert(fields_inv(s@, start, vs, p as int)) by {
            match sparse_fields(s@, p as int) {
                Some((rest, e)) => {
                    assert(vs + rest =~= rest);
                },
                None => {},
            }
        }
    }
    loop
        invariant
            pos <= p <= s@.len(),
            fields_inv(s@, start, vs, p as int),
            vs.len() == members@.len(),
            forall|j: int| 0 <= j < vs.len() ==> vs[j] == ((#[trigger] members@[j]).0@, json_view(
                members@[j].1,
            )),
        decreases s@.len() - p,
    {
        if p >= n {
            return None;
        }
        if s[p] != '"' {
            return None;
        }
        let rname = parse_string_body(s, p + 1);
        match rname {
            None => {
                return None;
            },
            Some((name, nend)) => {
                if nend <= p + 1 || nend >= n {
                    return None;
                }
                if s[nend] != ':' {
                    return None;
                }
                let rv = parse_value(s, nend + 1);
                match rv {
                    None => {
                        return None;
                    },
                    Some((v, vend)) => {
                        if vend <= nend + 1 || vend >= n {
                            return None;
                        }
                        let ghost vs0 = vs;
                        let ghost gname = name@;
                        let ghost gv = v@;
                        let sep = s[vend];
                        members.push((name, v));
                        proof {
                            vs = vs.push((gname, gv));
                        }
                        if sep == ',' {
                            proof {
                                assert(fields_inv(s@, start, vs, (vend + 1) as int)) by {
                                    match sparse_fields(s@, (vend + 1) as int) {
                                        Some((rest, e2)) => {
                                            assert(sparse_fields(s@, p as int) == Some::<
                                                (Seq<(Seq<char>, JsonView)>, int),
                                            >((seq![(gname, gv)] + rest, e2)));
                                            assert(vs0 + (seq![(gname, gv)] + rest) =~= vs + rest);
                                        },
                                        None => {
                                            assert(sparse_fields(s@, p as int) is None);
                                        },
                                    }
                                }
                            }
                            p = vend + 1;
                        } else if sep == '}' {
                            proof {
                                assert(sparse_fields(s@, p as int) == Some::<
                                    (Seq<(Seq<char>, JsonView)>, int),
                                >((seq![(gname, gv)], vend + 1)));
                                assert(vs0 + seq![(gname, gv)] =~= vs);
                                assert(sparse_fields(s@, start) == Some::<
                                    (Seq<(Seq<char>, JsonView)>, int),
                                >((vs, vend + 1)));
                                assert(json_field_views(members@) =~= vs);
                            }
                            return Some((members, vend + 1));
                        } else {
                            return None;
                        }
                    },
                }
            },
        }
    }
}

/// The whole-text parse of a JSON document in the compact protocol form.
pub open spec fn spec_parse_json(s: Seq<char>) -> Option<JsonView> {
    match sparse_value(s, 0) {
        Some((v, e)) => if e == s.len() {
            Some(v)
        } else {
            None
        },
        None => None,
    }
}

/// Parses a complete JSON document.
pub fn parse_json(s: &str) -> (r: Option<JsonValue>)
    ensures
        match r {
            Some(v) => spec_parse_json(s@) == Some(v@),
            None => spec_parse_json(s@) is None,
        },
{
    let chars = str_chars(s);
    match parse_value(&chars, 0) {
        Some((v, e)) => {
            if e == chars.len() {
                Some(v)
            } else {
                None
            }
        },
        None => None,
    }
}


// ------------------------------------------------------------------
// the round trip: parsing inverts writing
// ------------------------------------------------------------------
/// A character code cast back to `char` is the same character.
proof fn lemma_char_roundtrip(c: char)
    ensures
        ((c as u32) as char) == c,
{
    vstd::utf8::char_is_scalar(c);
    vstd::utf8::char_u32_cast(c, c as u32);
}

/// Characters that may follow a complete value in a JSON document.
pub open spec fn ends_value(c: char) -> bool {
    c == ',' || c == ']' || c == '}'
}

/// A segment equality carries over to any window inside the segment.
proof fn lemma_window(s: Seq<char>, p: int, t: Seq<char>, q: int, r: int)
    requires
        0 <= p,
        p + t.len() <= s.len(),
        s.subrange(p, p + t.len()) == t,
        0 <= q <= r <= t.len(),
    ensures
        s.subrange(p + q, p + r) == t.subrange(q, r),
{
    assert(s.subrange(p + q, p + r) =~= t.subrange(q, r)) by {
        assert forall|i: int| 0 <= i < r - q implies s.subrange(p + q, p + r)[i] == t.subrange(
            q,
            r,
        )[i] by {
            assert(t[q + i] == s.subrange(p, p + t.len())[q + i]);
        }
    }
}

proof fn lemma_window_char(s: Seq<char>, p: int, t: Seq<char>, i: int)
    requires
        0 <= p,
        p + t.len() <= s.len(),
        s.subrange(p, p + t.len()) == t,
        0 <= i < t.len(),
    ensures
        s[p + i] == t[i],
{
    assert(t[i] == s.subrange(p, p + t.len())[i]);
}

/// The decimal form of a number is a non-empty digit run worth the number.
proof fn lemma_digits_props(n: nat)
    ensures
        spec_digits(n).len() >= 1,
        forall|i: int| 0 <= i < spec_digits(n).len() ==> is_digit(#[trigger] spec_digits(n)[i]),
        digits_val(spec_digits(n)) == n,
    decreases n,
{
    if n < 10 {
        assert(spec_digits(n) == seq![spec_digit_char(n as int)]);
        assert(is_digit(spec_digit_char(n as int)));
        assert(spec_digits(n).last() == spec_digit_char(n as int));
        assert(spec_digits(n).drop_last() =~= Seq::<char>::empty());
        assert(digits_val(Seq::<char>::empty()) == 0);
        assert(digit_val(spec_digit_char(n as int)) == n);
        assert(digits_val(spec_digits(n)) == digits_val(spec_digits(n).drop_last()) * 10
            + digit_val(spec_digits(n).last()));
    } else {
        lemma_digits_props(n / 10);
        assert(spec_digits(n).drop_last() =~= spec_digits(n / 10));
        assert(spec_digits(n).last() == spec_digit_char((n % 10) as int));
        assert(digit_val(spec_digit_char((n % 10) as int)) == n % 10);
        assert(is_digit(spec_digit_char((n % 10) as int)));
        assert(digits_val(spec_digits(n)) == digits_val(spec_digits(n / 10)) * 10 + n % 10);
    }
}

/// A maximal digit run ends exactly where the digits stop.
proof fn lemma_digit_run_of_digits(s: Seq<char>, a: int, b: int)
    requires
        0 <= a <= b <= s.len(),
        forall|i: int| a <= i < b ==> is_digit(#[trigger] s[i]),
        b == s.len() || !is_digit(s[b]),
    ensures
        digit_run_end(s, a) == b,
    decreases b - a,
{
    if a < b {
        lemma_digit_run_of_digits(s, a + 1, b);
    }
}

/// Reading the decimal form of a 64-bit integer yields that integer.
proof fn lemma_number_complete(i: int, s: Seq<char>, pos: int)
    requires
        i64::MIN <= i <= i64::MAX,
        0 <= pos,
        pos + spec_int_chars(i).len() <= s.len(),
        s.subrange(pos, pos + spec_int_chars(i).len()) == spec_int_chars(i),
        pos + spec_int_chars(i).len() == s.len() || !is_digit(s[pos + spec_int_chars(i).len()]),
    ensures
        sparse_number(s, pos) == Some::<(JsonView, int)>((
            JsonView::Int(i),
            pos + spec_int_chars(i).len(),
        )),
{
    let t = spec_int_chars(i);
    if i < 0 {
        let n = (-i) as nat;
        lemma_digits_props(n);
        assert(t =~= seq!['-'] + spec_digits(n));
        lemma_window_char(s, pos, t, 0);
        assert(s[pos] == '-');
        assert(t.subrange(1, t.len() as int) =~= spec_digits(n));
        lemma_window(s, pos, t, 1, t.len() as int);
        assert(s.subrange(pos + 1, pos + t.len()) == spec_digits(n));
        assert forall|j: int| pos + 1 <= j < pos + t.len() implies is_digit(#[trigger] s[j]) by {
            lemma_window_char(s, pos + 1, spec_digits(n), j - pos - 1);
        }
        lemma_digit_run_of_digits(s, pos + 1, pos + t.len());
        lemma_window_char(s, pos + 1, spec_digits(n), 0);
        assert(is_digit(s[pos + 1]));
        assert(digits_val(s.subrange(pos + 1, pos + t.len())) == n);
        assert(n <= 0x8000_0000_0000_0000);
    } else {
        let n = i as nat;
        lemma_digits_props(n);
        assert(t =~= spec_digits(n));
        assert forall|j: int| pos <= j < pos + t.len() implies is_digit(#[trigger] s[j]) by {
            lemma_window_char(s, pos, spec_digits(n), j - pos);
        }
        lemma_window_char(s, pos, spec_digits(n), 0);
        assert(is_digit(s[pos]));
        assert(s[pos] != '-');
        lemma_digit_run_of_digits(s, pos, pos + t.len());
        assert(s.subrange(pos, pos + t.len()) == spec_digits(n));
        assert(digits_val(s.subrange(pos, pos + t.len())) == n);
        assert(n <= 0x7fff_ffff_ffff_ffff);
    }
}

/// Reading an escaped string body up to its closing quote yields the
/// original characters.
#[verifier::rlimit(100)]
proof fn lemma_string_complete(str: Seq<char>, s: Seq<char>, pos: int, acc: Seq<char>)
    requires
        0 <= pos,
        pos + spec_escape(str).len() + 1 <= s.len(),
        s.subrange(pos, pos + spec_escape(str).len()) == spec_escape(str),
        s[pos + spec_escape(str).len()] == '"',
    ensures
        sparse_string(s, pos, acc) == Some::<(Seq<char>, int)>((
            acc + str,
            pos + spec_escape(str).len() + 1,
        )),
    decreases str.len(),
{
    let esc = spec_escape(str);
    if str.len() == 0 {
        assert(esc.len() == 0);
        assert(acc + str =~= acc);
    } else {
        let c = str[0];
        let ec = spec_escape_char(c);
        let rest = str.skip(1);
        let l = ec.len() as int;
        assert(esc == ec + spec_escape(rest));
        assert(esc.subrange(l, esc.len() as int) =~= spec_escape(rest));
        lemma_window(s, pos, esc, l, esc.len() as int);
        lemma_string_complete(rest, s, pos + l, acc.push(c));
        assert(acc.push(c) + rest =~= acc + str);
        let cu = c as u32;
        assert(s[pos] == ec[0]) by {
            lemma_window_char(s, pos, esc, 0);
        }
        if c == '"' || c == '\\' || c == '\n' || c == '\r' || c == '\t' || cu == 8 || cu == 12 {
            assert(l == 2);
            assert(s[pos] == '\\');
            assert(s[pos + 1] == ec[1]) by {
                lemma_window_char(s, pos, esc, 1);
            }
            assert(pos + 1 < s.len());
            if c == '"' {
                assert(ec[1] == '"');
                assert(sparse_string(s, pos, acc) == sparse_string(s, pos + 2, acc.push('"')));
            } else if c == '\\' {
                assert(ec[1] == '\\');
                assert(sparse_string(s, pos, acc) == sparse_string(s, pos + 2, acc.push('\\')));
            } else if c == '\n' {
                assert(ec[1] == 'n');
                assert(sparse_string(s, pos, acc) == sparse_string(s, pos + 2, acc.push('\n')));
            } else if c == '\r' {
                assert(ec[1] == 'r');
                assert(sparse_string(s, pos, acc) == sparse_string(s, pos + 2, acc.push('\r')));
            } else if c == '\t' {
                assert(ec[1] == 't');
                assert(sparse_string(s, pos, acc) == sparse_string(s, pos + 2, acc.push('\t')));
            } else if cu == 8 {
                lemma_char_roundtrip(c);
                lemma_char_roundtrip('\u{8}');
                assert(('\u{8}' as u32) == 8);
                assert(c == '\u{8}');
                assert(ec[1] == 'b');
                assert(sparse_string(s, pos, acc) == sparse_string(s, pos + 2, acc.push('\u{8}')));
            } else {
                lemma_char_roundtrip(c);
                lemma_char_roundtrip('\u{c}');
                assert(('\u{c}' as u32) == 12);
                assert(c == '\u{c}');
                assert(ec[1] == 'f');
                assert(sparse_string(s, pos, acc) == sparse_string(s, pos + 2, acc.push('\u{c}')));
            }
            assert(sparse_string(s, pos, acc) == sparse_string(s, pos + 2, acc.push(c)));
        } else if cu < 32 {
            assert(l == 6);
            assert(s[pos] == '\\');
            assert(s[pos + 1] == 'u') by {
                lemma_window_char(s, pos, esc, 1);
            }
            assert(s[pos + 2] == '0') by {
                lemma_window_char(s, pos, esc, 2);
            }
            assert(s[pos + 3] == '0') by {
                lemma_window_char(s, pos, esc, 3);
            }
            let h1 = spec_hex_char(cu as int / 16);
            let h2 = spec_hex_char(cu as int % 16);
            assert(s[pos + 4] == h1) by {
                lemma_window_char(s, pos, esc, 4);
            }
            assert(s[pos + 5] == h2) by {
                lemma_window_char(s, pos, esc, 5);
            }
            assert(is_hex_digit('0') && hex_val('0') == 0);
            assert(is_hex_digit(h1) && hex_val(h1) == cu as int / 16);
            assert(is_hex_digit(h2) && hex_val(h2) == cu as int % 16);
            let code = hex_val(s[pos + 2]) * 4096 + hex_val(s[pos + 3]) * 256 + hex_val(
                s[pos + 4],
            ) * 16 + hex_val(s[pos + 5]);
            assert(code == cu);
            assert((code as u32) == cu);
            lemma_char_roundtrip(c);
            assert(((code as u32) as char) == c);
            assert(sparse_string(s, pos, acc) == sparse_string(s, pos + 6, acc.push(c)));
        } else {
            assert(ec =~= seq![c]);
            assert(s[pos] == c);
            assert(c != '"' && c != '\\' && cu >= 32);
            assert(sparse_string(s, pos, acc) == sparse_string(s, pos + 1, acc.push(c)));
        }
    }
}

/// No value's text is empty, and none starts with a closing bracket, brace,
/// comma or colon.
proof fn lemma_json_first_char(v: JsonView)
    ensures
        spec_json(v).len() >= 1,
        !ends_value(spec_json(v)[0]),
        spec_json(v)[0] != ':',
    decreases v,
{
    match v {
        JsonView::Int(i) => {
            if i < 0 {
                lemma_digits_props((-i) as nat);
            } else {
                lemma_digits_props(i as nat);
                assert(spec_json(v)[0] == spec_digits(i as nat)[0]);
                assert(is_digit(spec_digits(i as nat)[0]));
            }
        },
        _ => {},
    }
}

/// Reading the texts of the elements of a non-empty array, up to and over
/// the closing bracket, yields the elements.
proof fn lemma_items_complete(es: Seq<JsonView>, s: Seq<char>, pos: int)
    requires
        es.len() > 0,
        forall|i: int| 0 <= i < es.len() ==> json_wf(#[trigger] es[i]),
        0 <= pos,
        pos + spec_json_items(es).len() + 1 <= s.len(),
        s.subrange(pos, pos + spec_json_items(es).len()) == spec_json_items(es),
        s[pos + spec_json_items(es).len()] == ']',
    ensures
        sparse_items(s, pos) == Some::<(Seq<JsonView>, int)>((
            es,
            pos + spec_json_items(es).len() + 1,
        )),
    decreases es, 0int,
{
    let whole = spec_json_items(es);
    let first = es[0];
    let ft = spec_json(first);
    lemma_json_first_char(first);
    if es.len() == 1 {
        assert(whole == ft);
        lemma_value_complete(first, s, pos);
        assert(seq![first] =~= es);
    } else {
        let tail = spec_json_items(es.skip(1));
        assert(whole == ft + seq![','] + tail);
        assert(whole.subrange(0, ft.len() as int) =~= ft);
        lemma_window(s, pos, whole, 0, ft.len() as int);
        lemma_window_char(s, pos, whole, ft.len() as int);
        assert(s[pos + ft.len()] == ',');
        lemma_value_complete(first, s, pos);
        assert(whole.subrange(ft.len() as int + 1, whole.len() as int) =~= tail);
        lemma_window(s, pos, whole, ft.len() as int + 1, whole.len() as int);
        lemma_items_complete(es.skip(1), s, pos + ft.len() + 1);
        assert(seq![first] + es.skip(1) =~= es);
    }
}

/// Reading the texts of the members of a non-empty object, up to and over
/// the closing brace, yields the members.
#[verifier::rlimit(100)]
proof fn lemma_member_complete(name: Seq<char>, first: JsonView, s: Seq<char>, pos: int)
    requires
        json_wf(first),
        0 <= pos,
        pos + spec_member(name, first).len() < s.len(),
        s.subrange(pos, pos + spec_member(name, first).len()) == spec_member(name, first),
        s[pos + spec_member(name, first).len()] == ',' || s[pos + spec_member(name, first).len()]
            == '}',
    ensures
        s[pos] == '"',
        sparse_string(s, pos + 1, Seq::empty()) == Some::<(Seq<char>, int)>((
            name,
            pos + spec_escape(name).len() + 2,
        )),
        s[pos + spec_escape(name).len() + 2] == ':',
        sparse_value(s, pos + spec_escape(name).len() + 3) == Some::<(JsonView, int)>((
            first,
            pos + spec_member(name, first).len(),
        )),
    decreases first, 3int,
{
    let nesc = spec_escape(name);
    let ft = spec_json(first);
    let head = spec_member(name, first);
    assert(head == seq!['"'] + nesc + seq!['"', ':'] + ft);
    assert(s[pos] == '"') by {
        lemma_window_char(s, pos, head, 0);
        assert(head[0] == '"');
    }
    assert(head.subrange(1, nesc.len() as int + 1) =~= nesc);
    lemma_window(s, pos, head, 1, nesc.len() as int + 1);
    assert(s[pos + 1 + nesc.len()] == '"') by {
        lemma_window_char(s, pos, head, nesc.len() as int + 1);
        assert(head[nesc.len() as int + 1] == '"');
    }
    lemma_string_complete(name, s, pos + 1, Seq::empty());
    assert(Seq::empty() + name =~= name);
    assert(s[pos + nesc.len() + 2] == ':') by {
        lemma_window_char(s, pos, head, nesc.len() as int + 2);
        assert(head[nesc.len() as int + 2] == ':');
    }
    assert(head.subrange(nesc.len() as int + 3, head.len() as int) =~= ft);
    lemma_window(s, pos, head, nesc.len() as int + 3, head.len() as int);
    let vstart = pos + nesc.len() + 3;
    assert(s.subrange(vstart, vstart + ft.len()) == ft);
    assert(ends_value(s[vstart + ft.len()]));
    lemma_value_complete(first, s, vstart);
}

/// Reading the texts of the members of a non-empty object, up to and over
/// the closing brace, yields the members.
#[verifier::rlimit(100)]
proof fn lemma_fields_complete(fs: Seq<(Seq<char>, JsonView)>, s: Seq<char>, pos: int)
    requires
        fs.len() > 0,
        forall|i: int| 0 <= i < fs.len() ==> json_wf(#[trigger] fs[i].1),
        0 <= pos,
        pos + spec_json_fields(fs).len() + 1 <= s.len(),
        s.subrange(pos, pos + spec_json_fields(fs).len()) == spec_json_fields(fs),
        s[pos + spec_json_fields(fs).len()] == '}',
    ensures
        sparse_fields(s, pos) == Some::<(Seq<(Seq<char>, JsonView)>, int)>((
            fs,
            pos + spec_json_fields(fs).len() + 1,
        )),
    decreases fs, 0int,
{
    let whole = spec_json_fields(fs);
    let name = fs[0].0;
    let first = fs[0].1;
    let nesc = spec_escape(name);
    let head = spec_member(name, first);
    lemma_json_first_char(first);
    if fs.len() == 1 {
        assert(whole == head);
        lemma_member_complete(name, first, s, pos);
        assert(seq![(name, first)] =~= fs);
    } else {
        let tail = spec_json_fields(fs.skip(1));
        assert(whole == head + seq![','] + tail);
        assert(whole.subrange(0, head.len() as int) =~= head);
        lemma_window(s, pos, whole, 0, head.len() as int);
        assert(s[pos + head.len()] == ',') by {
            lemma_window_char(s, pos, whole, head.len() as int);
            assert(whole[head.len() as int] == ',');
        }
        lemma_member_complete(name, first, s, pos);
        assert(whole.subrange(head.len() as int + 1, whole.len() as int) =~= tail);
        lemma_window(s, pos, whole, head.len() as int + 1, whole.len() as int);
        lemma_fields_complete(fs.skip(1), s, pos + head.len() + 1);
        assert(seq![(name, first)] + fs.skip(1) =~= fs);
    }
}

/// Reading the text of a non-empty array yields that array.
#[verifier::rlimit(100)]
proof fn lemma_arr_complete(es: Seq<JsonView>, s: Seq<char>, pos: int)
    requires
        json_wf(JsonView::Arr(es)),
        es.len() > 0,
        0 <= pos,
        pos + spec_json(JsonView::Arr(es)).len() <= s.len(),
        s.subrange(pos, pos + spec_json(JsonView::Arr(es)).len()) == spec_json(JsonView::Arr(es)),
    ensures
        sparse_value(s, pos) == Some::<(JsonView, int)>((
            JsonView::Arr(es),
            pos + spec_json(JsonView::Arr(es)).len(),
        )),
    decreases es, 2int,
{
    let v = JsonView::Arr(es);
    let t = spec_json(v);
    let items = spec_json_items(es);
    assert(t == seq!['['] + items + seq![']']);
    assert(s[pos] == '[') by {
        lemma_window_char(s, pos, t, 0);
        assert(t[0] == '[');
    }
    lemma_json_first_char(es[0]);
    assert(items[0] == spec_json(es[0])[0]) by {
        if es.len() > 1 {
            assert(items == spec_json(es[0]) + seq![','] + spec_json_items(es.skip(1)));
        }
    }
    assert(s[pos + 1] == items[0]) by {
        lemma_window_char(s, pos, t, 1);
        assert(t[1] == items[0]);
    }
    assert(s[pos + 1] != ']');
    assert(t.subrange(1, items.len() as int + 1) =~= items);
    lemma_window(s, pos, t, 1, items.len() as int + 1);
    assert(s[pos + 1 + items.len()] == ']') by {
        lemma_window_char(s, pos, t, items.len() as int + 1);
        assert(t[items.len() as int + 1] == ']');
    }
    lemma_items_complete(es, s, pos + 1);
}

/// Reading the text of a non-empty object yields that object.
#[verifier::rlimit(100)]
proof fn lemma_obj_complete(fs: Seq<(Seq<char>, JsonView)>, s: Seq<char>, pos: int)
    requires
        json_wf(JsonView::Obj(fs)),
        fs.len() > 0,
        0 <= pos,
        pos + spec_json(JsonView::Obj(fs)).len() <= s.len(),
        s.subrange(pos, pos + spec_json(JsonView::Obj(fs)).len()) == spec_json(JsonView::Obj(fs)),
    ensures
        sparse_value(s, pos) == Some::<(JsonView, int)>((
            JsonView::Obj(fs),
            pos + spec_json(JsonView::Obj(fs)).len(),
        )),
    decreases fs, 2int,
{
    let v = JsonView::Obj(fs);
    let t = spec_json(v);
    let members = spec_json_fields(fs);
    assert(t == seq!['{'] + members + seq!['}']);
    assert(s[pos] == '{') by {
        lemma_window_char(s, pos, t, 0);
        assert(t[0] == '{');
    }
    lemma_json_first_char(fs[0].1);
    assert(members.len() >= 1) by {
        let head = spec_member(fs[0].0, fs[0].1);
        assert(head.len() >= 4);
        if fs.len() > 1 {
            assert(members == head + seq![','] + spec_json_fields(fs.skip(1)));
        }
    }
    assert(members[0] == '"') by {
        let head = spec_member(fs[0].0, fs[0].1);
        if fs.len() > 1 {
            assert(members == head + seq![','] + spec_json_fields(fs.skip(1)));
        }
        assert(head[0] == '"');
    }
    assert(s[pos + 1] == members[0]) by {
        lemma_window_char(s, pos, t, 1);
        assert(t[1] == members[0]);
    }
    assert(s[pos + 1] != '}');
    assert(t.subrange(1, members.len() as int + 1) =~= members);
    lemma_window(s, pos, t, 1, members.len() as int + 1);
    assert(s[pos + 1 + members.len()] == '}') by {
        lemma_window_char(s, pos, t, members.len() as int + 1);
        assert(t[members.len() as int + 1] == '}');
    }
    lemma_fields_complete(fs, s, pos + 1);
}

/// Reading the text of any well-formed value yields that value.
#[verifier::rlimit(100)]
proof fn lemma_value_complete(v: JsonView, s: Seq<char>, pos: int)
    requires
        json_wf(v),
        0 <= pos,
        pos + spec_json(v).len() <= s.len(),
        s.subrange(pos, pos + spec_json(v).len()) == spec_json(v),
        pos + spec_json(v).len() == s.len() || ends_value(s[pos + spec_json(v).len()]),
    ensures
        sparse_value(s, pos) == Some::<(JsonView, int)>((v, pos + spec_json(v).len())),
    decreases v, 1int,
{
    let t = spec_json(v);
    match v {
        JsonView::Null => {
            assert(s[pos] == 'n') by {
                lemma_window_char(s, pos, t, 0);
            }
            assert(s[pos + 1] == 'u') by {
                lemma_window_char(s, pos, t, 1);
            }
            assert(s[pos + 2] == 'l') by {
                lemma_window_char(s, pos, t, 2);
            }
            assert(s[pos + 3] == 'l') by {
                lemma_window_char(s, pos, t, 3);
            }
            assert(sparse_value(s, pos) == Some::<(JsonView, int)>((
                v,
                pos + spec_json(v).len(),
            )));
        },
        JsonView::Bool(b) => {
            if b {
                assert(s[pos] == 't') by {
                    lemma_window_char(s, pos, t, 0);
                }
                assert(s[pos + 1] == 'r') by {
                    lemma_window_char(s, pos, t, 1);
                }
                assert(s[pos + 2] == 'u') by {
                    lemma_window_char(s, pos, t, 2);
                }
                assert(s[pos + 3] == 'e') by {
                    lemma_window_char(s, pos, t, 3);
                }
            } else {
                assert(s[pos] == 'f') by {
                    lemma_window_char(s, pos, t, 0);
                }
                assert(s[pos + 1] == 'a') by {
                    lemma_window_char(s, pos, t, 1);
                }
                assert(s[pos + 2] == 'l') by {
                    lemma_window_char(s, pos, t, 2);
                }
                assert(s[pos + 3] == 's') by {
                    lemma_window_char(s, pos, t, 3);
                }
                assert(s[pos + 4] == 'e') by {
                    lemma_window_char(s, pos, t, 4);
                }
            }
            assert(sparse_value(s, pos) == Some::<(JsonView, int)>((
                v,
                pos + spec_json(v).len(),
            )));
        },
        JsonView::Int(i) => {
            lemma_number_complete(i, s, pos);
            if i < 0 {
                assert(s[pos] == '-') by {
                    lemma_window_char(s, pos, t, 0);
                    assert(t[0] == '-');
                }
            } else {
                lemma_digits_props(i as nat);
                assert(is_digit(s[pos])) by {
                    lemma_window_char(s, pos, t, 0);
                }
            }
            assert(sparse_value(s, pos) == Some::<(JsonView, int)>((
                v,
                pos + spec_json(v).len(),
            )));
        },
        JsonView::Str(st) => {
            let esc = spec_escape(st);
            assert(t == seq!['"'] + esc + seq!['"']);
            assert(s[pos] == '"') by {
                lemma_window_char(s, pos, t, 0);
                assert(t[0] == '"');
            }
            assert(t.subrange(1, esc.len() as int + 1) =~= esc);
            lemma_window(s, pos, t, 1, esc.len() as int + 1);
            assert(s[pos + 1 + esc.len()] == '"') by {
                lemma_window_char(s, pos, t, esc.len() as int + 1);
                assert(t[esc.len() as int + 1] == '"');
            }
            lemma_string_complete(st, s, pos + 1, Seq::empty());
            assert(Seq::empty() + st =~= st);
            assert(sparse_value(s, pos) == Some::<(JsonView, int)>((
                v,
                pos + spec_json(v).len(),
            )));
        },
        JsonView::Arr(es) => {
            if es.len() == 0 {
                assert(s[pos] == '[') by {
                    lemma_window_char(s, pos, t, 0);
                    assert(t[0] == '[');
                }
                assert(spec_json_items(es) =~= Seq::<char>::empty());
                assert(t =~= seq!['[', ']']);
                assert(s[pos + 1] == ']') by {
                    lemma_window_char(s, pos, t, 1);
                }
                assert(es =~= Seq::<JsonView>::empty());
            } else {
                lemma_arr_complete(es, s, pos);
            }
        },
        JsonView::Obj(fs) => {
            if fs.len() == 0 {
                assert(s[pos] == '{') by {
                    lemma_window_char(s, pos, t, 0);
                    assert(t[0] == '{');
                }
                assert(spec_json_fields(fs) =~= Seq::<char>::empty());
                assert(t =~= seq!['{', '}']);
                assert(s[pos + 1] == '}') by {
                    lemma_window_char(s, pos, t, 1);
                }
                assert(fs =~= Seq::<(Seq<char>, JsonView)>::empty());
            } else {
                lemma_obj_complete(fs, s, pos);
            }
        },
    }
}

/// The JSON round trip: the compact text of any well-formed value parses
/// back to exactly that value.
pub proof fn lemma_json_round_trip(v: JsonView)
    requires
        json_wf(v),
    ensures
        spec_parse_json(spec_json(v)) == Some(v),
{
    let s = spec_json(v);
    assert(s.subrange(0, s.len() as int) =~= s);
    lemma_value_complete(v, s, 0);
}


/// The view of an array value is the run of its elements' views.
pub proof fn lemma_arr_view(es: Vec<JsonValue>)
    ensures
        (JsonValue::Arr(es)@ -> Arr_0) =~= json_views(es@),
{
}

/// The view of an object value is the run of its members' views.
pub proof fn lemma_obj_view(fs: Vec<(String, JsonValue)>)
    ensures
        (JsonValue::Obj(fs)@ -> Obj_0) =~= json_field_views(fs@),
{
}


/// The decimal text of a number.
pub fn write_digits_string(n: u64) -> (r: String)
    ensures
        r@ == spec_digits(n as nat),
{
    let mut out = String::new();
    write_digits(n, &mut out);
    proof {
        assert(Seq::<char>::empty() + spec_digits(n as nat) =~= spec_digits(n as nat));
    }
    out
}

/// Every character of a decimal digit run is a decimal digit.
pub proof fn lemma_digits_all(n: nat)
    ensures
        spec_digits(n).len() >= 1,
        forall|i: int| 0 <= i < spec_digits(n).len() ==> is_digit(#[trigger] spec_digits(n)[i]),
{
    lemma_digits_props(n);
}

} // verus!
