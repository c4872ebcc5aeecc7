//! The JSON document model and its wire text.
//!
//! The wire protocol is JSON-RPC 2.0, one message per line of UTF-8 text, so
//! the runtime carries structured documents as [`JsonValue`] trees and owns
//! their rendering to and from text.  The serializer is total; the parser
//! rejects any line that is not a single well-formed document.
//!
//! Numbers are 64-bit signed integers: the protocol itself uses only integer
//! ids and error codes, and schema documents are carried through without
//! interpretation.  A number that is a plain integer in the i64 range is
//! held as one; any other number — a fraction, an exponent, an integer
//! beyond the i64 range — is carried through verbatim as its lexeme.
//! String escapes cover the whole range: a surrogate pair stands for its
//! character, and only a lone or ill-formed surrogate escape is rejected.

use vstd::prelude::*;

verus! {

/// An arbitrary JSON document.
#[derive(Debug, PartialEq, Eq)]
pub enum JsonValue {
    Null,
    Bool(bool),
    Int(i64),
    /// A number the integer model cannot hold, kept as its verbatim
    /// lexeme and re-serialized unchanged.
    Num(String),
    Str(String),
    Arr(Vec<JsonValue>),
    Obj(Vec<(String, JsonValue)>),
}

/// The mathematical shape of a [`JsonValue`]: the same tree over `Seq`.
pub enum JsonView {
    Null,
    Bool(bool),
    Int(int),
    Num(Seq<char>),
    Str(Seq<char>),
    Arr(Seq<JsonView>),
    Obj(Seq<(Seq<char>, JsonView)>),
}

/// The view of one document node.
pub open spec fn view_of(v: JsonValue) -> JsonView
    decreases v,
{
    match v {
        JsonValue::Null => JsonView::Null,
        JsonValue::Bool(b) => JsonView::Bool(b),
        JsonValue::Int(i) => JsonView::Int(i as int),
        JsonValue::Num(t) => JsonView::Num(t@),
        JsonValue::Str(s) => JsonView::Str(s@),
        JsonValue::Arr(items) => JsonView::Arr(views_of(items@)),
        JsonValue::Obj(entries) => JsonView::Obj(entry_views_of(entries@)),
    }
}

/// The views of a sequence of document nodes, in order.
pub open spec fn views_of(items: Seq<JsonValue>) -> Seq<JsonView>
    decreases items,
{
    if items.len() == 0 {
        Seq::empty()
    } else {
        views_of(items.drop_last()).push(view_of(items.last()))
    }
}

/// The views of a sequence of object entries, in order.
pub open spec fn entry_views_of(entries: Seq<(String, JsonValue)>) -> Seq<(Seq<char>, JsonView)>
    decreases entries,
{
    if entries.len() == 0 {
        Seq::empty()
    } else {
        entry_views_of(entries.drop_last()).push(
            (entries.last().0@, view_of(entries.last().1)),
        )
    }
}

impl View for JsonValue {
    type V = JsonView;

    open spec fn view(&self) -> JsonView {
        view_of(*self)
    }
}

pub broadcast proof fn lemma_views_of(items: Seq<JsonValue>)
    ensures
        (#[trigger] views_of(items)).len() == items.len(),
        forall|i: int|
            0 <= i < items.len() ==> views_of(items)[i] == view_of(items[i]),
    decreases items.len(),
{
    if items.len() > 0 {
        lemma_views_of(items.drop_last());
    }
}

pub broadcast proof fn lemma_entry_views_of(entries: Seq<(String, JsonValue)>)
    ensures
        (#[trigger] entry_views_of(entries)).len() == entries.len(),
        forall|i: int|
            0 <= i < entries.len() ==> entry_views_of(entries)[i] == (
                entries[i].0@,
                view_of(entries[i].1),
            ),
    decreases entries.len(),
{
    if entries.len() > 0 {
        lemma_entry_views_of(entries.drop_last());
    }
}

/// The decimal digit with value `n` (0 through 9).
pub open spec fn digit_char(n: int) -> char {
    if n == 0 { '0' }
    else if n == 1 { '1' }
    else if n == 2 { '2' }
    else if n == 3 { '3' }
    else if n == 4 { '4' }
    else if n == 5 { '5' }
    else if n == 6 { '6' }
    else if n == 7 { '7' }
    else if n == 8 { '8' }
    else { '9' }
}

/// The lower-case hexadecimal digit with value `n` (0 through 15).
pub open spec fn hex_char(n: int) -> char {
    if n < 10 { digit_char(n) }
    else if n == 10 { 'a' }
    else if n == 11 { 'b' }
    else if n == 12 { 'c' }
    else if n == 13 { 'd' }
    else if n == 14 { 'e' }
    else { 'f' }
}

/// The decimal digits of `n`, most significant first.
pub open spec fn dec_digits(n: nat) -> Seq<char>
    decreases n,
{
    if n < 10 {
        seq![digit_char(n as int)]
    } else {
        dec_digits(n / 10).push(digit_char((n % 10) as int))
    }
}

/// The JSON text of the integer `i`: a minus sign when negative, then the
/// decimal digits without leading zeros.
pub open spec fn int_text(i: int) -> Seq<char> {
    if i < 0 {
        seq!['-'] + dec_digits((-i) as nat)
    } else {
        dec_digits(i as nat)
    }
}

/// How one character of a string is written inside JSON quotes: the quote,
/// the backslash and the control characters are escaped, everything else
/// stands for itself.
pub open spec fn escaped_char(c: char) -> Seq<char> {
    if c == '"' {
        seq!['\\', '"']
    } else if c == '\\' {
        seq!['\\', '\\']
    } else if c == '\n' {
        seq!['\\', 'n']
    } else if c == '\r' {
        seq!['\\', 'r']
    } else if c == '\t' {
        seq!['\\', 't']
    } else if (c as u32) < 0x20 {
        seq!['\\', 'u', '0', '0', hex_char((c as u32) as int / 16), hex_char((c as u32) as int % 16)]
    } else {
        seq![c]
    }
}

/// The body of a JSON string: each character escaped as needed.
pub open spec fn escape_text(s: Seq<char>) -> Seq<char>
    decreases s.len(),
{
    if s.len() == 0 {
        Seq::empty()
    } else {
        escape_text(s.drop_last()) + escaped_char(s.last())
    }
}

/// The JSON text of a document: the unique rendering this runtime writes,
/// with no whitespace between tokens and object entries in their stored
/// order.
pub open spec fn json_text(v: JsonView) -> Seq<char>
    decreases v,
{
    match v {
        JsonView::Null => seq!['n', 'u', 'l', 'l'],
        JsonView::Bool(b) => if b {
            seq!['t', 'r', 'u', 'e']
        } else {
            seq!['f', 'a', 'l', 's', 'e']
        },
        JsonView::Int(i) => int_text(i),
        JsonView::Num(t) => t,
        JsonView::Str(s) => seq!['"'] + escape_text(s) + seq!['"'],
        JsonView::Arr(items) => seq!['['] + arr_text(items) + seq![']'],
        JsonView::Obj(entries) => seq!['{'] + obj_text(entries) + seq!['}'],
    }
}

/// The comma-separated texts of array elements.
pub open spec fn arr_text(items: Seq<JsonView>) -> Seq<char>
    decreases items,
{
    if items.len() == 0 {
        Seq::empty()
    } else if items.len() == 1 {
        json_text(items[0])
    } else {
        arr_text(items.drop_last()) + seq![','] + json_text(items.last())
    }
}

/// The text of one object entry: the quoted key, a colon, the value.
pub open spec fn entry_text(e: (Seq<char>, JsonView)) -> Seq<char>
    decreases e,
{
    seq!['"'] + escape_text(e.0) + seq!['"', ':'] + json_text(e.1)
}

/// The comma-separated texts of object entries.
pub open spec fn obj_text(entries: Seq<(Seq<char>, JsonView)>) -> Seq<char>
    decreases entries,
{
    if entries.len() == 0 {
        Seq::empty()
    } else if entries.len() == 1 {
        entry_text(entries[0])
    } else {
        obj_text(entries.drop_last()) + seq![','] + entry_text(entries.last())
    }
}

/// Relies on String::push: appends exactly the given character.
#[verifier::external_body]
fn push_char(s: &mut String, c: char)
    ensures
        final(s)@ == old(s)@.push(c),
{
    s.push(c);
}

/// Builds the string holding exactly the given characters.
pub fn chars_to_string(v: &Vec<char>) -> (r: String)
    ensures
        r@ == v@,
{
    let mut r = String::new();
    let mut i: usize = 0;
    while i < v.len()
        invariant
            i <= v.len(),
            r@ == v@.subrange(0, i as int),
        decreases v.len() - i,
    {
        push_char(&mut r, v[i]);
        proof {
            assert(v@.subrange(0, i as int).push(v@[i as int]) =~= v@.subrange(0, i + 1 as int));
        }
        i = i + 1;
    }
    proof {
        assert(v@.subrange(0, v@.len() as int) =~= v@);
    }
    r
}

/// Reads a string out into its characters.
pub fn str_to_chars(s: &str) -> (r: Vec<char>)
    ensures
        r@ == s@,
{
    let n = s.unicode_len();
    let mut r: Vec<char> = Vec::new();
    let mut i: usize = 0;
    while i < n
        invariant
            n == s@.len(),
            i <= n,
            r@ == s@.subrange(0, i as int),
        decreases n - i,
    {
        r.push(s.get_char(i));
        proof {
            assert(s@.subrange(0, i as int).push(s@[i as int]) =~= s@.subrange(0, i + 1 as int));
        }
        i = i + 1;
    }
    proof {
        assert(s@.subrange(0, s@.len() as int) =~= s@);
    }
    r
}

/// The decimal digit character with value `d`.
fn digit_char_exec(d: u64) -> (c: char)
    requires
        d < 10,
    ensures
        c == digit_char(d as int),
{
    if d == 0 { '0' }
    else if d == 1 { '1' }
    else if d == 2 { '2' }
    else if d == 3 { '3' }
    else if d == 4 { '4' }
    else if d == 5 { '5' }
    else if d == 6 { '6' }
    else if d == 7 { '7' }
    else if d == 8 { '8' }
    else { '9' }
}

/// The lower-case hexadecimal digit character with value `d`.
fn hex_char_exec(d: u32) -> (c: char)
    requires
        d < 16,
    ensures
        c == hex_char(d as int),
{
    if d < 10 {
        if d == 0 { '0' }
        else if d == 1 { '1' }
        else if d == 2 { '2' }
        else if d == 3 { '3' }
        else if d == 4 { '4' }
        else if d == 5 { '5' }
        else if d == 6 { '6' }
        else if d == 7 { '7' }
        else if d == 8 { '8' }
        else { '9' }
    } else if d == 10 { 'a' }
    else if d == 11 { 'b' }
    else if d == 12 { 'c' }
    else if d == 13 { 'd' }
    else if d == 14 { 'e' }
    else { 'f' }
}

/// Appends the decimal digits of `n`, most significant first.
fn write_uint(n: u64, out: &mut Vec<char>)
    ensures
        final(out)@ == old(out)@ + dec_digits(n as nat),
    decreases n,
{
    if n < 10 {
        out.push(digit_char_exec(n));
        proof {
            assert(old(out)@.push(digit_char(n as int)) =~= old(out)@ + dec_digits(n as nat));
        }
    } else {
        write_uint(n / 10, out);
        out.push(digit_char_exec(n % 10));
        proof {
            assert((old(out)@ + dec_digits(n as nat / 10)).push(digit_char((n % 10) as int))
                =~= old(out)@ + dec_digits(n as nat));
        }
    }
}

/// Appends the JSON text of the integer `i`.
fn write_int(i: i64, out: &mut Vec<char>)
    ensures
        final(out)@ == old(out)@ + int_text(i as int),
{
    if i < 0 {
        out.push('-');
        let m: u64 = if i == i64::MIN {
            9223372036854775808
        } else {
            (-i) as u64
        };
        assert(m as nat == (-(i as int)) as nat);
        write_uint(m, out);
        proof {
            assert(old(out)@.push('-') + dec_digits(m as nat) =~= old(out)@ + int_text(i as int));
        }
    } else {
        write_uint(i as u64, out);
    }
}

/// Appends the body of a JSON string: each character escaped as needed.
fn write_escaped(s: &String, out: &mut Vec<char>)
    ensures
        final(out)@ == old(out)@ + escape_text(s@),
{
    let ghost orig: Seq<char> = out@;
    let n = s.as_str().unicode_len();
    let mut i: usize = 0;
    while i < n
        invariant
            n == s@.len(),
            i <= n,
            out@ == orig + escape_text(s@.subrange(0, i as int)),
        decreases n - i,
    {
        let ghost before: Seq<char> = out@;
        let c = s.as_str().get_char(i);
        if c == '"' {
            out.push('\\');
            out.push('"');
        } else if c == '\\' {
            out.push('\\');
            out.push('\\');
        } else if c == '\n' {
            out.push('\\');
            out.push('n');
        } else if c == '\r' {
            out.push('\\');
            out.push('r');
        } else if c == '\t' {
            out.push('\\');
            out.push('t');
        } else if (c as u32) < 0x20 {
            out.push('\\');
            out.push('u');
            out.push('0');
            out.push('0');
            out.push(hex_char_exec((c as u32) / 16));
            out.push(hex_char_exec((c as u32) % 16));
        } else {
            out.push(c);
        }
        proof {
            assert(out@ =~= before + escaped_char(s@[i as int]));
            assert(s@.subrange(0, i + 1 as int).drop_last() =~= s@.subrange(0, i as int));
            assert(s@.subrange(0, i + 1 as int).last() == s@[i as int]);
            assert(out@ =~= orig + escape_text(s@.subrange(0, i + 1 as int)));
        }
        i = i + 1;
    }
    proof {
        assert(s@.subrange(0, s@.len() as int) =~= s@);
    }
}

/// Appends the characters of `s` unchanged.
fn write_raw(s: &String, out: &mut Vec<char>)
    ensures
        final(out)@ == old(out)@ + s@,
{
    let ghost orig: Seq<char> = out@;
    let n = s.as_str().unicode_len();
    let mut i: usize = 0;
    while i < n
        invariant
            n == s@.len(),
            i <= n,
            out@ == orig + s@.subrange(0, i as int),
        decreases n - i,
    {
        out.push(s.as_str().get_char(i));
        proof {
            assert(s@.subrange(0, i as int).push(s@[i as int]) =~= s@.subrange(0, i + 1 as int));
        }
        i = i + 1;
    }
    proof {
        assert(s@.subrange(0, s@.len() as int) =~= s@);
    }
}

/// Appends the JSON text of the document `v`.
fn write_json(v: &JsonValue, out: &mut Vec<char>)
    ensures
        final(out)@ == old(out)@ + json_text(v@),
    decreases *v,
{
    match v {
        JsonValue::Null => {
            out.push('n');
            out.push('u');
            out.push('l');
            out.push('l');
            proof {
                assert(out@ =~= old(out)@ + json_text(v@));
            }
        },
        JsonValue::Bool(b) => {
            if *b {
                out.push('t');
                out.push('r');
                out.push('u');
                out.push('e');
            } else {
                out.push('f');
                out.push('a');
                out.push('l');
                out.push('s');
                out.push('e');
            }
            proof {
                assert(out@ =~= old(out)@ + json_text(v@));
            }
        },
        JsonValue::Int(i) => {
            write_int(*i, out);
        },
        JsonValue::Num(t) => {
            write_raw(t, out);
        },
        JsonValue::Str(s) => {
            out.push('"');
            write_escaped(s, out);
            out.push('"');
            proof {
                assert(out@ =~= old(out)@ + json_text(v@));
            }
        },
        JsonValue::Arr(items) => {
            out.push('[');
            write_arr(items, out);
            out.push(']');
            proof {
                assert(out@ =~= old(out)@ + json_text(v@));
            }
        },
        JsonValue::Obj(entries) => {
            out.push('{');
            write_obj(entries, out);
            out.push('}');
            proof {
                assert(out@ =~= old(out)@ + json_text(v@));
            }
        },
    }
}

/// Appends the comma-separated texts of the array elements.
fn write_arr(items: &Vec<JsonValue>, out: &mut Vec<char>)
    ensures
        final(out)@ == old(out)@ + arr_text(views_of(items@)),
    decreases items@,
{
    broadcast use lemma_views_of;

    let ghost orig: Seq<char> = out@;
    let n = items.len();
    let mut k: usize = 0;
    while k < n
        invariant
            n == items@.len(),
            k <= n,
            out@ == orig + arr_text(views_of(items@).subrange(0, k as int)),
        decreases n - k,
    {
        if k > 0 {
            out.push(',');
        }
        write_json(&items[k], out);
        proof {
            lemma_views_of(items@);
            let vs = views_of(items@);
            assert(vs.subrange(0, k + 1 as int).drop_last() =~= vs.subrange(0, k as int));
            assert(vs.subrange(0, k + 1 as int).last() == vs[k as int]);
            if k == 0 {
                assert(out@ =~= orig + arr_text(vs.subrange(0, 1int)));
            } else {
                assert(out@ =~= orig + arr_text(vs.subrange(0, k + 1 as int)));
            }
        }
        k = k + 1;
    }
    proof {
        let vs = views_of(items@);
        assert(vs.subrange(0, vs.len() as int) =~= vs);
    }
}

/// Appends the comma-separated texts of the object entries.
fn write_obj(entries: &Vec<(String, JsonValue)>, out: &mut Vec<char>)
    ensures
        final(out)@ == old(out)@ + obj_text(entry_views_of(entries@)),
    decreases entries@,
{
    broadcast use lemma_entry_views_of;

    let ghost orig: Seq<char> = out@;
    let n = entries.len();
    let mut k: usize = 0;
    while k < n
        invariant
            n == entries@.len(),
            k <= n,
            out@ == orig + obj_text(entry_views_of(entries@).subrange(0, k as int)),
        decreases n - k,
    {
        let ghost before: Seq<char> = out@;
        if k > 0 {
            out.push(',');
        }
        out.push('"');
        write_escaped(&entries[k].0, out);
        out.push('"');
        out.push(':');
        write_json(&entries[k].1, out);
        proof {
            lemma_entry_views_of(entries@);
            let vs = entry_views_of(entries@);
            assert(vs[k as int] == (entries@[k as int].0@, view_of(entries@[k as int].1)));
            assert(out@ =~= before + (if k > 0 { seq![','] } else { Seq::<char>::empty() })
                + entry_text(vs[k as int]));
            assert(vs.subrange(0, k + 1 as int).drop_last() =~= vs.subrange(0, k as int));
            assert(vs.subrange(0, k + 1 as int).last() == vs[k as int]);
            assert(out@ =~= orig + obj_text(vs.subrange(0, k + 1 as int)));
        }
        k = k + 1;
    }
    proof {
        let vs = entry_views_of(entries@);
        assert(vs.subrange(0, vs.len() as int) =~= vs);
    }
}

/// Renders a document as one line of JSON text: the runtime's unique
/// rendering, with no whitespace and object entries in stored order.
pub fn to_json_text(v: &JsonValue) -> (r: String)
    ensures
        r@ == json_text(v@),
{
    let mut out: Vec<char> = Vec::new();
    write_json(v, &mut out);
    chars_to_string(&out)
}

/// Renders an integer as its decimal text.
pub fn int_to_string(i: i64) -> (r: String)
    ensures
        r@ == int_text(i as int),
{
    let mut out: Vec<char> = Vec::new();
    write_int(i, &mut out);
    chars_to_string(&out)
}

/// JSON whitespace.
pub open spec fn is_ws(c: char) -> bool {
    c == ' ' || c == '\t' || c == '\n' || c == '\r'
}

/// A decimal digit.
pub open spec fn is_digit(c: char) -> bool {
    48 <= c as u32 <= 57
}

/// The value of a decimal digit.
pub open spec fn digit_val(c: char) -> int {
    c as u32 - 48
}

/// A hexadecimal digit, either case.
pub open spec fn is_hex(c: char) -> bool {
    is_digit(c) || (97 <= c as u32 <= 102) || (65 <= c as u32 <= 70)
}

/// The value of a hexadecimal digit.
pub open spec fn hex_val(c: char) -> int {
    if is_digit(c) {
        c as u32 - 48
    } else if 97 <= c as u32 {
        c as u32 - 87
    } else {
        c as u32 - 55
    }
}

/// The character a short escape stands for.
pub open spec fn escape_code(e: char) -> char {
    if e == '"' { '"' }
    else if e == '\\' { '\\' }
    else if e == '/' { '/' }
    else if e == 'b' { '\u{0008}' }
    else if e == 'f' { '\u{000C}' }
    else if e == 'n' { '\n' }
    else if e == 'r' { '\r' }
    else { '\t' }
}

/// The character with code point `x`.
pub open spec fn code_char(x: int) -> char {
    (x as u32) as char
}

/// The first index at or after `i` that does not hold whitespace.
pub open spec fn ws_end(s: Seq<char>, i: int) -> int
    decreases s.len() - i,
{
    if 0 <= i < s.len() && is_ws(s[i]) {
        ws_end(s, i + 1)
    } else {
        i
    }
}

/// The first index at or after `i` that does not hold a decimal digit.
pub open spec fn digits_end(s: Seq<char>, i: int) -> int
    decreases s.len() - i,
{
    if 0 <= i < s.len() && is_digit(s[i]) {
        digits_end(s, i + 1)
    } else {
        i
    }
}

/// The value of the digits at indexes `a` through `b` (exclusive), read as
/// one decimal number.
pub open spec fn digits_val(s: Seq<char>, a: int, b: int) -> int
    decreases b - a,
{
    if b <= a {
        0
    } else {
        digits_val(s, a, b - 1) * 10 + digit_val(s[b - 1])
    }
}

/// Ten to the `k`.
pub open spec fn pow10(k: nat) -> int
    decreases k,
{
    if k == 0 {
        1
    } else {
        10 * pow10((k - 1) as nat)
    }
}

proof fn lemma_pow10_mono(j: nat, k: nat)
    requires
        j <= k,
    ensures
        1 <= pow10(j) <= pow10(k),
    decreases k,
{
    if k > 0 {
        if j == k {
            lemma_pow10_mono((j - 1) as nat, (k - 1) as nat);
        } else {
            lemma_pow10_mono(j, (k - 1) as nat);
        }
    }
}

proof fn lemma_pow10_19()
    ensures
        pow10(19) == 10000000000000000000,
{
    reveal_with_fuel(pow10, 21);
}

proof fn lemma_digits_val_bound(s: Seq<char>, a: int, b: int)
    requires
        a <= b,
        forall|k: int| a <= k < b ==> is_digit(#[trigger] s[k]),
    ensures
        0 <= digits_val(s, a, b) < pow10((b - a) as nat),
    decreases b - a,
{
    if b <= a {
    } else {
        lemma_digits_val_bound(s, a, b - 1);
    }
}

/// What remains of a JSON string after its opening quote: the decoded
/// characters and the index just past the closing quote.  Unterminated
/// text, a raw control character, an unknown escape, a surrogate code
/// point, or a short hexadecimal escape all fail.
pub open spec fn parse_str_body(s: Seq<char>, i: int) -> Option<(Seq<char>, int)>
    decreases s.len() - i,
{
    if i < 0 || i >= s.len() {
        None
    } else {
        let c = s[i];
        if c == '"' {
            Some((Seq::empty(), i + 1))
        } else if c == '\\' {
            if i + 1 >= s.len() {
                None
            } else {
                let e = s[i + 1];
                if e == '"' || e == '\\' || e == '/' || e == 'b' || e == 'f' || e == 'n'
                    || e == 'r' || e == 't' {
                    match parse_str_body(s, i + 2) {
                        None => None,
                        Some((rest, j)) => Some((seq![escape_code(e)] + rest, j)),
                    }
                } else if e == 'u' {
                    if i + 6 > s.len() {
                        None
                    } else if !(is_hex(s[i + 2]) && is_hex(s[i + 3]) && is_hex(s[i + 4])
                        && is_hex(s[i + 5])) {
                        None
                    } else {
                        let x = hex_val(s[i + 2]) * 4096 + hex_val(s[i + 3]) * 256 + hex_val(
                            s[i + 4],
                        ) * 16 + hex_val(s[i + 5]);
                        if x < 0xD800 || x >= 0xE000 {
                            match parse_str_body(s, i + 6) {
                                None => None,
                                Some((rest, j)) => Some((seq![code_char(x)] + rest, j)),
                            }
                        } else if x < 0xDC00 {
                            // a high surrogate: the low-surrogate escape of
                            // the pair must follow at once
                            if i + 12 > s.len() {
                                None
                            } else if !(s[i + 6] == '\\' && s[i + 7] == 'u' && is_hex(s[i + 8])
                                && is_hex(s[i + 9]) && is_hex(s[i + 10]) && is_hex(s[i + 11])) {
                                None
                            } else {
                                let y = hex_val(s[i + 8]) * 4096 + hex_val(s[i + 9]) * 256
                                    + hex_val(s[i + 10]) * 16 + hex_val(s[i + 11]);
                                if 0xDC00 <= y < 0xE000 {
                                    let c2 = code_char(
                                        0x10000 + (x - 0xD800) * 0x400 + (y - 0xDC00),
                                    );
                                    match parse_str_body(s, i + 12) {
                                        None => None,
                                        Some((rest, j)) => Some((seq![c2] + rest, j)),
                                    }
                                } else {
                                    None
                                }
                            }
                        } else {
                            None
                        }
                    }
                } else {
                    None
                }
            }
        } else if (c as u32) < 0x20 {
            None
        } else {
            match parse_str_body(s, i + 1) {
                None => None,
                Some((rest, j)) => Some((seq![c] + rest, j)),
            }
        }
    }
}

/// The end of the fraction and exponent tail that may follow the integer
/// digits ending at `e1`, or nothing when a fraction point or an exponent
/// mark is not followed by digits.
pub open spec fn num_tail_end(s: Seq<char>, e1: int) -> Option<int> {
    let e2o = if e1 < s.len() && s[e1] == '.' {
        let f = digits_end(s, e1 + 1);
        if f == e1 + 1 {
            Option::<int>::None
        } else {
            Some(f)
        }
    } else {
        Some(e1)
    };
    match e2o {
        None => None,
        Some(e2) => {
            if e2 < s.len() && (s[e2] == 'e' || s[e2] == 'E') {
                let x0 = if e2 + 1 < s.len() && (s[e2 + 1] == '+' || s[e2 + 1] == '-') {
                    e2 + 2
                } else {
                    e2 + 1
                };
                let g = digits_end(s, x0);
                if g == x0 {
                    None
                } else {
                    Some(g)
                }
            } else {
                Some(e2)
            }
        },
    }
}

/// The number beginning at index `i`: an optional minus sign, digits
/// without a leading zero, then an optional fraction and exponent.  A
/// plain integer in the i64 range becomes an integer; any other number is
/// carried verbatim as its lexeme.
pub open spec fn parse_num(s: Seq<char>, i: int) -> Option<(JsonView, int)> {
    if i < 0 || i >= s.len() {
        None
    } else {
        let neg = s[i] == '-';
        let d0 = if neg { i + 1 } else { i };
        let e1 = digits_end(s, d0);
        if e1 == d0 {
            None
        } else if s[d0] == '0' && e1 > d0 + 1 {
            None
        } else {
            match num_tail_end(s, e1) {
                None => None,
                Some(e3) => {
                    if e3 == e1 && e1 - d0 <= 19 {
                        let m = digits_val(s, d0, e1);
                        let val = if neg { -m } else { m };
                        if -0x8000000000000000 <= val <= 0x7fffffffffffffff {
                            Some((JsonView::Int(val), e1))
                        } else {
                            Some((JsonView::Num(s.subrange(i, e1)), e1))
                        }
                    } else {
                        Some((JsonView::Num(s.subrange(i, e3)), e3))
                    }
                },
            }
        }
    }
}

/// How deep containers may nest: a document that opens more than this
/// many arrays and objects inside one another is rejected rather than
/// followed arbitrarily deep.
pub const MAX_NESTING_DEPTH: usize = 128;

/// The document beginning at index `i` (leading whitespace allowed): its
/// view and the index just past it.  `depth` is the nesting allowance
/// still open; each array or object consumes one level.
pub open spec fn parse_val(s: Seq<char>, i: int, depth: int) -> Option<(JsonView, int)>
    decreases s.len() - i, 2int,
{
    let j = ws_end(s, i);
    if j < i || j >= s.len() {
        None
    } else {
        let c = s[j];
        if c == 'n' {
            if j + 4 <= s.len() && s[j + 1] == 'u' && s[j + 2] == 'l' && s[j + 3] == 'l' {
                Some((JsonView::Null, j + 4))
            } else {
                None
            }
        } else if c == 't' {
            if j + 4 <= s.len() && s[j + 1] == 'r' && s[j + 2] == 'u' && s[j + 3] == 'e' {
                Some((JsonView::Bool(true), j + 4))
            } else {
                None
            }
        } else if c == 'f' {
            if j + 5 <= s.len() && s[j + 1] == 'a' && s[j + 2] == 'l' && s[j + 3] == 's'
                && s[j + 4] == 'e' {
                Some((JsonView::Bool(false), j + 5))
            } else {
                None
            }
        } else if c == '"' {
            match parse_str_body(s, j + 1) {
                None => None,
                Some((cs, k)) => Some((JsonView::Str(cs), k)),
            }
        } else if c == '-' || is_digit(c) {
            parse_num(s, j)
        } else if c == '[' {
            if depth <= 0 {
                None
            } else {
                let a = ws_end(s, j + 1);
                if a < j + 1 {
                    None
                } else if a < s.len() && s[a] == ']' {
                    Some((JsonView::Arr(Seq::empty()), a + 1))
                } else {
                    match parse_arr(s, j + 1, depth - 1) {
                        None => None,
                        Some((items, k)) => Some((JsonView::Arr(items), k)),
                    }
                }
            }
        } else if c == '{' {
            if depth <= 0 {
                None
            } else {
                let a = ws_end(s, j + 1);
                if a < j + 1 {
                    None
                } else if a < s.len() && s[a] == '}' {
                    Some((JsonView::Obj(Seq::empty()), a + 1))
                } else {
                    match parse_obj(s, j + 1, depth - 1) {
                        None => None,
                        Some((entries, k)) => Some((JsonView::Obj(entries), k)),
                    }
                }
            }
        } else {
            None
        }
    }
}

/// One or more comma-separated array elements beginning at index `i`,
/// up to and including the closing bracket.
pub open spec fn parse_arr(s: Seq<char>, i: int, depth: int) -> Option<(Seq<JsonView>, int)>
    decreases s.len() - i, 3int,
{
    match parse_val(s, i, depth) {
        None => None,
        Some((v, j)) => {
            if j <= i {
                None
            } else {
                let j2 = ws_end(s, j);
                if j2 < j || j2 >= s.len() {
                    None
                } else if s[j2] == ']' {
                    Some((seq![v], j2 + 1))
                } else if s[j2] == ',' {
                    match parse_arr(s, j2 + 1, depth) {
                        None => None,
                        Some((rest, k)) => Some((seq![v] + rest, k)),
                    }
                } else {
                    None
                }
            }
        },
    }
}

/// One or more comma-separated object entries beginning at index `i`,
/// up to and including the closing brace.
pub open spec fn parse_obj(s: Seq<char>, i: int, depth: int) -> Option<(
    Seq<(Seq<char>, JsonView)>,
    int,
)>
    decreases s.len() - i, 3int,
{
    let k0 = ws_end(s, i);
    if k0 < i || k0 >= s.len() {
        None
    } else if s[k0] != '"' {
        None
    } else {
        match parse_str_body(s, k0 + 1) {
            None => None,
            Some((key, k1)) => {
                if k1 <= k0 {
                    None
                } else {
                    let k2 = ws_end(s, k1);
                    if k2 < k1 || k2 >= s.len() {
                        None
                    } else if s[k2] != ':' {
                        None
                    } else {
                        match parse_val(s, k2 + 1, depth) {
                            None => None,
                            Some((v, j)) => {
                                if j <= k2 {
                                    None
                                } else {
                                    let j2 = ws_end(s, j);
                                    if j2 < j || j2 >= s.len() {
                                        None
                                    } else if s[j2] == '}' {
                                        Some((seq![(key, v)], j2 + 1))
                                    } else if s[j2] == ',' {
                                        match parse_obj(s, j2 + 1, depth) {
                                            None => None,
                                            Some((rest, k)) => Some((seq![(key, v)] + rest, k)),
                                        }
                                    } else {
                                        None
                                    }
                                }
                            },
                        }
                    }
                }
            },
        }
    }
}

/// The whole line as one JSON document: one value with nothing but
/// whitespace around it, nested at most [`MAX_NESTING_DEPTH`] containers
/// deep.
pub open spec fn parse_doc(s: Seq<char>) -> Option<JsonView> {
    match parse_val(s, 0, MAX_NESTING_DEPTH as int) {
        None => None,
        Some((v, j)) => {
            if ws_end(s, j) == s.len() {
                Some(v)
            } else {
                None
            }
        },
    }
}

/// Relies on char::from_u32: yields the character with the given code
/// point exactly when one exists (not a surrogate and at most 0x10FFFF).
#[verifier::external_body]
fn char_from_code(x: u32) -> (r: Option<char>)
    ensures
        (r is Some) == (x < 0xD800 || (0xE000 <= x && x <= 0x10FFFF)),
        r is Some ==> r->0 as u32 == x,
{
    char::from_u32(x)
}

/// JSON whitespace.
fn is_ws_char(c: char) -> (b: bool)
    ensures
        b == is_ws(c),
{
    c == ' ' || c == '\t' || c == '\n' || c == '\r'
}

/// A decimal digit.
fn is_digit_char(c: char) -> (b: bool)
    ensures
        b == is_digit(c),
{
    let u = c as u32;
    48 <= u && u <= 57
}

/// A hexadecimal digit, either case.
fn is_hex_char(c: char) -> (b: bool)
    ensures
        b == is_hex(c),
{
    let u = c as u32;
    (48 <= u && u <= 57) || (97 <= u && u <= 102) || (65 <= u && u <= 70)
}

/// The value of a hexadecimal digit.
fn hex_val_char(c: char) -> (r: u32)
    requires
        is_hex(c),
    ensures
        r as int == hex_val(c),
        r < 16,
{
    let u = c as u32;
    if 48 <= u && u <= 57 {
        u - 48
    } else if 97 <= u {
        u - 87
    } else {
        u - 55
    }
}

/// The character a short escape stands for.
fn escape_code_char(e: char) -> (c: char)
    ensures
        c == escape_code(e),
{
    if e == '"' { '"' }
    else if e == '\\' { '\\' }
    else if e == '/' { '/' }
    else if e == 'b' { '\u{0008}' }
    else if e == 'f' { '\u{000C}' }
    else if e == 'n' { '\n' }
    else if e == 'r' { '\r' }
    else { '\t' }
}

/// Advances past whitespace.
fn skip_ws(chars: &Vec<char>, i: usize) -> (j: usize)
    requires
        i <= chars@.len(),
    ensures
        j as int == ws_end(chars@, i as int),
        i <= j <= chars@.len(),
{
    let mut j = i;
    while j < chars.len() && is_ws_char(chars[j])
        invariant
            i <= j <= chars@.len(),
            ws_end(chars@, i as int) == ws_end(chars@, j as int),
        decreases chars@.len() - j,
    {
        j = j + 1;
    }
    j
}

/// Decodes a JSON string after its opening quote.
fn parse_string_body(chars: &Vec<char>, i: usize) -> (r: Option<(Vec<char>, usize)>)
    ensures
        match r {
            Some((cs, j)) => parse_str_body(chars@, i as int) == Some((cs@, j as int)) && j
                <= chars@.len(),
            None => parse_str_body(chars@, i as int) is None,
        },
    decreases chars@.len() - i,
{
    if i >= chars.len() {
        return None;
    }
    let c = chars[i];
    if c == '"' {
        let cs: Vec<char> = Vec::new();
        return Some((cs, i + 1));
    }
    if c == '\\' {
        if i + 1 >= chars.len() {
            return None;
        }
        let e = chars[i + 1];
        if e == '"' || e == '\\' || e == '/' || e == 'b' || e == 'f' || e == 'n' || e == 'r'
            || e == 't' {
            let ec = escape_code_char(e);
            match parse_string_body(chars, i + 2) {
                None => None,
                Some((mut rest, j)) => {
                    let ghost r0 = rest@;
                    rest.insert(0, ec);
                    proof {
                        assert(rest@ =~= seq![escape_code(e)] + r0);
                    }
                    Some((rest, j))
                },
            }
        } else if e == 'u' {
            if chars.len() - i < 6 {
                return None;
            }
            if !(is_hex_char(chars[i + 2]) && is_hex_char(chars[i + 3]) && is_hex_char(
                chars[i + 4],
            ) && is_hex_char(chars[i + 5])) {
                return None;
            }
            let x: u32 = hex_val_char(chars[i + 2]) * 4096 + hex_val_char(chars[i + 3]) * 256
                + hex_val_char(chars[i + 4]) * 16 + hex_val_char(chars[i + 5]);
            if x < 0xD800 || x >= 0xE000 {
                let c2 = char_from_code(x).unwrap();
                proof {
                    vstd::utf8::char_u32_cast(c2, x);
                }
                match parse_string_body(chars, i + 6) {
                    None => None,
                    Some((mut rest, j)) => {
                        let ghost r0 = rest@;
                        rest.insert(0, c2);
                        proof {
                            assert(rest@ =~= seq![code_char(x as int)] + r0);
                        }
                        Some((rest, j))
                    },
                }
            } else if x < 0xDC00 {
                if chars.len() - i < 12 {
                    return None;
                }
                if !(chars[i + 6] == '\\' && chars[i + 7] == 'u' && is_hex_char(chars[i + 8])
                    && is_hex_char(chars[i + 9]) && is_hex_char(chars[i + 10]) && is_hex_char(
                    chars[i + 11],
                )) {
                    return None;
                }
                let y: u32 = hex_val_char(chars[i + 8]) * 4096 + hex_val_char(chars[i + 9]) * 256
                    + hex_val_char(chars[i + 10]) * 16 + hex_val_char(chars[i + 11]);
                if 0xDC00 <= y && y < 0xE000 {
                    let code: u32 = 0x10000 + (x - 0xD800) * 0x400 + (y - 0xDC00);
                    let c2 = char_from_code(code).unwrap();
                    proof {
                        vstd::utf8::char_u32_cast(c2, code);
                    }
                    match parse_string_body(chars, i + 12) {
                        None => None,
                        Some((mut rest, j)) => {
                            let ghost r0 = rest@;
                            rest.insert(0, c2);
                            proof {
                                assert(rest@ =~= seq![code_char(code as int)] + r0);
                            }
                            Some((rest, j))
                        },
                    }
                } else {
                    None
                }
            } else {
                None
            }
        } else {
            None
        }
    } else if (c as u32) < 0x20 {
        None
    } else {
        match parse_string_body(chars, i + 1) {
            None => None,
            Some((mut rest, j)) => {
                let ghost r0 = rest@;
                rest.insert(0, c);
                proof {
                    assert(rest@ =~= seq![c] + r0);
                }
                Some((rest, j))
            },
        }
    }
}

/// Advances past decimal digits.
fn scan_digits(chars: &Vec<char>, j: usize) -> (e: usize)
    requires
        j <= chars@.len(),
    ensures
        e as int == digits_end(chars@, j as int),
        j <= e <= chars@.len(),
        forall|k: int| j <= k < e ==> is_digit(#[trigger] chars@[k]),
{
    let mut e = j;
    while e < chars.len() && is_digit_char(chars[e])
        invariant
            j <= e <= chars@.len(),
            digits_end(chars@, j as int) == digits_end(chars@, e as int),
            forall|k: int| j <= k < e ==> is_digit(#[trigger] chars@[k]),
        decreases chars@.len() - e,
    {
        e = e + 1;
    }
    e
}

/// The string holding the characters at indexes `a` through `b`.
fn range_string(chars: &Vec<char>, a: usize, b: usize) -> (r: String)
    requires
        a <= b <= chars@.len(),
    ensures
        r@ == chars@.subrange(a as int, b as int),
{
    let mut v: Vec<char> = Vec::new();
    let mut i = a;
    while i < b
        invariant
            a <= i <= b <= chars@.len(),
            v@ == chars@.subrange(a as int, i as int),
        decreases b - i,
    {
        v.push(chars[i]);
        proof {
            assert(chars@.subrange(a as int, i as int).push(chars@[i as int]) =~= chars@.subrange(
                a as int,
                i + 1 as int,
            ));
        }
        i = i + 1;
    }
    chars_to_string(&v)
}

/// Decodes the number beginning at index `i`.
fn parse_number(chars: &Vec<char>, i: usize) -> (r: Option<(JsonValue, usize)>)
    ensures
        match r {
            Some((v, j)) => parse_num(chars@, i as int) == Some((v@, j as int)) && j
                <= chars@.len(),
            None => parse_num(chars@, i as int) is None,
        },
{
    if i >= chars.len() {
        return None;
    }
    let neg = chars[i] == '-';
    let d0 = if neg { i + 1 } else { i };
    let e1 = scan_digits(chars, d0);
    if e1 == d0 {
        return None;
    }
    if chars[d0] == '0' && e1 > d0 + 1 {
        return None;
    }
    let e2 = if e1 < chars.len() && chars[e1] == '.' {
        let f = scan_digits(chars, e1 + 1);
        if f == e1 + 1 {
            return None;
        }
        f
    } else {
        e1
    };
    let e3 = if e2 < chars.len() && (chars[e2] == 'e' || chars[e2] == 'E') {
        let x0 = if e2 + 1 < chars.len() && (chars[e2 + 1] == '+' || chars[e2 + 1] == '-') {
            e2 + 2
        } else {
            e2 + 1
        };
        let g = scan_digits(chars, x0);
        if g == x0 {
            return None;
        }
        g
    } else {
        e2
    };
    proof {
        assert(num_tail_end(chars@, e1 as int) == Some(e3 as int));
    }
    if e3 == e1 && e1 - d0 <= 19 {
        proof {
            lemma_pow10_19();
        }
        let mut m: u64 = 0;
        let mut p = d0;
        while p < e1
            invariant
                d0 <= p <= e1 <= chars@.len(),
                e1 - d0 <= 19,
                forall|k: int| d0 <= k < e1 ==> is_digit(#[trigger] chars@[k]),
                m as int == digits_val(chars@, d0 as int, p as int),
                (m as int) < pow10((p - d0) as nat),
                pow10(19) == 10000000000000000000,
            decreases e1 - p,
        {
            let d: u64 = (chars[p] as u32 - 48) as u64;
            proof {
                lemma_pow10_mono(((p - d0) as nat + 1) as nat, 19);
                assert(pow10(((p - d0) as nat + 1) as nat) == 10 * pow10((p - d0) as nat));
            }
            m = m * 10 + d;
            p = p + 1;
        }
        if neg {
            if m > 9223372036854775808 {
                return Some((JsonValue::Num(range_string(chars, i, e1)), e1));
            }
            let v: i64 = if m == 9223372036854775808 {
                i64::MIN
            } else {
                -(m as i64)
            };
            Some((JsonValue::Int(v), e1))
        } else {
            if m > 9223372036854775807 {
                return Some((JsonValue::Num(range_string(chars, i, e1)), e1));
            }
            Some((JsonValue::Int(m as i64), e1))
        }
    } else {
        Some((JsonValue::Num(range_string(chars, i, e3)), e3))
    }
}

/// Decodes the document beginning at index `i` (leading whitespace
/// allowed).
fn parse_value(chars: &Vec<char>, i: usize, depth: usize) -> (r: Option<(JsonValue, usize)>)
    requires
        i <= chars@.len(),
    ensures
        match r {
            Some((v, j)) => parse_val(chars@, i as int, depth as int) == Some((v@, j as int)) && j
                <= chars@.len(),
            None => parse_val(chars@, i as int, depth as int) is None,
        },
    decreases chars@.len() - i, 2int,
{
    let j = skip_ws(chars, i);
    if j >= chars.len() {
        return None;
    }
    let c = chars[j];
    if c == 'n' {
        if chars.len() - j >= 4 && chars[j + 1] == 'u' && chars[j + 2] == 'l' && chars[j + 3]
            == 'l' {
            Some((JsonValue::Null, j + 4))
        } else {
            None
        }
    } else if c == 't' {
        if chars.len() - j >= 4 && chars[j + 1] == 'r' && chars[j + 2] == 'u' && chars[j + 3]
            == 'e' {
            Some((JsonValue::Bool(true), j + 4))
        } else {
            None
        }
    } else if c == 'f' {
        if chars.len() - j >= 5 && chars[j + 1] == 'a' && chars[j + 2] == 'l' && chars[j + 3]
            == 's' && chars[j + 4] == 'e' {
            Some((JsonValue::Bool(false), j + 5))
        } else {
            None
        }
    } else if c == '"' {
        match parse_string_body(chars, j + 1) {
            None => None,
            Some((cs, k)) => Some((JsonValue::Str(chars_to_string(&cs)), k)),
        }
    } else if c == '-' || is_digit_char(c) {
        parse_number(chars, j)
    } else if c == '[' {
        if depth == 0 {
            return None;
        }
        let a = skip_ws(chars, j + 1);
        if a < chars.len() && chars[a] == ']' {
            let items: Vec<JsonValue> = Vec::new();
            proof {
                assert(views_of(items@) =~= Seq::<JsonView>::empty());
            }
            return Some((JsonValue::Arr(items), a + 1));
        }
        match parse_arr_items(chars, j + 1, depth - 1) {
            None => None,
            Some((items, k)) => Some((JsonValue::Arr(items), k)),
        }
    } else if c == '{' {
        if depth == 0 {
            return None;
        }
        let a = skip_ws(chars, j + 1);
        if a < chars.len() && chars[a] == '}' {
            let entries: Vec<(String, JsonValue)> = Vec::new();
            proof {
                assert(entry_views_of(entries@) =~= Seq::<(Seq<char>, JsonView)>::empty());
            }
            return Some((JsonValue::Obj(entries), a + 1));
        }
        match parse_obj_items(chars, j + 1, depth - 1) {
            None => None,
            Some((entries, k)) => Some((JsonValue::Obj(entries), k)),
        }
    } else {
        None
    }
}

/// Decodes one or more comma-separated array elements up to and including
/// the closing bracket.
fn parse_arr_items(chars: &Vec<char>, i: usize, depth: usize) -> (r: Option<
    (Vec<JsonValue>, usize),
>)
    requires
        i <= chars@.len(),
    ensures
        match r {
            Some((items, k)) => parse_arr(chars@, i as int, depth as int) == Some(
                (views_of(items@), k as int),
            ) && k <= chars@.len(),
            None => parse_arr(chars@, i as int, depth as int) is None,
        },
    decreases chars@.len() - i, 3int,
{
    match parse_value(chars, i, depth) {
        None => None,
        Some((v, j)) => {
            if j <= i {
                return None;
            }
            let j2 = skip_ws(chars, j);
            if j2 >= chars.len() {
                return None;
            }
            let t = chars[j2];
            if t == ']' {
                let mut items: Vec<JsonValue> = Vec::new();
                let ghost vv = v@;
                items.push(v);
                proof {
                    assert(items@.drop_last() =~= Seq::<JsonValue>::empty());
                    assert(views_of(Seq::<JsonValue>::empty()) =~= Seq::<JsonView>::empty());
                    assert(views_of(items@) =~= seq![vv]);
                }
                Some((items, j2 + 1))
            } else if t == ',' {
                match parse_arr_items(chars, j2 + 1, depth) {
                    None => None,
                    Some((mut rest, k)) => {
                        let ghost vv = v@;
                        let ghost r0 = rest@;
                        rest.insert(0, v);
                        proof {
                            lemma_views_of(r0);
                            lemma_views_of(rest@);
                            assert(rest@ =~= seq![rest@[0]] + r0);
                            assert(views_of(rest@) =~= seq![vv] + views_of(r0));
                        }
                        Some((rest, k))
                    },
                }
            } else {
                None
            }
        },
    }
}

/// Decodes one or more comma-separated object entries up to and including
/// the closing brace.
fn parse_obj_items(chars: &Vec<char>, i: usize, depth: usize) -> (r: Option<
    (Vec<(String, JsonValue)>, usize),
>)
    requires
        i <= chars@.len(),
    ensures
        match r {
            Some((entries, k)) => parse_obj(chars@, i as int, depth as int) == Some(
                (entry_views_of(entries@), k as int),
            ) && k <= chars@.len(),
            None => parse_obj(chars@, i as int, depth as int) is None,
        },
    decreases chars@.len() - i, 3int,
{
    let k0 = skip_ws(chars, i);
    if k0 >= chars.len() {
        return None;
    }
    if chars[k0] != '"' {
        return None;
    }
    match parse_string_body(chars, k0 + 1) {
        None => None,
        Some((key, k1)) => {
            if k1 <= k0 {
                return None;
            }
            let k2 = skip_ws(chars, k1);
            if k2 >= chars.len() {
                return None;
            }
            if chars[k2] != ':' {
                return None;
            }
            match parse_value(chars, k2 + 1, depth) {
                None => None,
                Some((v, j)) => {
                    if j <= k2 {
                        return None;
                    }
                    let j2 = skip_ws(chars, j);
                    if j2 >= chars.len() {
                        return None;
                    }
                    let t = chars[j2];
                    let keystr = chars_to_string(&key);
                    if t == '}' {
                        let mut entries: Vec<(String, JsonValue)> = Vec::new();
                        let ghost kv = (key@, v@);
                        entries.push((keystr, v));
                        proof {
                            assert(entries@.drop_last() =~= Seq::<(String, JsonValue)>::empty());
                            assert(entry_views_of(Seq::<(String, JsonValue)>::empty())
                                =~= Seq::<(Seq<char>, JsonView)>::empty());
                            assert(entry_views_of(entries@) =~= seq![kv]);
                        }
                        Some((entries, j2 + 1))
                    } else if t == ',' {
                        match parse_obj_items(chars, j2 + 1, depth) {
                            None => None,
                            Some((mut rest, k)) => {
                                let ghost kv = (key@, v@);
                                let ghost r0 = rest@;
                                rest.insert(0, (keystr, v));
                                proof {
                                    lemma_entry_views_of(r0);
                                    lemma_entry_views_of(rest@);
                                    assert(rest@ =~= seq![rest@[0]] + r0);
                                    assert(entry_views_of(rest@) =~= seq![kv] + entry_views_of(
                                        r0,
                                    ));
                                }
                                Some((rest, k))
                            },
                        }
                    } else {
                        None
                    }
                },
            }
        },
    }
}

/// Decodes one line of text as one JSON document, or nothing when the line
/// is not a single well-formed document this model can hold; containers
/// nested deeper than [`MAX_NESTING_DEPTH`] are rejected.
pub fn parse_json_text(s: &str) -> (r: Option<JsonValue>)
    ensures
        match r {
            Some(v) => parse_doc(s@) == Some(v@),
            None => parse_doc(s@) is None,
        },
{
    let chars = str_to_chars(s);
    match parse_value(&chars, 0, MAX_NESTING_DEPTH) {
        None => None,
        Some((v, j)) => {
            let k = skip_ws(&chars, j);
            if k == chars.len() {
                Some(v)
            } else {
                None
            }
        },
    }
}

} // verus!
