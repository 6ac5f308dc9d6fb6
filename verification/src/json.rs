use vstd::prelude::*;

use crate::util::opt_view;

verus! {

/// Mathematical mirror of a JSON tree: strings as character sequences,
/// arrays and objects as sequences of entries in wire order.
#[verifier::ext_equal]
pub enum JsonView {
    Null,
    Bool(bool),
    Int(int),
    OtherNumber(Seq<char>),
    Str(Seq<char>),
    Arr(Seq<JsonView>),
    Obj(Seq<(Seq<char>, JsonView)>),
}

/// Executable JSON tree. Every number a field of this library reads or
/// writes is a whole 64-bit integer; a number beyond that range, or with a
/// fraction, is carried opaquely as its wire text, so that a response
/// holding one in some unread field still decodes.
#[derive(Debug, PartialEq, Eq)]
pub enum JsonValue {
    Null,
    Bool(bool),
    Int(i64),
    OtherNumber(String),
    Str(String),
    Arr(Vec<JsonValue>),
    Obj(Vec<(String, JsonValue)>),
}

/// The views of the elements of a JSON array.
pub open spec fn arr_view(xs: Seq<JsonValue>) -> Seq<JsonView>
    decreases xs,
{
    Seq::new(
        xs.len(),
        |i: int|
            if 0 <= i < xs.len() {
                xs[i].view_of()
            } else {
                JsonView::Null
            },
    )
}

/// The views of the entries of a JSON object.
pub open spec fn obj_view(ps: Seq<(String, JsonValue)>) -> Seq<(Seq<char>, JsonView)>
    decreases ps,
{
    Seq::new(
        ps.len(),
        |i: int|
            if 0 <= i < ps.len() {
                (ps[i].0@, ps[i].1.view_of())
            } else {
                (Seq::empty(), JsonView::Null)
            },
    )
}

impl JsonValue {
    pub open spec fn view_of(self) -> JsonView
        decreases self,
    {
        match self {
            JsonValue::Null => JsonView::Null,
            JsonValue::Bool(b) => JsonView::Bool(b),
            JsonValue::Int(n) => JsonView::Int(n as int),
            JsonValue::OtherNumber(s) => JsonView::OtherNumber(s@),
            JsonValue::Str(s) => JsonView::Str(s@),
            JsonValue::Arr(xs) => JsonView::Arr(arr_view(xs@)),
            JsonValue::Obj(ps) => JsonView::Obj(obj_view(ps@)),
        }
    }
}

impl View for JsonValue {
    type V = JsonView;

    open spec fn view(&self) -> JsonView {
        self.view_of()
    }
}

/// The value under `key` in an object's entries: the first entry with that
/// key wins, as nothing after it is ever read.
pub open spec fn obj_get(entries: Seq<(Seq<char>, JsonView)>, key: Seq<char>) -> Option<JsonView>
    decreases entries.len(),
{
    if entries.len() == 0 {
        None
    } else if entries[0].0 == key {
        Some(entries[0].1)
    } else {
        obj_get(entries.subrange(1, entries.len() as int), key)
    }
}

/// A key that `obj_get` resolves among the first `n` entries keeps its value
/// when more entries follow.
pub proof fn lemma_obj_get_step(entries: Seq<(Seq<char>, JsonView)>, key: Seq<char>, n: int)
    requires
        0 <= n < entries.len(),
        entries[n].0 == key,
        forall|k: int| 0 <= k < n ==> entries[k].0 != key,
    ensures
        obj_get(entries, key) == Some(entries[n].1),
    decreases n,
{
    if n > 0 {
        let rest = entries.subrange(1, entries.len() as int);
        lemma_obj_get_step(rest, key, n - 1);
    }
}

/// A key matching no entry resolves to nothing.
pub proof fn lemma_obj_get_absent(entries: Seq<(Seq<char>, JsonView)>, key: Seq<char>)
    requires
        forall|k: int| 0 <= k < entries.len() ==> entries[k].0 != key,
    ensures
        obj_get(entries, key) is None,
    decreases entries.len(),
{
    if entries.len() > 0 {
        lemma_obj_get_absent(entries.subrange(1, entries.len() as int), key);
    }
}

/// Finds `key` among an object's entries, reading them in order.
pub fn obj_lookup<'a>(entries: &'a Vec<(String, JsonValue)>, key: &str) -> (r: Option<
    &'a JsonValue,
>)
    ensures
        match r {
            Some(v) => obj_get(obj_view(entries@), key@) == Some(v.view_of()),
            None => obj_get(obj_view(entries@), key@) is None,
        },
{
    let ghost view_entries = obj_view(entries@);
    let key_string = key.to_owned();
    let n = entries.len();
    for i in 0..n
        invariant
            n == entries.len(),
            view_entries == obj_view(entries@),
            key_string@ == key@,
            forall|k: int| 0 <= k < i ==> view_entries[k].0 != key@,
    {
        if entries[i].0 == key_string {
            proof {
                lemma_obj_get_step(view_entries, key@, i as int);
            }
            return Some(&entries[i].1);
        }
    }
    proof {
        lemma_obj_get_absent(view_entries, key@);
    }
    None
}

/// A JSON string copied from a borrowed one.
pub fn jstr(s: &str) -> (r: JsonValue)
    ensures
        r@ == JsonView::Str(s@),
{
    JsonValue::Str(s.to_owned())
}

/// An object of one entry.
pub fn jobj1(k: &str, v: JsonValue) -> (r: JsonValue)
    ensures
        r@ == JsonView::Obj(seq![(k@, v@)]),
{
    let entries: Vec<(String, JsonValue)> = vec![(k.to_owned(), v)];
    let r = JsonValue::Obj(entries);
    proof {
        assert(obj_view(entries@) =~= seq![(k@, v@)]);
    }
    r
}

/// An object of two entries, in the given order.
pub fn jobj2(k1: &str, v1: JsonValue, k2: &str, v2: JsonValue) -> (r: JsonValue)
    ensures
        r@ == JsonView::Obj(seq![(k1@, v1@), (k2@, v2@)]),
{
    let entries: Vec<(String, JsonValue)> = vec![(k1.to_owned(), v1), (k2.to_owned(), v2)];
    let r = JsonValue::Obj(entries);
    proof {
        assert(obj_view(entries@) =~= seq![(k1@, v1@), (k2@, v2@)]);
    }
    r
}


/// A required text field: present and a string, or the read fails.
pub open spec fn spec_req_str(entries: Seq<(Seq<char>, JsonView)>, key: Seq<char>) -> Option<
    Seq<char>,
> {
    match obj_get(entries, key) {
        Some(JsonView::Str(s)) => Some(s),
        _ => None,
    }
}

/// A text field the server may omit: absent reads as empty, a string reads
/// as itself, anything else fails.
pub open spec fn spec_str_or_empty(entries: Seq<(Seq<char>, JsonView)>, key: Seq<char>) -> Option<
    Seq<char>,
> {
    match obj_get(entries, key) {
        None => Some(Seq::empty()),
        Some(JsonView::Str(s)) => Some(s),
        Some(_) => None,
    }
}

/// An optional text field: absent or null reads as nothing, a string reads
/// as itself, anything else fails.
pub open spec fn spec_opt_str(entries: Seq<(Seq<char>, JsonView)>, key: Seq<char>) -> Option<
    Option<Seq<char>>,
> {
    match obj_get(entries, key) {
        None => Some(None),
        Some(JsonView::Null) => Some(None),
        Some(JsonView::Str(s)) => Some(Some(s)),
        Some(_) => None,
    }
}

/// Reads a required text field.
pub fn req_str(entries: &Vec<(String, JsonValue)>, key: &str) -> (r: Option<String>)
    ensures
        match r {
            Some(s) => spec_req_str(obj_view(entries@), key@) == Some(s@),
            None => spec_req_str(obj_view(entries@), key@) is None,
        },
{
    match obj_lookup(entries, key) {
        Some(JsonValue::Str(s)) => Some(s.clone()),
        _ => None,
    }
}

/// Reads a text field the server may omit.
pub fn str_or_empty(entries: &Vec<(String, JsonValue)>, key: &str) -> (r: Option<String>)
    ensures
        match r {
            Some(s) => spec_str_or_empty(obj_view(entries@), key@) == Some(s@),
            None => spec_str_or_empty(obj_view(entries@), key@) is None,
        },
{
    match obj_lookup(entries, key) {
        None => Some(String::new()),
        Some(JsonValue::Str(s)) => Some(s.clone()),
        Some(_) => None,
    }
}

/// Reads an optional text field.
pub fn opt_str(entries: &Vec<(String, JsonValue)>, key: &str) -> (r: Option<Option<String>>)
    ensures
        match r {
            Some(s) => spec_opt_str(obj_view(entries@), key@) == Some(opt_view(s)),
            None => spec_opt_str(obj_view(entries@), key@) is None,
        },
{
    match obj_lookup(entries, key) {
        None => Some(None),
        Some(JsonValue::Null) => Some(None),
        Some(JsonValue::Str(s)) => Some(Some(s.clone())),
        Some(_) => None,
    }
}

} // verus!

// ---------------------------------------------------------------------------
// JSON text: the wire form of a JSON tree, written exactly.
// ---------------------------------------------------------------------------

verus! {

/// Relies on String::push: appends the one given character and nothing
/// else.
#[verifier::external_body]
fn push_char(out: &mut String, c: char)
    ensures
        final(out)@ == old(out)@.push(c),
{
    out.push(c);
}

/// The decimal digit character for a value below ten.
pub open spec fn digit_char(d: int) -> char {
    if d == 0 {
        '0'
    } else if d == 1 {
        '1'
    } else if d == 2 {
        '2'
    } else if d == 3 {
        '3'
    } else if d == 4 {
        '4'
    } else if d == 5 {
        '5'
    } else if d == 6 {
        '6'
    } else if d == 7 {
        '7'
    } else if d == 8 {
        '8'
    } else {
        '9'
    }
}

/// The lower-case hexadecimal digit character for a value below sixteen.
pub open spec fn hex_char(d: int) -> char {
    if d < 10 {
        digit_char(d)
    } else if d == 10 {
        'a'
    } else if d == 11 {
        'b'
    } else if d == 12 {
        'c'
    } else if d == 13 {
        'd'
    } else if d == 14 {
        'e'
    } else {
        'f'
    }
}

/// The one-character text of a decimal digit.
pub fn digit_str(d: u32) -> (r: &'static str)
    requires
        d < 10,
    ensures
        r@ == seq![digit_char(d as int)],
{
    proof {
        reveal_strlit("0");
        reveal_strlit("1");
        reveal_strlit("2");
        reveal_strlit("3");
        reveal_strlit("4");
        reveal_strlit("5");
        reveal_strlit("6");
        reveal_strlit("7");
        reveal_strlit("8");
        reveal_strlit("9");
    }
    let r: &'static str = if d == 0 {
        "0"
    } else if d == 1 {
        "1"
    } else if d == 2 {
        "2"
    } else if d == 3 {
        "3"
    } else if d == 4 {
        "4"
    } else if d == 5 {
        "5"
    } else if d == 6 {
        "6"
    } else if d == 7 {
        "7"
    } else if d == 8 {
        "8"
    } else {
        "9"
    };
    proof {
        assert(r@ =~= seq![digit_char(d as int)]);
    }
    r
}

/// The one-character text of a lower-case hexadecimal digit.
fn hex_str(d: u32) -> (r: &'static str)
    requires
        d < 16,
    ensures
        r@ == seq![hex_char(d as int)],
{
    proof {
        reveal_strlit("a");
        reveal_strlit("b");
        reveal_strlit("c");
        reveal_strlit("d");
        reveal_strlit("e");
        reveal_strlit("f");
    }
    if d < 10 {
        digit_str(d)
    } else {
        let r: &'static str = if d == 10 {
            "a"
        } else if d == 11 {
            "b"
        } else if d == 12 {
            "c"
        } else if d == 13 {
            "d"
        } else if d == 14 {
            "e"
        } else {
            "f"
        };
        proof {
            assert(r@ =~= seq![hex_char(d as int)]);
        }
        r
    }
}

/// A character as it stands inside a JSON string: quotes and backslashes
/// escaped, the named control characters short-escaped, other control
/// characters hex-escaped, everything else written as itself.
pub open spec fn spec_escaped_char(c: char) -> Seq<char> {
    if c == '"' {
        seq!['\\', '"']
    } else if c == '\\' {
        seq!['\\', '\\']
    } else if c as u32 == 8 {
        seq!['\\', 'b']
    } else if c as u32 == 9 {
        seq!['\\', 't']
    } else if c as u32 == 10 {
        seq!['\\', 'n']
    } else if c as u32 == 12 {
        seq!['\\', 'f']
    } else if c as u32 == 13 {
        seq!['\\', 'r']
    } else if (c as u32) < 32 {
        seq!['\\', 'u', '0', '0', hex_char(((c as u32) as int) / 16), hex_char(((c as u32) as int) % 16)]
    } else {
        seq![c]
    }
}

/// Text as it stands inside a JSON string, character by character.
pub open spec fn spec_escaped(s: Seq<char>) -> Seq<char>
    decreases s.len(),
{
    if s.len() == 0 {
        Seq::empty()
    } else {
        spec_escaped(s.drop_last()) + spec_escaped_char(s.last())
    }
}

/// A JSON string: quoted, escaped text.
pub open spec fn spec_quoted(s: Seq<char>) -> Seq<char> {
    seq!['"'] + spec_escaped(s) + seq!['"']
}

/// The decimal digits of a whole number, most significant first.
pub open spec fn spec_digits(n: int) -> Seq<char>
    recommends
        n >= 0,
    decreases n,
{
    if n < 10 {
        seq![digit_char(n)]
    } else {
        spec_digits(n / 10).push(digit_char(n % 10))
    }
}

/// A JSON number: an optional minus sign and decimal digits.
pub open spec fn spec_int_text(n: int) -> Seq<char> {
    if n < 0 {
        seq!['-'] + spec_digits(-n)
    } else {
        spec_digits(n)
    }
}

/// The wire text of a JSON tree: no spacing, object entries in held order,
/// strings escaped as `spec_escaped_char` says.
pub open spec fn spec_json_text(j: JsonView) -> Seq<char>
    decreases j, 1int,
{
    match j {
        JsonView::Null => seq!['n', 'u', 'l', 'l'],
        JsonView::Bool(b) => if b {
            seq!['t', 'r', 'u', 'e']
        } else {
            seq!['f', 'a', 'l', 's', 'e']
        },
        JsonView::Int(n) => spec_int_text(n),
        JsonView::OtherNumber(s) => s,
        JsonView::Str(s) => spec_quoted(s),
        JsonView::Arr(xs) => seq!['['] + spec_json_items(xs) + seq![']'],
        JsonView::Obj(es) => seq!['{'] + spec_json_entries(es) + seq!['}'],
    }
}

/// The comma-separated elements of a JSON array.
pub open spec fn spec_json_items(xs: Seq<JsonView>) -> Seq<char>
    decreases xs, 0int,
{
    if xs.len() == 0 {
        Seq::empty()
    } else if xs.len() == 1 {
        spec_json_text(xs.last())
    } else {
        spec_json_items(xs.drop_last()) + seq![','] + spec_json_text(xs.last())
    }
}

/// The comma-separated, quoted-key entries of a JSON object.
pub open spec fn spec_json_entries(es: Seq<(Seq<char>, JsonView)>) -> Seq<char>
    decreases es, 0int,
{
    if es.len() == 0 {
        Seq::empty()
    } else if es.len() == 1 {
        spec_quoted(es.last().0) + seq![':'] + spec_json_text(es.last().1)
    } else {
        spec_json_entries(es.drop_last()) + seq![','] + spec_quoted(es.last().0) + seq![':']
            + spec_json_text(es.last().1)
    }
}

/// Writes one character in its in-string form.
fn write_escaped_char(c: char, out: &mut String)
    ensures
        final(out)@ == old(out)@ + spec_escaped_char(c),
{
    proof {
        reveal_strlit("\\\"");
        reveal_strlit("\\\\");
        reveal_strlit("\\b");
        reveal_strlit("\\t");
        reveal_strlit("\\n");
        reveal_strlit("\\f");
        reveal_strlit("\\r");
        reveal_strlit("\\u00");
    }
    let code = c as u32;
    if c == '"' {
        out.append("\\\"");
        proof {
            assert(out@ =~= old(out)@ + spec_escaped_char(c));
        }
    } else if c == '\\' {
        out.append("\\\\");
        proof {
            assert(out@ =~= old(out)@ + spec_escaped_char(c));
        }
    } else if code == 8 {
        out.append("\\b");
        proof {
            assert(out@ =~= old(out)@ + spec_escaped_char(c));
        }
    } else if code == 9 {
        out.append("\\t");
        proof {
            assert(out@ =~= old(out)@ + spec_escaped_char(c));
        }
    } else if code == 10 {
        out.append("\\n");
        proof {
            assert(out@ =~= old(out)@ + spec_escaped_char(c));
        }
    } else if code == 12 {
        out.append("\\f");
        proof {
            assert(out@ =~= old(out)@ + spec_escaped_char(c));
        }
    } else if code == 13 {
        out.append("\\r");
        proof {
            assert(out@ =~= old(out)@ + spec_escaped_char(c));
        }
    } else if code < 32 {
        out.append("\\u00");
        out.append(hex_str(code / 16));
        out.append(hex_str(code % 16));
        proof {
            assert(out@ =~= old(out)@ + spec_escaped_char(c));
        }
    } else {
        push_char(out, c);
        proof {
            assert(out@ =~= old(out)@ + spec_escaped_char(c));
        }
    }
}

/// Writes text in its in-string form.
fn write_escaped(s: &str, out: &mut String)
    ensures
        final(out)@ == old(out)@ + spec_escaped(s@),
{
    let n = s.unicode_len();
    proof {
        assert(spec_escaped(s@.subrange(0, 0)) =~= Seq::empty());
        assert(out@ =~= out@ + spec_escaped(s@.subrange(0, 0)));
    }
    for i in 0..n
        invariant
            n == s@.len(),
            out@ == old(out)@ + spec_escaped(s@.subrange(0, i as int)),
    {
        let c = s.get_char(i);
        let ghost prefix = s@.subrange(0, i as int);
        let ghost prefix_next = s@.subrange(0, i + 1 as int);
        write_escaped_char(c, out);
        proof {
            assert(prefix_next.drop_last() =~= prefix);
            assert(prefix_next.last() == c);
            assert(out@ =~= old(out)@ + spec_escaped(prefix_next));
        }
    }
    proof {
        assert(s@.subrange(0, n as int) =~= s@);
    }
}

/// Writes a JSON string: quoted, escaped text.
fn write_quoted(s: &str, out: &mut String)
    ensures
        final(out)@ == old(out)@ + spec_quoted(s@),
{
    proof {
        reveal_strlit("\"");
        assert("\""@ =~= seq!['"']);
    }
    out.append("\"");
    write_escaped(s, out);
    out.append("\"");
    proof {
        assert(out@ =~= old(out)@ + spec_quoted(s@));
    }
}

/// Writes the decimal digits of a whole number.
fn write_digits(n: u64, out: &mut String)
    ensures
        final(out)@ == old(out)@ + spec_digits(n as int),
    decreases n,
{
    if n >= 10 {
        write_digits(n / 10, out);
        out.append(digit_str((n % 10) as u32));
        proof {
            assert(out@ =~= old(out)@ + spec_digits(n as int));
        }
    } else {
        out.append(digit_str(n as u32));
        proof {
            assert(out@ =~= old(out)@ + spec_digits(n as int));
        }
    }
}

/// Writes a JSON number.
fn write_int(n: i64, out: &mut String)
    ensures
        final(out)@ == old(out)@ + spec_int_text(n as int),
{
    proof {
        reveal_strlit("-");
        assert("-"@ =~= seq!['-']);
    }
    if n >= 0 {
        write_digits(n as u64, out);
    } else {
        out.append("-");
        let magnitude: u64 = ((-(n + 1)) as u64) + 1;
        proof {
            assert(magnitude == -(n as int));
        }
        write_digits(magnitude, out);
        proof {
            assert(out@ =~= old(out)@ + spec_int_text(n as int));
        }
    }
}

/// Writes a JSON tree in its wire text.
#[verifier::loop_isolation(false)]
#[verifier::rlimit(50)]
pub fn write_json(j: &JsonValue, out: &mut String)
    ensures
        final(out)@ == old(out)@ + spec_json_text(j@),
    decreases *j,
{
    proof {
        reveal_strlit("null");
        reveal_strlit("true");
        reveal_strlit("false");
        reveal_strlit("[");
        reveal_strlit("]");
        reveal_strlit("{");
        reveal_strlit("}");
        reveal_strlit(",");
        reveal_strlit(":");
    }
    match j {
        JsonValue::Null => {
            out.append("null");
            proof {
                assert(out@ =~= old(out)@ + spec_json_text(j@));
            }
        },
        JsonValue::Bool(b) => {
            if *b {
                out.append("true");
            } else {
                out.append("false");
            }
            proof {
                assert(out@ =~= old(out)@ + spec_json_text(j@));
            }
        },
        JsonValue::Int(n) => {
            write_int(*n, out);
        },
        JsonValue::OtherNumber(s) => {
            out.append(s.as_str());
        },
        JsonValue::Str(s) => {
            write_quoted(s.as_str(), out);
        },
        JsonValue::Arr(xs) => {
            out.append("[");
            let ghost views = arr_view(xs@);
            let ghost base = out@;
            let n = xs.len();
            for i in 0..n
                invariant
                    out@ == base + spec_json_items(views.subrange(0, i as int)),
                decreases n - i,
            {
                if i > 0 {
                    out.append(",");
                }
                proof {
                    assert(decreases_to!(*j => xs@[i as int]));
                }
                write_json(&xs[i], out);
                proof {
                    let prefix = views.subrange(0, i as int);
                    let prefix_next = views.subrange(0, i + 1 as int);
                    assert(prefix_next.drop_last() =~= prefix);
                    assert(prefix_next.last() == views[i as int]);
                    assert(out@ =~= base + spec_json_items(prefix_next));
                }
            }
            out.append("]");
            proof {
                assert(views.subrange(0, n as int) =~= views);
                assert(out@ =~= old(out)@ + spec_json_text(j@));
            }
        },
        JsonValue::Obj(ps) => {
            out.append("{");
            let ghost views = obj_view(ps@);
            let ghost base = out@;
            let n = ps.len();
            for i in 0..n
                invariant
                    out@ == base + spec_json_entries(views.subrange(0, i as int)),
                decreases n - i,
            {
                if i > 0 {
                    out.append(",");
                }
                write_quoted(ps[i].0.as_str(), out);
                out.append(":");
                proof {
                    assert(decreases_to!(*j => ps@[i as int].1));
                }
                write_json(&ps[i].1, out);
                proof {
                    let prefix = views.subrange(0, i as int);
                    let prefix_next = views.subrange(0, i + 1 as int);
                    assert(prefix_next.drop_last() =~= prefix);
                    assert(prefix_next.last() == views[i as int]);
                    assert(out@ =~= base + spec_json_entries(prefix_next));
                }
            }
            out.append("}");
            proof {
                assert(views.subrange(0, n as int) =~= views);
                assert(out@ =~= old(out)@ + spec_json_text(j@));
            }
        },
    }
}

/// The wire text of a JSON tree.
pub fn json_text(j: &JsonValue) -> (r: String)
    ensures
        r@ == spec_json_text(j@),
{
    let mut out = String::new();
    write_json(j, &mut out);
    proof {
        assert(Seq::<char>::empty() + spec_json_text(j@) =~= spec_json_text(j@));
    }
    out
}

} // verus!
