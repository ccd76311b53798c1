//! JSON text output for the response path: string escaping and framing.

use vstd::prelude::*;
use vstd::string::StringSliceAdditionalSpecFns;
use vstd::utf8::encode_utf8;

verus! {

/// Lower-case hexadecimal digit for a value below 16.
pub open spec fn hex_digit(n: u8) -> u8 {
    if n < 10 { (48 + n) as u8 } else { (87 + n) as u8 }
}

/// How one byte of a string is written inside a JSON string literal.
/// Quote, backslash and control bytes are escaped; every other byte
/// (UTF-8 continuation and lead bytes included) is written as is.
pub open spec fn escape_byte(b: u8) -> Seq<u8> {
    if b == 0x22 {
        seq![0x5cu8, 0x22u8]
    } else if b == 0x5c {
        seq![0x5cu8, 0x5cu8]
    } else if b == 0x0a {
        seq![0x5cu8, 0x6eu8]
    } else if b == 0x0d {
        seq![0x5cu8, 0x72u8]
    } else if b == 0x09 {
        seq![0x5cu8, 0x74u8]
    } else if b == 0x08 {
        seq![0x5cu8, 0x62u8]
    } else if b == 0x0c {
        seq![0x5cu8, 0x66u8]
    } else if b < 0x20 {
        seq![0x5cu8, 0x75u8, 0x30u8, 0x30u8, hex_digit(b / 16), hex_digit(b % 16)]
    } else {
        seq![b]
    }
}

/// The escaped form of a byte string, byte by byte.
pub open spec fn escape_bytes(s: Seq<u8>) -> Seq<u8>
    decreases s.len(),
{
    if s.len() == 0 {
        Seq::empty()
    } else {
        escape_bytes(s.drop_last()) + escape_byte(s.last())
    }
}

/// A complete JSON string literal: quotes around the escaped bytes.
pub open spec fn json_string(s: Seq<u8>) -> Seq<u8> {
    seq![0x22u8] + escape_bytes(s) + seq![0x22u8]
}

/// Appends `bytes` to `out`.
pub fn append_bytes(out: &mut Vec<u8>, bytes: &[u8])
    ensures
        final(out)@ == old(out)@ + bytes@,
{
    let n = bytes.len();
    let mut i: usize = 0;
    while i < n
        invariant
            n == bytes@.len(),
            i <= n,
            out@ == old(out)@ + bytes@.take(i as int),
        decreases n - i,
    {
        out.push(bytes[i]);
        i = i + 1;
        assert(bytes@.take(i as int) == bytes@.take((i - 1) as int).push(bytes@[i - 1]));
    }
    assert(bytes@.take(n as int) == bytes@);
}

/// Appends the text of `s` (its UTF-8 bytes) to `out`.
pub fn append_str(out: &mut Vec<u8>, s: &str)
    ensures
        final(out)@ == old(out)@ + s.spec_bytes(),
{
    append_bytes(out, s.as_bytes());
}

fn hex_digit_exec(n: u8) -> (d: u8)
    requires
        n < 16,
    ensures
        d == hex_digit(n),
{
    if n < 10 { 48 + n } else { 87 + n }
}

/// Appends the escaped form of one byte.
fn push_escaped_byte(out: &mut Vec<u8>, b: u8)
    ensures
        final(out)@ == old(out)@ + escape_byte(b),
{
    if b == 0x22 {
        out.push(0x5c);
        out.push(0x22);
    } else if b == 0x5c {
        out.push(0x5c);
        out.push(0x5c);
    } else if b == 0x0a {
        out.push(0x5c);
        out.push(0x6e);
    } else if b == 0x0d {
        out.push(0x5c);
        out.push(0x72);
    } else if b == 0x09 {
        out.push(0x5c);
        out.push(0x74);
    } else if b == 0x08 {
        out.push(0x5c);
        out.push(0x62);
    } else if b == 0x0c {
        out.push(0x5c);
        out.push(0x66);
    } else if b < 0x20 {
        out.push(0x5c);
        out.push(0x75);
        out.push(0x30);
        out.push(0x30);
        out.push(hex_digit_exec(b / 16));
        out.push(hex_digit_exec(b % 16));
    } else {
        out.push(b);
    }
    assert(final(out)@ =~= old(out)@ + escape_byte(b));
}

/// Writes the byte string `bytes` as a JSON string literal (quoted and
/// escaped) to the end of `out`.
pub fn write_json_bytes(bytes: &[u8], out: &mut Vec<u8>)
    ensures
        final(out)@ == old(out)@ + json_string(bytes@),
{
    let n = bytes.len();
    out.push(0x22);
    let ghost start = out@;
    let mut i: usize = 0;
    while i < n
        invariant
            n == bytes@.len(),
            i <= n,
            out@ == start + escape_bytes(bytes@.take(i as int)),
        decreases n - i,
    {
        push_escaped_byte(out, bytes[i]);
        proof {
            let t = bytes@.take(i + 1);
            assert(t.drop_last() == bytes@.take(i as int));
            assert(t.last() == bytes@[i as int]);
        }
        i = i + 1;
    }
    assert(bytes@.take(n as int) == bytes@);
    out.push(0x22);
}

/// Writes `text` as a JSON string literal (quoted and escaped) to the end
/// of `out`.
pub fn write_json_string(text: &str, out: &mut Vec<u8>)
    ensures
        final(out)@ == old(out)@ + json_string(text.spec_bytes()),
{
    write_json_bytes(text.as_bytes(), out);
}

/// No byte of an escaped string is a control byte: every byte below 0x20
/// of the input is replaced by a printable escape sequence.
pub proof fn escaped_bytes_have_no_control_bytes(s: Seq<u8>)
    ensures
        forall|i: int| 0 <= i < escape_bytes(s).len() ==> escape_bytes(s)[i] >= 0x20,
    decreases s.len(),
{
    if s.len() > 0 {
        escaped_bytes_have_no_control_bytes(s.drop_last());
        let a = escape_bytes(s.drop_last());
        let b = escape_byte(s.last());
        assert forall|i: int| 0 <= i < b.len() implies b[i] >= 0x20 by {
            let x = s.last();
            if x < 0x20 && x != 0x0a && x != 0x0d && x != 0x09 && x != 0x08 && x != 0x0c {
                assert(x / 16 < 16 && x % 16 < 16);
            }
        }
        assert forall|i: int| 0 <= i < (a + b).len() implies (a + b)[i] >= 0x20 by {
            if i < a.len() {
                assert((a + b)[i] == a[i]);
            } else {
                assert((a + b)[i] == b[i - a.len()]);
            }
        }
    }
}

/// The byte a two-character JSON escape `\c` stands for.
pub open spec fn short_escape_value(c: u8) -> Option<u8> {
    if c == 0x22 {
        Some(0x22u8)
    } else if c == 0x5c {
        Some(0x5cu8)
    } else if c == 0x2f {
        Some(0x2fu8)
    } else if c == 0x6e {
        Some(0x0au8)
    } else if c == 0x72 {
        Some(0x0du8)
    } else if c == 0x74 {
        Some(0x09u8)
    } else if c == 0x62 {
        Some(0x08u8)
    } else if c == 0x66 {
        Some(0x0cu8)
    } else {
        None
    }
}

/// The value of a hexadecimal digit (either case).
pub open spec fn hex_value(c: u8) -> Option<int> {
    if 0x30 <= c <= 0x39 {
        Some(c - 0x30)
    } else if 0x61 <= c <= 0x66 {
        Some(c - 0x61 + 10)
    } else if 0x41 <= c <= 0x46 {
        Some(c - 0x41 + 10)
    } else {
        None
    }
}

/// JSON string decoding, as far as single bytes go: plain bytes stand for
/// themselves (a quote or a control byte may not stand unescaped), `\c`
/// is a short escape, `\u00XY` the byte with hex value XY. Anything else
/// does not decode here.
pub open spec fn unescape_bytes(t: Seq<u8>) -> Option<Seq<u8>>
    decreases t.len(),
{
    if t.len() == 0 {
        Some(Seq::empty())
    } else if t[0] == 0x5c {
        if t.len() >= 2 && short_escape_value(t[1]) is Some {
            match unescape_bytes(t.skip(2)) {
                Some(rest) => Some(seq![short_escape_value(t[1])->0] + rest),
                None => None,
            }
        } else if t.len() >= 6 && t[1] == 0x75 && t[2] == 0x30 && t[3] == 0x30 && hex_value(t[4]) is Some
            && hex_value(t[5]) is Some {
            match unescape_bytes(t.skip(6)) {
                Some(rest) => Some(seq![(hex_value(t[4])->0 * 16 + hex_value(t[5])->0) as u8] + rest),
                None => None,
            }
        } else {
            None
        }
    } else if t[0] == 0x22 || t[0] < 0x20 {
        None
    } else {
        match unescape_bytes(t.skip(1)) {
            Some(rest) => Some(seq![t[0]] + rest),
            None => None,
        }
    }
}

proof fn lemma_escape_concat(a: Seq<u8>, b: Seq<u8>)
    ensures
        escape_bytes(a + b) == escape_bytes(a) + escape_bytes(b),
    decreases b.len(),
{
    if b.len() == 0 {
        assert(a + b =~= a);
        assert(escape_bytes(a) + escape_bytes(b) =~= escape_bytes(a));
    } else {
        lemma_escape_concat(a, b.drop_last());
        assert((a + b).drop_last() =~= a + b.drop_last());
        assert((a + b).last() == b.last());
        assert(escape_bytes(a) + escape_bytes(b.drop_last()) + escape_byte(b.last()) =~= escape_bytes(a) + (
        escape_bytes(b.drop_last()) + escape_byte(b.last())));
    }
}

proof fn lemma_unescape_one(x: u8, rest: Seq<u8>)
    ensures
        unescape_bytes(escape_byte(x) + rest) == match unescape_bytes(rest) {
            Some(r) => Some(seq![x] + r),
            None => None::<Seq<u8>>,
        },
{
    let t = escape_byte(x) + rest;
    let e = escape_byte(x);
    if x == 0x22 || x == 0x5c || x == 0x0a || x == 0x0d || x == 0x09 || x == 0x08 || x == 0x0c {
        assert(t.skip(2) =~= rest);
        assert(t[0] == 0x5c && t[1] == e[1]);
    } else if x < 0x20 {
        assert(t.skip(6) =~= rest);
        assert(t[0] == 0x5c && t[1] == 0x75 && t[2] == 0x30 && t[3] == 0x30);
        assert(t[4] == hex_digit(x / 16) && t[5] == hex_digit(x % 16));
        assert(x / 16 < 2);
        assert(hex_value(hex_digit(x / 16)) == Some((x / 16) as int));
        assert(hex_value(hex_digit(x % 16)) == Some((x % 16) as int));
        assert((x / 16) as int * 16 + (x % 16) as int == x as int);
    } else {
        assert(t.skip(1) =~= rest);
        assert(t[0] == x);
    }
}

/// Decoding undoes escaping: the JSON string body written for a byte string
/// decodes back to exactly that byte string.
pub proof fn escaped_bytes_decode_back(s: Seq<u8>)
    ensures
        unescape_bytes(escape_bytes(s)) == Some(s),
    decreases s.len(),
{
    if s.len() > 0 {
        let rest = s.drop_first();
        escaped_bytes_decode_back(rest);
        assert(s =~= seq![s[0]] + rest);
        lemma_escape_concat(seq![s[0]], rest);
        let one = seq![s[0]];
        assert(one.drop_last() =~= Seq::<u8>::empty());
        assert(escape_bytes(one.drop_last()) == Seq::<u8>::empty());
        assert(one.last() == s[0]);
        assert(escape_bytes(one) =~= escape_byte(s[0]));
        lemma_unescape_one(s[0], escape_bytes(rest));
        assert(seq![s[0]] + rest =~= s);
    }
}

/// A handler's return value as JSON data: `null`, a boolean, a number, a
/// string, an array, or an object whose members are kept in order. A
/// number holds its JSON text as the caller rendered it (an integer's
/// decimal digits, a finite float's shortest text).
pub enum JsonValue {
    Null,
    Bool(bool),
    Number(String),
    Text(String),
    Array(Vec<JsonValue>),
    Object(Vec<(String, JsonValue)>),
}

/// The JSON text of a value: literals for `null` and the booleans, the
/// number's own text, a string literal for a string, and the items (or the
/// `"key":value` members) of an array (or object) between brackets (or
/// braces), separated by commas, with no whitespace.
pub open spec fn json_text(v: JsonValue) -> Seq<u8>
    decreases v, 1nat,
{
    match v {
        JsonValue::Null => seq![0x6eu8, 0x75u8, 0x6cu8, 0x6cu8],
        JsonValue::Bool(b) => if b {
            seq![0x74u8, 0x72u8, 0x75u8, 0x65u8]
        } else {
            seq![0x66u8, 0x61u8, 0x6cu8, 0x73u8, 0x65u8]
        },
        JsonValue::Number(t) => encode_utf8(t@),
        JsonValue::Text(t) => json_string(encode_utf8(t@)),
        JsonValue::Array(items) => seq![0x5bu8] + json_items(items@) + seq![0x5du8],
        JsonValue::Object(members) => seq![0x7bu8] + json_members(members@) + seq![0x7du8],
    }
}

/// The texts of `items`, separated by commas.
pub open spec fn json_items(items: Seq<JsonValue>) -> Seq<u8>
    decreases items, 0nat,
{
    if items.len() == 0 {
        Seq::empty()
    } else if items.len() == 1 {
        json_text(items[0])
    } else {
        json_items(items.drop_last()) + seq![0x2cu8] + json_text(items.last())
    }
}

/// The `"key":value` texts of `members`, separated by commas.
pub open spec fn json_members(members: Seq<(String, JsonValue)>) -> Seq<u8>
    decreases members, 0nat,
{
    if members.len() == 0 {
        Seq::empty()
    } else {
        let member = members.last();
        let text = json_string(encode_utf8(member.0@)) + seq![0x3au8] + json_text(member.1);
        if members.len() == 1 {
            text
        } else {
            json_members(members.drop_last()) + seq![0x2cu8] + text
        }
    }
}

/// Writes the JSON text of `value` to the end of `out`.
pub fn write_json_value(value: &JsonValue, out: &mut Vec<u8>)
    ensures
        final(out)@ == old(out)@ + json_text(*value),
    decreases value,
{
    match value {
        JsonValue::Null => {
            out.push(0x6e);
            out.push(0x75);
            out.push(0x6c);
            out.push(0x6c);
            assert(final(out)@ =~= old(out)@ + json_text(*value));
        },
        JsonValue::Bool(flag) => {
            if *flag {
                out.push(0x74);
                out.push(0x72);
                out.push(0x75);
                out.push(0x65);
            } else {
                out.push(0x66);
                out.push(0x61);
                out.push(0x6c);
                out.push(0x73);
                out.push(0x65);
            }
            assert(final(out)@ =~= old(out)@ + json_text(*value));
        },
        JsonValue::Number(text) => {
            append_str(out, text.as_str());
        },
        JsonValue::Text(text) => {
            write_json_string(text.as_str(), out);
        },
        JsonValue::Array(items) => {
            out.push(0x5b);
            let ghost start = out@;
            let n = items.len();
            let mut i: usize = 0;
            while i < n
                invariant
                    n == items@.len(),
                    *value == JsonValue::Array(*items),
                    i <= n,
                    out@ == start + json_items(items@.take(i as int)),
                decreases n - i,
            {
                if i > 0 {
                    out.push(0x2c);
                }
                assert(decreases_to!(*value => value->Array_0));
                assert(decreases_to!(value->Array_0 => value->Array_0@));
                assert(decreases_to!(items@ => items@[i as int]));
                write_json_value(&items[i], out);
                proof {
                    let t = items@.take(i + 1);
                    assert(t.drop_last() =~= items@.take(i as int));
                    assert(t.last() == items@[i as int]);
                    if i == 0 {
                        assert(t[0] == items@[0]);
                    }
                    assert(out@ =~= start + json_items(t));
                }
                i = i + 1;
            }
            assert(items@.take(n as int) =~= items@);
            out.push(0x5d);
            assert(final(out)@ =~= old(out)@ + json_text(*value));
        },
        JsonValue::Object(members) => {
            out.push(0x7b);
            let ghost start = out@;
            let n = members.len();
            let mut i: usize = 0;
            while i < n
                invariant
                    n == members@.len(),
                    *value == JsonValue::Object(*members),
                    i <= n,
                    out@ == start + json_members(members@.take(i as int)),
                decreases n - i,
            {
                if i > 0 {
                    out.push(0x2c);
                }
                write_json_string(members[i].0.as_str(), out);
                out.push(0x3a);
                assert(decreases_to!(*value => value->Object_0));
                assert(decreases_to!(value->Object_0 => value->Object_0@));
                assert(decreases_to!(members@ => members@[i as int]));
                assert(decreases_to!(members@[i as int] => members@[i as int].1));
                write_json_value(&members[i].1, out);
                proof {
                    let t = members@.take(i + 1);
                    assert(t.drop_last() =~= members@.take(i as int));
                    assert(t.last() == members@[i as int]);
                    assert(out@ =~= start + json_members(t));
                }
                i = i + 1;
            }
            assert(members@.take(n as int) =~= members@);
            out.push(0x7d);
            assert(final(out)@ =~= old(out)@ + json_text(*value));
        },
    }
}

/// Escaping changes only quotes, backslashes and control bytes: every
/// other byte, UTF-8 lead and continuation bytes included, is written as
/// itself, and a byte that is changed becomes a backslash escape of two or
/// six bytes.
pub proof fn only_quotes_backslashes_and_controls_are_escaped(b: u8)
    ensures
        b >= 0x20 && b != 0x22 && b != 0x5c ==> escape_byte(b) == seq![b],
        b < 0x20 || b == 0x22 || b == 0x5c ==> escape_byte(b)[0] == 0x5c && (escape_byte(b).len() == 2
            || escape_byte(b).len() == 6),
{
}

/// Escaping works byte by byte: the escaped form of two texts one after
/// the other is their escaped forms one after the other.
pub proof fn escaping_is_piecewise(a: Seq<u8>, b: Seq<u8>)
    ensures
        escape_bytes(a + b) == escape_bytes(a) + escape_bytes(b),
    decreases b.len(),
{
    if b.len() == 0 {
        assert(a + b =~= a);
        assert(escape_bytes(a) + escape_bytes(b) =~= escape_bytes(a));
    } else {
        assert((a + b).drop_last() =~= a + b.drop_last());
        assert((a + b).last() == b.last());
        escaping_is_piecewise(a, b.drop_last());
        assert(escape_bytes(a + b) =~= escape_bytes(a) + escape_bytes(b));
    }
}

/// A text with no quote, backslash or control byte (any UTF-8 text of
/// printable characters other than `"` and `\`) is written as itself
/// between quotes.
pub proof fn plain_text_is_written_as_is(s: Seq<u8>)
    requires
        forall|i: int| 0 <= i < s.len() ==> s[i] >= 0x20 && s[i] != 0x22 && s[i] != 0x5c,
    ensures
        escape_bytes(s) == s,
        json_string(s) == seq![0x22u8] + s + seq![0x22u8],
    decreases s.len(),
{
    if s.len() > 0 {
        plain_text_is_written_as_is(s.drop_last());
        only_quotes_backslashes_and_controls_are_escaped(s.last());
        assert(s.drop_last() + seq![s.last()] =~= s);
    }
}

/// The literals: `null`, `true` and `false`; a number is its own text; a
/// string is a quoted literal.
pub proof fn json_scalars_are_literals(v: JsonValue)
    ensures
        v is Null ==> json_text(v) =~= seq![0x6eu8, 0x75u8, 0x6cu8, 0x6cu8],
        v matches JsonValue::Bool(b) ==> json_text(v) =~= if b {
            seq![0x74u8, 0x72u8, 0x75u8, 0x65u8]
        } else {
            seq![0x66u8, 0x61u8, 0x6cu8, 0x73u8, 0x65u8]
        },
        v matches JsonValue::Number(t) ==> json_text(v) == encode_utf8(t@),
        v matches JsonValue::Text(t) ==> json_text(v) == json_string(encode_utf8(t@)),
{
}

/// An array is written between brackets and an object between braces,
/// whatever their length: the empty ones are `[]` and `{}`.
pub proof fn json_containers_are_bracketed(v: JsonValue)
    ensures
        v is Array ==> json_text(v).len() >= 2 && json_text(v)[0] == 0x5b && json_text(v).last() == 0x5d,
        v is Object ==> json_text(v).len() >= 2 && json_text(v)[0] == 0x7b && json_text(v).last() == 0x7d,
        v matches JsonValue::Array(items) && items@.len() == 0 ==> json_text(v) =~= seq![0x5bu8, 0x5du8],
        v matches JsonValue::Object(members) && members@.len() == 0 ==> json_text(v) =~= seq![0x7bu8, 0x7du8],
{
    match v {
        JsonValue::Array(items) => {
            let t = seq![0x5bu8] + json_items(items@) + seq![0x5du8];
            assert(t[0] == 0x5b);
            assert(t.last() == 0x5d);
        },
        JsonValue::Object(members) => {
            let t = seq![0x7bu8] + json_members(members@) + seq![0x7du8];
            assert(t[0] == 0x7b);
            assert(t.last() == 0x7d);
        },
        _ => {},
    }
}

/// How an array grows: with one item, it is that item's text between
/// brackets; with one more item after others, it is the text of the
/// others without its closing bracket, a comma, the new item's text and
/// the closing bracket.
pub proof fn json_array_grows_item_by_item(before: Vec<JsonValue>, after: Vec<JsonValue>, item: JsonValue)
    requires
        after@ == before@.push(item),
    ensures
        before@.len() == 0 ==> json_text(JsonValue::Array(after)) == seq![0x5bu8] + json_text(item) + seq![0x5du8],
        before@.len() > 0 ==> json_text(JsonValue::Array(after)) == json_text(JsonValue::Array(before)).drop_last()
            + seq![0x2cu8] + json_text(item) + seq![0x5du8],
{
    assert(after@.drop_last() =~= before@);
    assert(after@.last() == item);
    if before@.len() == 0 {
        assert(after@[0] == item);
    } else {
        let inner = json_items(before@);
        assert((seq![0x5bu8] + inner + seq![0x5du8]).drop_last() =~= seq![0x5bu8] + inner);
        assert(json_text(JsonValue::Array(after)) =~= seq![0x5bu8] + inner + seq![0x2cu8] + json_text(item)
            + seq![0x5du8]);
    }
}

/// The `"key":value` text of an object member.
pub open spec fn member_text(key: Seq<char>, value: JsonValue) -> Seq<u8> {
    json_string(encode_utf8(key)) + seq![0x3au8] + json_text(value)
}

/// How an object grows: with one member, it is that member's
/// `"key":value` between braces; with one more member after others, it is
/// the text of the others without its closing brace, a comma, the new
/// member and the closing brace. Members keep their order.
pub proof fn json_object_grows_member_by_member(
    before: Vec<(String, JsonValue)>,
    after: Vec<(String, JsonValue)>,
    key: String,
    value: JsonValue,
)
    requires
        after@ == before@.push((key, value)),
    ensures
        before@.len() == 0 ==> json_text(JsonValue::Object(after)) == seq![0x7bu8] + member_text(key@, value)
            + seq![0x7du8],
        before@.len() > 0 ==> json_text(JsonValue::Object(after)) == json_text(JsonValue::Object(before)).drop_last()
            + seq![0x2cu8] + member_text(key@, value) + seq![0x7du8],
{
    assert(after@.drop_last() =~= before@);
    assert(after@.last() == (key, value));
    if before@.len() > 0 {
        let inner = json_members(before@);
        assert((seq![0x7bu8] + inner + seq![0x7du8]).drop_last() =~= seq![0x7bu8] + inner);
        assert(json_text(JsonValue::Object(after)) =~= seq![0x7bu8] + inner + seq![0x2cu8] + member_text(
            key@,
            value,
        ) + seq![0x7du8]);
    }
}

} // verus!
