//! Typed path parameters: the conversion codes the Python surface assigns,
//! the conversion of raw path segments, and the 422 that names what is
//! wrong when a conversion fails.

use vstd::prelude::*;
use vstd::string::StringSliceAdditionalSpecFns;
use vstd::utf8::encode_utf8;
use crate::json::{append_bytes, append_str, json_string, write_json_bytes};
use crate::response::{json_type, HandlerResponse};

verus! {

/// How a path parameter converts before reaching the handler.
#[derive(Clone, Copy, PartialEq, Eq, Structural, Debug)]
pub enum ParamKind {
    Str,
    Int,
    Float,
    Bool,
}

/// The kind registered under each code.
pub open spec fn kind_of_code(code: u8) -> Option<ParamKind> {
    if code == 0 {
        Some(ParamKind::Str)
    } else if code == 1 {
        Some(ParamKind::Int)
    } else if code == 2 {
        Some(ParamKind::Float)
    } else if code == 3 {
        Some(ParamKind::Bool)
    } else {
        None
    }
}

/// The type name that error messages use for each kind.
pub open spec fn kind_name(kind: ParamKind) -> Seq<char> {
    match kind {
        ParamKind::Str => "str"@,
        ParamKind::Int => "int"@,
        ParamKind::Float => "float"@,
        ParamKind::Bool => "bool"@,
    }
}

impl ParamKind {
    /// The kind for a registration code: 0 str, 1 int, 2 float, 3 bool.
    pub fn from_code(code: u8) -> (kind: Option<ParamKind>)
        ensures
            kind == kind_of_code(code),
    {
        match code {
            0 => Some(ParamKind::Str),
            1 => Some(ParamKind::Int),
            2 => Some(ParamKind::Float),
            3 => Some(ParamKind::Bool),
            _ => None,
        }
    }

    /// The type name that error messages use for this kind.
    pub fn expected_name(self) -> (name: &'static str)
        ensures
            name@ == kind_name(self),
    {
        match self {
            ParamKind::Str => "str",
            ParamKind::Int => "int",
            ParamKind::Float => "float",
            ParamKind::Bool => "bool",
        }
    }
}

/// A decimal digit byte.
pub open spec fn is_digit(b: u8) -> bool {
    48 <= b <= 57
}

/// The value of a string of decimal digits.
pub open spec fn digits_value(s: Seq<u8>) -> nat
    decreases s.len(),
{
    if s.len() == 0 {
        0
    } else {
        digits_value(s.drop_last()) * 10 + (s.last() - 48) as nat
    }
}

/// A decimal integer without its leading sign, if it has one.
pub open spec fn unsigned_part(s: Seq<u8>) -> Seq<u8> {
    if s.len() > 0 && (s[0] == 45 || s[0] == 43) { s.drop_first() } else { s }
}

/// How a decimal integer parses: an optional `+` or `-`, then one or more
/// decimal digits and nothing else, with a value that fits in an `i64`.
pub open spec fn parse_i64_spec(s: Seq<u8>) -> Option<i64> {
    let negative = s.len() > 0 && s[0] == 45;
    let digits = unsigned_part(s);
    let magnitude = digits_value(digits) as int;
    let value = if negative { -magnitude } else { magnitude };
    if digits.len() == 0 || !(forall|i: int| 0 <= i < digits.len() ==> is_digit(#[trigger] digits[i])) {
        None
    } else if i64::MIN <= value <= i64::MAX {
        Some(value as i64)
    } else {
        None
    }
}

proof fn lemma_digits_value_grows(s: Seq<u8>, k: int)
    requires
        0 <= k <= s.len(),
        forall|i: int| 0 <= i < s.len() ==> is_digit(#[trigger] s[i]),
    ensures
        digits_value(s.take(k)) <= digits_value(s),
    decreases s.len() - k,
{
    if k < s.len() {
        lemma_digits_value_grows(s, k + 1);
        let t = s.take(k + 1);
        assert(t.drop_last() == s.take(k));
    } else {
        assert(s.take(k) == s);
    }
}

/// Parses a decimal `i64` as the standard library's `str::parse` does.
pub fn parse_i64(text: &[u8]) -> (value: Option<i64>)
    ensures
        value == parse_i64_spec(text@),
{
    let n = text.len();
    if n == 0 {
        return None;
    }
    let negative = text[0] == 45;
    let start: usize = if text[0] == 45 || text[0] == 43 { 1 } else { 0 };
    let ghost digits = if start == 1 { text@.drop_first() } else { text@ };
    assert(digits =~= text@.subrange(start as int, n as int));
    if start == n {
        return None;
    }
    let limit: u128 = 9223372036854775808;
    let mut magnitude: u128 = 0;
    let mut i: usize = start;
    while i < n
        invariant
            n == text@.len(),
            start <= i <= n,
            start == 0 || start == 1,
            digits == text@.subrange(start as int, n as int),
            digits == unsigned_part(text@),
            digits.len() == n - start,
            forall|j: int| 0 <= j < i - start ==> is_digit(#[trigger] digits[j]),
            magnitude == digits_value(digits.take(i - start)),
            magnitude <= limit,
            limit == 9223372036854775808,
            negative == (text@[0] == 45),
        decreases n - i,
    {
        let b = text[i];
        if b < 48 || b > 57 {
            assert(!is_digit(digits[i - start]));
            assert(!(forall|j: int| 0 <= j < digits.len() ==> is_digit(#[trigger] digits[j])));
            return None;
        }
        proof {
            let t = digits.take(i - start + 1);
            assert(t.drop_last() == digits.take(i - start));
            assert(t.last() == b);
        }
        magnitude = magnitude * 10 + (b - 48) as u128;
        i = i + 1;
        if magnitude > limit {
            proof {
                if forall|j: int| 0 <= j < digits.len() ==> is_digit(#[trigger] digits[j]) {
                    lemma_digits_value_grows(digits, i - start);
                }
            }
            return None;
        }
    }
    assert(digits.take(n - start) == digits);
    if negative {
        if magnitude == limit {
            Some(-9223372036854775807i64 - 1)
        } else {
            let m = magnitude as i64;
            Some(-m)
        }
    } else if magnitude == limit {
        None
    } else {
        Some(magnitude as i64)
    }
}

/// ASCII lower case of a byte.
pub open spec fn ascii_lower(b: u8) -> u8 {
    if 65 <= b <= 90 { (b + 32) as u8 } else { b }
}

/// Equality of two byte strings, ignoring ASCII case.
pub open spec fn eq_ignore_ascii_case(a: Seq<u8>, b: Seq<u8>) -> bool {
    a.len() == b.len() && forall|i: int| 0 <= i < a.len() ==> ascii_lower(#[trigger] a[i]) == ascii_lower(b[i])
}

/// How a boolean path parameter parses: `true` (any case) or `1`, and
/// `false` (any case) or `0`.
pub open spec fn parse_bool_spec(s: Seq<u8>) -> Option<bool> {
    if eq_ignore_ascii_case(s, encode_utf8("true"@)) || s == encode_utf8("1"@) {
        Some(true)
    } else if eq_ignore_ascii_case(s, encode_utf8("false"@)) || s == encode_utf8("0"@) {
        Some(false)
    } else {
        None
    }
}

fn ascii_lower_exec(b: u8) -> (l: u8)
    ensures
        l == ascii_lower(b),
{
    if 65 <= b && b <= 90 { b + 32 } else { b }
}

/// Byte-string equality, ignoring ASCII case.
pub fn bytes_eq_ignore_ascii_case(a: &[u8], b: &[u8]) -> (eq: bool)
    ensures
        eq == eq_ignore_ascii_case(a@, b@),
{
    if a.len() != b.len() {
        return false;
    }
    let n = a.len();
    let mut i: usize = 0;
    while i < n
        invariant
            n == a@.len(),
            n == b@.len(),
            i <= n,
            forall|j: int| 0 <= j < i ==> ascii_lower(#[trigger] a@[j]) == ascii_lower(b@[j]),
        decreases n - i,
    {
        if ascii_lower_exec(a[i]) != ascii_lower_exec(b[i]) {
            return false;
        }
        i = i + 1;
    }
    true
}

/// Byte-string equality.
pub fn bytes_eq(a: &[u8], b: &[u8]) -> (eq: bool)
    ensures
        eq == (a@ == b@),
{
    if a.len() != b.len() {
        return false;
    }
    let n = a.len();
    let mut i: usize = 0;
    while i < n
        invariant
            n == a@.len(),
            n == b@.len(),
            i <= n,
            forall|j: int| 0 <= j < i ==> a@[j] == b@[j],
        decreases n - i,
    {
        if a[i] != b[i] {
            return false;
        }
        i = i + 1;
    }
    assert(a@ =~= b@);
    true
}

/// Text equality, by the UTF-8 bytes.
pub fn str_eq(a: &str, b: &str) -> (eq: bool)
    ensures
        eq == (a@ == b@),
{
    let eq = bytes_eq(a.as_bytes(), b.as_bytes());
    proof {
        vstd::utf8::encode_utf8_decode_utf8(a@);
        vstd::utf8::encode_utf8_decode_utf8(b@);
    }
    eq
}

/// Parses a boolean path parameter.
pub fn parse_bool(text: &[u8]) -> (value: Option<bool>)
    ensures
        value == parse_bool_spec(text@),
{
    if bytes_eq_ignore_ascii_case(text, "true".as_bytes()) || bytes_eq(text, "1".as_bytes()) {
        Some(true)
    } else if bytes_eq_ignore_ascii_case(text, "false".as_bytes()) || bytes_eq(text, "0".as_bytes()) {
        Some(false)
    } else {
        None
    }
}

/// The message of a failed conversion: which parameter, which type was
/// expected, and the value that was given.
pub open spec fn validation_message(name: Seq<char>, kind: ParamKind, raw: Seq<char>) -> Seq<u8> {
    encode_utf8("path parameter '"@) + encode_utf8(name) + encode_utf8("' expected "@) + encode_utf8(
        kind_name(kind),
    ) + encode_utf8(", got '"@) + encode_utf8(raw) + encode_utf8("'"@)
}

/// The JSON body of a failed conversion: `{"detail": <message>}`.
pub open spec fn validation_body(name: Seq<char>, kind: ParamKind, raw: Seq<char>) -> Seq<u8> {
    encode_utf8("{\"detail\":"@) + json_string(validation_message(name, kind, raw)) + encode_utf8(
        "}"@,
    )
}

/// Whether `response` is the 422 for a failed conversion of `raw` to `kind`.
pub open spec fn is_validation_error(
    response: HandlerResponse,
    name: Seq<char>,
    kind: ParamKind,
    raw: Seq<char>,
) -> bool {
    &&& response.status == 422
    &&& response.content_type@ == json_type()
    &&& response.body@ == validation_body(name, kind, raw)
}

/// The 422 for a path parameter that does not convert: a JSON body that
/// names the parameter, the expected type and the value. A client error,
/// answered without Python.
pub fn validation_error_response(param_name: &str, expected: ParamKind, raw_value: &str) -> (response:
    HandlerResponse)
    ensures
        is_validation_error(response, param_name@, expected, raw_value@),
{
    let mut message: Vec<u8> = Vec::new();
    append_str(&mut message, "path parameter '");
    append_str(&mut message, param_name);
    append_str(&mut message, "' expected ");
    append_str(&mut message, expected.expected_name());
    append_str(&mut message, ", got '");
    append_str(&mut message, raw_value);
    append_str(&mut message, "'");
    let mut body: Vec<u8> = Vec::new();
    append_str(&mut body, "{\"detail\":");
    write_json_bytes(message.as_slice(), &mut body);
    append_str(&mut body, "}");
    assert(message@ =~= validation_message(param_name@, expected, raw_value@));
    assert(body@ =~= validation_body(param_name@, expected, raw_value@));
    HandlerResponse { status: 422, content_type: "application/json", body }
}

/// A converted path parameter, ready to become a handler argument.
pub enum ParamValue {
    Text(String),
    Integer(i64),
    Boolean(bool),
    /// A parameter declared `float`: its text, for the caller to convert
    /// to a floating-point number.
    FloatText(String),
}

/// The converted value a raw segment gives for each kind, if it converts.
pub open spec fn converts_to(kind: ParamKind, raw: Seq<char>, value: ParamValue) -> bool {
    match kind {
        ParamKind::Str => value matches ParamValue::Text(t) && t@ == raw,
        ParamKind::Float => value matches ParamValue::FloatText(t) && t@ == raw,
        ParamKind::Int => parse_i64_spec(encode_utf8(raw)) matches Some(v) && value == ParamValue::Integer(v),
        ParamKind::Bool => parse_bool_spec(encode_utf8(raw)) matches Some(v) && value == ParamValue::Boolean(v),
    }
}

/// Whether a raw segment converts to `kind` at all.
pub open spec fn convertible(kind: ParamKind, raw: Seq<char>) -> bool {
    match kind {
        ParamKind::Str | ParamKind::Float => true,
        ParamKind::Int => parse_i64_spec(encode_utf8(raw)) is Some,
        ParamKind::Bool => parse_bool_spec(encode_utf8(raw)) is Some,
    }
}

/// Converts the raw value of a path parameter to its declared kind; a
/// value that does not convert is the client's error, a 422 naming it.
pub fn convert_param(param_name: &str, kind: ParamKind, raw_value: &str) -> (converted: Result<
    ParamValue,
    HandlerResponse,
>)
    ensures
        convertible(kind, raw_value@) <==> converted is Ok,
        converted matches Ok(v) ==> converts_to(kind, raw_value@, v),
        converted matches Err(r) ==> is_validation_error(r, param_name@, kind, raw_value@),
{
    match kind {
        ParamKind::Str => Ok(ParamValue::Text(raw_value.to_owned())),
        ParamKind::Float => Ok(ParamValue::FloatText(raw_value.to_owned())),
        ParamKind::Int => match parse_i64(raw_value.as_bytes()) {
            Some(v) => Ok(ParamValue::Integer(v)),
            None => Err(validation_error_response(param_name, kind, raw_value)),
        },
        ParamKind::Bool => match parse_bool(raw_value.as_bytes()) {
            Some(v) => Ok(ParamValue::Boolean(v)),
            None => Err(validation_error_response(param_name, kind, raw_value)),
        },
    }
}

/// Captured parameters as text.
pub open spec fn params_view(params: Seq<(String, String)>) -> Seq<(Seq<char>, Seq<char>)> {
    params.map_values(|p: (String, String)| (p.0@, p.1@))
}

/// `i` is the first matched parameter called `name`.
pub open spec fn is_first_match(matched: Seq<(Seq<char>, Seq<char>)>, name: Seq<char>, i: int) -> bool {
    &&& 0 <= i < matched.len()
    &&& matched[i].0 == name
    &&& forall|j: int| 0 <= j < i ==> (#[trigger] matched[j]).0 != name
}

/// Some matched parameter is called `name`.
pub open spec fn has_match(matched: Seq<(Seq<char>, Seq<char>)>, name: Seq<char>) -> bool {
    exists|i: int| 0 <= i < matched.len() && (#[trigger] matched[i]).0 == name
}

/// The raw value of the first matched parameter called `name`.
pub open spec fn matched_value(matched: Seq<(Seq<char>, Seq<char>)>, name: Seq<char>) -> Seq<char> {
    matched[choose|i: int| is_first_match(matched, name, i)].1
}

/// A declared parameter is present among the matched ones and converts.
pub open spec fn resolves(param: (String, ParamKind), matched: Seq<(Seq<char>, Seq<char>)>) -> bool {
    has_match(matched, param.0@) && convertible(param.1, matched_value(matched, param.0@))
}

/// The response for the declared parameter that does not resolve: an
/// internal error if it is missing (registration guarantees it is not),
/// else the 422 for its value.
pub open spec fn unresolved_response(
    param: (String, ParamKind),
    matched: Seq<(Seq<char>, Seq<char>)>,
    response: HandlerResponse,
) -> bool {
    if !has_match(matched, param.0@) {
        response.is_internal_error()
    } else {
        is_validation_error(response, param.0@, param.1, matched_value(matched, param.0@))
    }
}

/// The outcome of building the handler arguments for the declared
/// parameters from the matched ones: each declared parameter, in order,
/// takes the value of the first matched one of its name, converted to its
/// kind, until the first one that is missing or does not convert, whose
/// response is the failure. `values` are the converted ones before it.
pub open spec fn resolution_matches(
    declared: Seq<(String, ParamKind)>,
    matched: Seq<(Seq<char>, Seq<char>)>,
    values: Seq<(String, ParamValue)>,
    failure: Option<HandlerResponse>,
) -> bool {
    &&& values.len() <= declared.len()
    &&& forall|j: int|
        0 <= j < values.len() ==> {
            &&& resolves(#[trigger] declared[j], matched)
            &&& values[j].0@ == declared[j].0@
            &&& converts_to(declared[j].1, matched_value(matched, declared[j].0@), values[j].1)
        }
    &&& failure is None <==> values.len() == declared.len()
    &&& failure matches Some(response) ==> !resolves(declared[values.len() as int], matched)
        && unresolved_response(declared[values.len() as int], matched, response)
}

/// Finds the first matched parameter called `name`.
pub fn find_matched(matched: &Vec<(String, String)>, name: &String) -> (found: Option<usize>)
    ensures
        found matches Some(i) ==> is_first_match(params_view(matched@), name@, i as int),
        found is None ==> !has_match(params_view(matched@), name@),
{
    let n = matched.len();
    let ghost view = params_view(matched@);
    let mut i: usize = 0;
    while i < n
        invariant
            n == matched@.len(),
            view == params_view(matched@),
            i <= n,
            forall|j: int| 0 <= j < i ==> (#[trigger] view[j]).0 != name@,
        decreases n - i,
    {
        if matched[i].0 == *name {
            assert(view[i as int].0 == name@);
            return Some(i);
        }
        assert(view[i as int].0 != name@);
        i = i + 1;
    }
    None
}

proof fn lemma_first_match_value(matched: Seq<(Seq<char>, Seq<char>)>, name: Seq<char>, i: int)
    requires
        is_first_match(matched, name, i),
    ensures
        has_match(matched, name),
        matched_value(matched, name) == matched[i].1,
{
    let k = choose|k: int| is_first_match(matched, name, k);
    assert(is_first_match(matched, name, k));
    if k < i {
        assert(matched[k].0 != name);
    } else if i < k {
        assert(matched[i].0 != name);
    }
}

/// Builds the handler arguments from the matched path segments (see
/// `resolution_matches`): the converted arguments, up to the first
/// parameter that fails, and that failure's response.
pub fn resolve_params(declared: &Vec<(String, ParamKind)>, matched: &Vec<(String, String)>) -> (resolved:
    (Vec<(String, ParamValue)>, Option<HandlerResponse>))
    ensures
        resolution_matches(declared@, params_view(matched@), resolved.0@, resolved.1),
{
    let n = declared.len();
    let ghost view = params_view(matched@);
    let mut values: Vec<(String, ParamValue)> = Vec::new();
    let mut k: usize = 0;
    while k < n
        invariant
            n == declared@.len(),
            view == params_view(matched@),
            k <= n,
            values@.len() == k,
            forall|j: int|
                0 <= j < k ==> {
                    &&& resolves(#[trigger] declared@[j], view)
                    &&& values@[j].0@ == declared@[j].0@
                    &&& converts_to(declared@[j].1, matched_value(view, declared@[j].0@), values@[j].1)
                },
        decreases n - k,
    {
        let name = &declared[k].0;
        let kind = declared[k].1;
        match find_matched(matched, name) {
            None => {
                let response = HandlerResponse::internal_error();
                assert(!resolves(declared@[k as int], view));
                return (values, Some(response));
            },
            Some(i) => {
                proof {
                    lemma_first_match_value(view, name@, i as int);
                }
                match convert_param(name.as_str(), kind, matched[i].1.as_str()) {
                    Ok(v) => {
                        values.push((name.clone(), v));
                    },
                    Err(response) => {
                        assert(!resolves(declared@[k as int], view));
                        return (values, Some(response));
                    },
                }
            },
        }
        k = k + 1;
    }
    (values, None)
}

} // verus!
