//! The argument validator: checks a JSON argument object against a tool's
//! declared schema subset (`type`, `properties`, `required`,
//! `additionalProperties`, `minLength`, `maxLength`, `pattern`,
//! `minimum`, `maximum`, `maxItems`).
//!
//! Validation is fail-fast: the first violation found decides the result,
//! and the exact wording of each failure message is part of the contract,
//! because the dispatcher classifies failures by their message text.

use crate::json::{
    entries_view, json_view, lemma_entries_view, lemma_seq_view, obj_get, obj_get_v, obj_has_key_v,
    seq_view, Json, JsonNum, JsonV, NumRepr, NumV,
};
use crate::text::{
    chars_of, is_char_prefix, lemma_strings_view, spec_u64_str, starts_with_chars, str_eq,
    strings_view, u64_to_string,
};
use vstd::string::StringSliceAdditionalSpecFns;
use vstd::utf8::encode_utf8;
use vstd::prelude::*;
use vstd::string::StringExecFns;

verus! {

/// Whether a JSON number is an integer.
pub open spec fn spec_is_integer(n: NumV) -> bool {
    n.repr is PosInt || n.repr is NegInt
}

/// The name of a JSON value's type, as the validator reports it.
pub open spec fn spec_type_name(v: JsonV) -> Seq<char> {
    match v {
        JsonV::Str(_) => "string"@,
        JsonV::Num(n) => if spec_is_integer(n) {
            "integer"@
        } else {
            "number"@
        },
        JsonV::Bool(_) => "boolean"@,
        JsonV::Arr(_) => "array"@,
        JsonV::Obj(_) => "object"@,
        JsonV::Null => "null"@,
    }
}

/// The field of an object-valued JSON value, if any.
pub open spec fn spec_get(j: JsonV, k: Seq<char>) -> Option<JsonV> {
    match j {
        JsonV::Obj(entries) => obj_get_v(entries, k),
        _ => None,
    }
}

/// A field read as a nonnegative integer, if it is one.
pub open spec fn spec_get_u64(j: JsonV, k: Seq<char>) -> Option<u64> {
    match spec_get(j, k) {
        Some(JsonV::Num(n)) => match n.repr {
            NumRepr::PosInt(u) => Some(u),
            _ => None,
        },
        _ => None,
    }
}

/// A field read as a string, if it is one.
pub open spec fn spec_get_str(j: JsonV, k: Seq<char>) -> Option<Seq<char>> {
    match spec_get(j, k) {
        Some(JsonV::Str(s)) => Some(s),
        _ => None,
    }
}

/// A field read as a number, if it is one.
pub open spec fn spec_get_num(j: JsonV, k: Seq<char>) -> Option<NumV> {
    match spec_get(j, k) {
        Some(JsonV::Num(n)) => Some(n),
        _ => None,
    }
}

/// The schema's `properties` object, when present and itself an object.
pub open spec fn spec_schema_props(schema: JsonV) -> Option<Seq<(Seq<char>, JsonV)>> {
    match spec_get(schema, "properties"@) {
        Some(JsonV::Obj(props)) => Some(props),
        _ => None,
    }
}

/// The property set the unexpected-key scan goes by: the `properties`
/// object's entries when the schema declares one, and no entries at all
/// otherwise — so that, with `additionalProperties` false, a schema
/// without a `properties` object admits no argument key whatever.
pub open spec fn spec_props_or_empty(schema: JsonV) -> Seq<(Seq<char>, JsonV)> {
    match spec_schema_props(schema) {
        Some(props) => props,
        None => Seq::empty(),
    }
}

/// The string elements of a list of JSON values, in order; other elements
/// are passed over.
pub open spec fn spec_str_items(items: Seq<JsonV>) -> Seq<Seq<char>>
    decreases items.len(),
{
    if items.len() == 0 {
        Seq::empty()
    } else {
        spec_str_items(items.drop_last()) + (match items.last() {
            JsonV::Str(s) => seq![s],
            _ => Seq::empty(),
        })
    }
}

/// The schema's `required` list: the string entries of the `required`
/// array, when present and an array.
pub open spec fn spec_required(schema: JsonV) -> Seq<Seq<char>> {
    match spec_get(schema, "required"@) {
        Some(JsonV::Arr(items)) => spec_str_items(items),
        _ => Seq::empty(),
    }
}

/// The schema's `additionalProperties` flag; `true` unless the field is
/// present and boolean `false`.
pub open spec fn spec_additional(schema: JsonV) -> bool {
    match spec_get(schema, "additionalProperties"@) {
        Some(JsonV::Bool(b)) => b,
        _ => true,
    }
}

/// The `required` names joined with a comma and a space.
pub open spec fn spec_join_comma(names: Seq<Seq<char>>) -> Seq<char>
    decreases names.len(),
{
    if names.len() == 0 {
        Seq::empty()
    } else if names.len() == 1 {
        names[0]
    } else {
        spec_join_comma(names.drop_last()) + ", "@ + names.last()
    }
}

// --- exec accessors, each pinned to its spec counterpart ---

/// The name of a JSON value's type.
pub fn json_type_name(v: &Json) -> (r: &'static str)
    ensures
        r@ == spec_type_name(v@),
{
    match v {
        Json::Str(_) => "string",
        Json::Num(n) => match n.repr {
            NumRepr::PosInt(_) => "integer",
            NumRepr::NegInt(_) => "integer",
            NumRepr::Float => "number",
        },
        Json::Bool(_) => "boolean",
        Json::Arr(_) => "array",
        Json::Obj(_) => "object",
        Json::Null => "null",
    }
}

/// Looks up a field of a JSON value, when the value is an object.
pub fn json_get<'a>(j: &'a Json, key: &String) -> (r: Option<&'a Json>)
    ensures
        match r {
            Some(v) => spec_get(j@, key@) == Some(v@),
            None => spec_get(j@, key@) is None,
        },
{
    match j {
        Json::Obj(entries) => obj_get(entries, key),
        _ => None,
    }
}

/// A field read as a nonnegative integer.
fn get_u64(j: &Json, key: &str) -> (r: Option<u64>)
    ensures
        r == spec_get_u64(j@, key@),
{
    let k = String::from_str(key);
    match json_get(j, &k) {
        Some(Json::Num(n)) => match n.repr {
            NumRepr::PosInt(u) => Some(u),
            _ => None,
        },
        _ => None,
    }
}

/// A field read as a string.
fn get_str<'a>(j: &'a Json, key: &str) -> (r: Option<&'a String>)
    ensures
        match r {
            Some(s) => spec_get_str(j@, key@) == Some(s@),
            None => spec_get_str(j@, key@) is None,
        },
{
    let k = String::from_str(key);
    match json_get(j, &k) {
        Some(Json::Str(s)) => Some(s),
        _ => None,
    }
}

/// A field read as a number.
fn get_num<'a>(j: &'a Json, key: &str) -> (r: Option<&'a JsonNum>)
    ensures
        match r {
            Some(n) => spec_get_num(j@, key@) == Some(n@),
            None => spec_get_num(j@, key@) is None,
        },
{
    let k = String::from_str(key);
    match json_get(j, &k) {
        Some(Json::Num(n)) => Some(n),
        _ => None,
    }
}

/// The schema's `properties` object.
fn schema_props<'a>(schema: &'a Json) -> (r: Option<&'a Vec<(String, Json)>>)
    ensures
        match r {
            Some(p) => spec_schema_props(schema@) == Some(entries_view(p@)),
            None => spec_schema_props(schema@) is None,
        },
{
    let k = String::from_str("properties");
    match json_get(schema, &k) {
        Some(Json::Obj(props)) => Some(props),
        _ => None,
    }
}

/// The schema's `additionalProperties` flag.
fn additional_allowed(schema: &Json) -> (r: bool)
    ensures
        r == spec_additional(schema@),
{
    let k = String::from_str("additionalProperties");
    match json_get(schema, &k) {
        Some(Json::Bool(b)) => *b,
        _ => true,
    }
}

/// The schema's `required` list, as owned strings.
fn required_list(schema: &Json) -> (r: Vec<String>)
    ensures
        strings_view(r@) == spec_required(schema@),
{
    let k = String::from_str("required");
    let mut out: Vec<String> = Vec::new();
    match json_get(schema, &k) {
        Some(Json::Arr(items)) => {
            let ghost itemsv = seq_view(items@);
            proof {
                lemma_seq_view(items@);
            }
            let n: usize = items.len();
            let mut i: usize = 0;
            while i < n
                invariant
                    n == items@.len(),
                    itemsv == seq_view(items@),
                    itemsv.len() == n,
                    forall|m: int| 0 <= m < n ==> itemsv[m] == json_view(items@[m]),
                    0 <= i <= n,
                    strings_view(out@) == spec_str_items(itemsv.take(i as int)),
                decreases n - i,
            {
                proof {
                    assert(itemsv.take(i + 1).drop_last() =~= itemsv.take(i as int));
                    assert(itemsv.take(i + 1).last() == itemsv[i as int]);
                }
                match &items[i] {
                    Json::Str(s) => {
                        let ghost prev = out@;
                        out.push(s.clone());
                        proof {
                            assert(out@.drop_last() =~= prev);
                            assert(strings_view(out@) == strings_view(prev).push(s@));
                            assert(spec_str_items(itemsv.take(i + 1)) =~= spec_str_items(
                                itemsv.take(i as int),
                            ).push(s@));
                        }
                    },
                    _ => {
                        proof {
                            assert(spec_str_items(itemsv.take(i + 1)) =~= spec_str_items(
                                itemsv.take(i as int),
                            ));
                        }
                    },
                }
                i = i + 1;
            }
            proof {
                assert(itemsv.take(n as int) =~= itemsv);
            }
        },
        _ => {},
    }
    out
}

/// Joins names with a comma and a space.
fn join_comma(names: &Vec<String>) -> (r: String)
    ensures
        r@ == spec_join_comma(strings_view(names@)),
{
    proof {
        lemma_strings_view(names@);
    }
    let n: usize = names.len();
    if n == 0 {
        return String::new();
    }
    let mut r = names[0].clone();
    proof {
        assert(strings_view(names@).take(1) =~= seq![names@[0]@]);
        assert(spec_join_comma(strings_view(names@).take(1)) == names@[0]@);
    }
    let mut i: usize = 1;
    while i < n
        invariant
            n == names@.len(),
            1 <= i <= n,
            r@ == spec_join_comma(strings_view(names@).take(i as int)),
            strings_view(names@).len() == n,
            forall|m: int| 0 <= m < n ==> strings_view(names@)[m] == names@[m]@,
        decreases n - i,
    {
        r.append(", ");
        r.append(names[i].as_str());
        proof {
            let sv = strings_view(names@);
            assert(sv.take(i + 1).drop_last() =~= sv.take(i as int));
            assert(sv.take(i + 1).last() == sv[i as int]);
            assert(sv.take(i + 1).len() == i + 1 >= 2);
            assert(r@ =~= spec_join_comma(sv.take(i + 1)));
        }
        i = i + 1;
    }
    proof {
        assert(strings_view(names@).take(n as int) =~= strings_view(names@));
    }
    r
}

// --- failure messages ---

/// "Missing required arguments: a, b"
pub open spec fn msg_missing_args(required: Seq<Seq<char>>) -> Seq<char> {
    "Missing required arguments: "@ + spec_join_comma(required)
}

/// "Arguments must be an object"
pub open spec fn msg_not_object() -> Seq<char> {
    "Arguments must be an object"@
}

/// "Unexpected parameter: 'k'"
pub open spec fn msg_unexpected(k: Seq<char>) -> Seq<char> {
    "Unexpected parameter: '"@ + k + "'"@
}

/// "Missing required parameter: 'n'"
pub open spec fn msg_missing_param(n: Seq<char>) -> Seq<char> {
    "Missing required parameter: '"@ + n + "'"@
}

/// "Parameter 'n' must be of type 'e', got 'a'"
pub open spec fn msg_wrong_type(n: Seq<char>, expected: Seq<char>, actual: Seq<char>) -> Seq<
    char,
> {
    "Parameter '"@ + n + "' must be of type '"@ + expected + "', got '"@ + actual + "'"@
}

/// "Parameter 'n' must be at least 5 characters long"
pub open spec fn msg_min_len(n: Seq<char>, min: u64) -> Seq<char> {
    "Parameter '"@ + n + "' must be at least "@ + spec_u64_str(min) + " characters long"@
}

/// "Parameter 'n' exceeds maximum length of 5"
pub open spec fn msg_max_len(n: Seq<char>, max: u64) -> Seq<char> {
    "Parameter '"@ + n + "' exceeds maximum length of "@ + spec_u64_str(max)
}

/// "Parameter 'n' does not match required pattern"
pub open spec fn msg_pattern(n: Seq<char>) -> Seq<char> {
    "Parameter '"@ + n + "' does not match required pattern"@
}

/// "Parameter 'n' must be at least 18" (the bound printed as the schema
/// carries it)
pub open spec fn msg_minimum(n: Seq<char>, bound: Seq<char>) -> Seq<char> {
    "Parameter '"@ + n + "' must be at least "@ + bound
}

/// "Parameter 'n' must be at most 100"
pub open spec fn msg_maximum(n: Seq<char>, bound: Seq<char>) -> Seq<char> {
    "Parameter '"@ + n + "' must be at most "@ + bound
}

/// "Parameter 'n' exceeds maximum array length of 3"
pub open spec fn msg_max_items(n: Seq<char>, max: u64) -> Seq<char> {
    "Parameter '"@ + n + "' exceeds maximum array length of "@ + spec_u64_str(max)
}

// --- exec message builders ---

fn msg2(a: &str, b: &str) -> (r: String)
    ensures
        r@ == a@ + b@,
{
    let mut r = String::from_str(a);
    r.append(b);
    r
}

fn msg3(a: &str, b: &str, c: &str) -> (r: String)
    ensures
        r@ == a@ + b@ + c@,
{
    let mut r = String::from_str(a);
    r.append(b);
    r.append(c);
    r
}

fn msg4(a: &str, b: &str, c: &str, d: &str) -> (r: String)
    ensures
        r@ == a@ + b@ + c@ + d@,
{
    let mut r = String::from_str(a);
    r.append(b);
    r.append(c);
    r.append(d);
    r
}

fn msg5(a: &str, b: &str, c: &str, d: &str, e: &str) -> (r: String)
    ensures
        r@ == a@ + b@ + c@ + d@ + e@,
{
    let mut r = String::from_str(a);
    r.append(b);
    r.append(c);
    r.append(d);
    r.append(e);
    r
}

fn msg7(a: &str, b: &str, c: &str, d: &str, e: &str, f: &str, g: &str) -> (r: String)
    ensures
        r@ == a@ + b@ + c@ + d@ + e@ + f@ + g@,
{
    let mut r = String::from_str(a);
    r.append(b);
    r.append(c);
    r.append(d);
    r.append(e);
    r.append(f);
    r.append(g);
    r
}

// --- the pattern keyword ---

/// How many copies of `c` open `p`.
pub open spec fn count_leading(p: Seq<char>, c: char) -> int
    decreases p.len(),
{
    if p.len() == 0 || p[0] != c {
        0
    } else {
        1 + count_leading(p.drop_first(), c)
    }
}

/// How many copies of `c` close `p`.
pub open spec fn count_trailing(p: Seq<char>, c: char) -> int
    decreases p.len(),
{
    if p.len() == 0 || p.last() != c {
        0
    } else {
        1 + count_trailing(p.drop_last(), c)
    }
}

proof fn lemma_count_leading_is(p: Seq<char>, c: char, a: int)
    requires
        0 <= a <= p.len(),
        forall|i: int| 0 <= i < a ==> p[i] == c,
        a < p.len() ==> p[a] != c,
    ensures
        count_leading(p, c) == a,
    decreases a,
{
    if a == 0 {
    } else {
        assert(p[0] == c);
        let q = p.drop_first();
        assert(forall|i: int| 0 <= i < a - 1 ==> q[i] == p[i + 1]);
        lemma_count_leading_is(q, c, a - 1);
    }
}

proof fn lemma_count_trailing_is(p: Seq<char>, c: char, b: int)
    requires
        0 <= b <= p.len(),
        forall|i: int| p.len() - b <= i < p.len() ==> p[i] == c,
        b < p.len() ==> p[p.len() - b - 1] != c,
    ensures
        count_trailing(p, c) == b,
    decreases b,
{
    if b == 0 {
    } else {
        assert(p.last() == c);
        let q = p.drop_last();
        assert(forall|i: int| q.len() - (b - 1) <= i < q.len() ==> q[i] == p[i]);
        lemma_count_trailing_is(q, c, b - 1);
    }
}

/// Whether the validator applies a `pattern` string at all: only patterns
/// that open with a caret and close with a star are checked, as a plain
/// prefix test.
pub open spec fn spec_pattern_applies(p: Seq<char>) -> bool {
    p.len() > 0 && p[0] == '^' && p.last() == '*'
}

/// The literal prefix demanded by a pattern: the pattern without its
/// leading carets and, after that, without its trailing stars.
pub open spec fn spec_pattern_prefix(p: Seq<char>) -> Seq<char> {
    let rest = p.skip(count_leading(p, '^'));
    rest.take(rest.len() - count_trailing(rest, '*'))
}

/// Computes the literal prefix demanded by a pattern.
fn pattern_prefix_chars(p: &Vec<char>) -> (r: Vec<char>)
    ensures
        r@ == spec_pattern_prefix(p@),
{
    let n: usize = p.len();
    let mut a: usize = 0;
    while a < n && p[a] == '^'
        invariant
            n == p@.len(),
            0 <= a <= n,
            forall|i: int| 0 <= i < a ==> p@[i] == '^',
        ensures
            0 <= a <= n,
            forall|i: int| 0 <= i < a ==> p@[i] == '^',
            a < n ==> p@[a as int] != '^',
        decreases n - a,
    {
        a = a + 1;
    }
    proof {
        lemma_count_leading_is(p@, '^', a as int);
    }
    let mut c: usize = n;
    while c > a && p[c - 1] == '*'
        invariant
            n == p@.len(),
            a <= c <= n,
            forall|i: int| c <= i < n ==> p@[i] == '*',
        ensures
            a <= c <= n,
            forall|i: int| c <= i < n ==> p@[i] == '*',
            c > a ==> p@[c - 1] != '*',
        decreases c,
    {
        c = c - 1;
    }
    proof {
        let rest = p@.skip(a as int);
        assert(forall|i: int| 0 <= i < rest.len() ==> rest[i] == p@[i + a]);
        lemma_count_trailing_is(rest, '*', n - c);
    }
    let mut out: Vec<char> = Vec::new();
    let mut i: usize = a;
    while i < c
        invariant
            n == p@.len(),
            a <= i <= c <= n,
            out@ =~= p@.subrange(a as int, i as int),
        decreases c - i,
    {
        out.push(p[i]);
        proof {
            assert(out@ =~= p@.subrange(a as int, i + 1));
        }
        i = i + 1;
    }
    proof {
        let rest = p@.skip(a as int);
        assert(out@ =~= rest.take(rest.len() - count_trailing(rest, '*')));
    }
    out
}

// --- checking one value against its sub-schema ---

/// The length of a string in bytes (as `str::len` reports it), the unit
/// the length keywords use.
pub open spec fn spec_byte_len(s: Seq<char>) -> usize {
    encode_utf8(s).len() as usize
}

/// The `type` keyword: the value's type name must equal the expected one,
/// except that an integer also satisfies `"number"`.
pub open spec fn spec_check_type(name: Seq<char>, v: JsonV, schema: JsonV) -> Option<Seq<char>> {
    match spec_get_str(schema, "type"@) {
        Some(expected) => {
            let actual = spec_type_name(v);
            if expected == actual || (expected == "number"@ && actual == "integer"@) {
                None
            } else {
                Some(msg_wrong_type(name, expected, actual))
            }
        },
        None => None,
    }
}

/// The `minLength` keyword, in bytes.
pub open spec fn spec_check_min_len(name: Seq<char>, s: Seq<char>, schema: JsonV) -> Option<
    Seq<char>,
> {
    match spec_get_u64(schema, "minLength"@) {
        Some(min) => if spec_byte_len(s) < min {
            Some(msg_min_len(name, min))
        } else {
            None
        },
        None => None,
    }
}

/// The `maxLength` keyword, in bytes.
pub open spec fn spec_check_max_len(name: Seq<char>, s: Seq<char>, schema: JsonV) -> Option<
    Seq<char>,
> {
    match spec_get_u64(schema, "maxLength"@) {
        Some(max) => if spec_byte_len(s) > max {
            Some(msg_max_len(name, max))
        } else {
            None
        },
        None => None,
    }
}

/// The `pattern` keyword: a plain prefix test, applied only to patterns
/// that open with a caret and close with a star.
pub open spec fn spec_check_pattern(name: Seq<char>, s: Seq<char>, schema: JsonV) -> Option<
    Seq<char>,
> {
    match spec_get_str(schema, "pattern"@) {
        Some(p) => if spec_pattern_applies(p) && !is_char_prefix(spec_pattern_prefix(p), s) {
            Some(msg_pattern(name))
        } else {
            None
        },
        None => None,
    }
}

/// The string checks, in order: `minLength`, `maxLength`, `pattern`.
pub open spec fn spec_check_string(name: Seq<char>, s: Seq<char>, schema: JsonV) -> Option<
    Seq<char>,
> {
    if spec_check_min_len(name, s, schema) is Some {
        spec_check_min_len(name, s, schema)
    } else if spec_check_max_len(name, s, schema) is Some {
        spec_check_max_len(name, s, schema)
    } else {
        spec_check_pattern(name, s, schema)
    }
}

/// The `maximum` keyword.
pub open spec fn spec_check_maximum(name: Seq<char>, n: NumV, schema: JsonV) -> Option<Seq<char>> {
    match spec_get_num(schema, "maximum"@) {
        Some(max) => if n.key > max.key {
            Some(msg_maximum(name, max.txt))
        } else {
            None
        },
        None => None,
    }
}

/// The numeric checks, in order: `minimum`, then `maximum`; numbers
/// compare by their order keys.
pub open spec fn spec_check_number(name: Seq<char>, n: NumV, schema: JsonV) -> Option<Seq<char>> {
    match spec_get_num(schema, "minimum"@) {
        Some(min) => if n.key < min.key {
            Some(msg_minimum(name, min.txt))
        } else {
            spec_check_maximum(name, n, schema)
        },
        None => spec_check_maximum(name, n, schema),
    }
}

/// The `maxItems` keyword.
pub open spec fn spec_check_items(name: Seq<char>, items: Seq<JsonV>, schema: JsonV) -> Option<
    Seq<char>,
> {
    match spec_get_u64(schema, "maxItems"@) {
        Some(max) => if items.len() > max {
            Some(msg_max_items(name, max))
        } else {
            None
        },
        None => None,
    }
}

/// One value against its sub-schema: the type check first, then the
/// checks for the value's shape; the first violation decides.
pub open spec fn spec_check_value(name: Seq<char>, v: JsonV, schema: JsonV) -> Option<Seq<char>> {
    if spec_check_type(name, v, schema) is Some {
        spec_check_type(name, v, schema)
    } else {
        match v {
            JsonV::Str(s) => spec_check_string(name, s, schema),
            JsonV::Num(n) => spec_check_number(name, n, schema),
            JsonV::Arr(items) => spec_check_items(name, items, schema),
            _ => None,
        }
    }
}

/// Validates one named value against its sub-schema.
pub fn check_value(name: &String, v: &Json, schema: &Json) -> (r: Result<(), String>)
    ensures
        match r {
            Ok(_) => spec_check_value(name@, v@, schema@) is None,
            Err(m) => spec_check_value(name@, v@, schema@) == Some(m@),
        },
{
    match get_str(schema, "type") {
        Some(expected) => {
            let actual = json_type_name(v);
            let same = str_eq(expected.as_str(), actual);
            let num_ok = str_eq(expected.as_str(), "number") && str_eq(actual, "integer");
            if !(same || num_ok) {
                return Err(
                    msg7(
                        "Parameter '",
                        name.as_str(),
                        "' must be of type '",
                        expected.as_str(),
                        "', got '",
                        actual,
                        "'",
                    ),
                );
            }
        },
        None => {},
    }
    match v {
        Json::Str(s) => {
            match get_u64(schema, "minLength") {
                Some(min) => {
                    if (s.as_str().len() as u64) < min {
                        let d = u64_to_string(min);
                        return Err(
                            msg5(
                                "Parameter '",
                                name.as_str(),
                                "' must be at least ",
                                d.as_str(),
                                " characters long",
                            ),
                        );
                    }
                },
                None => {},
            }
            match get_u64(schema, "maxLength") {
                Some(max) => {
                    if (s.as_str().len() as u64) > max {
                        let d = u64_to_string(max);
                        return Err(
                            msg4(
                                "Parameter '",
                                name.as_str(),
                                "' exceeds maximum length of ",
                                d.as_str(),
                            ),
                        );
                    }
                },
                None => {},
            }
            match get_str(schema, "pattern") {
                Some(pat) => {
                    let pchars = chars_of(pat.as_str());
                    let pn: usize = pchars.len();
                    let applies = pn > 0 && pchars[0] == '^' && pchars[pn - 1] == '*';
                    if applies {
                        let prefix = pattern_prefix_chars(&pchars);
                        let schars = chars_of(s.as_str());
                        if !starts_with_chars(&schars, &prefix) {
                            return Err(
                                msg3(
                                    "Parameter '",
                                    name.as_str(),
                                    "' does not match required pattern",
                                ),
                            );
                        }
                    }
                },
                None => {},
            }
        },
        Json::Num(nm) => {
            match get_num(schema, "minimum") {
                Some(min) => {
                    if nm.key < min.key {
                        return Err(
                            msg4(
                                "Parameter '",
                                name.as_str(),
                                "' must be at least ",
                                min.txt.as_str(),
                            ),
                        );
                    }
                },
                None => {},
            }
            match get_num(schema, "maximum") {
                Some(max) => {
                    if nm.key > max.key {
                        return Err(
                            msg4(
                                "Parameter '",
                                name.as_str(),
                                "' must be at most ",
                                max.txt.as_str(),
                            ),
                        );
                    }
                },
                None => {},
            }
        },
        Json::Arr(items) => {
            proof {
                lemma_seq_view(items@);
            }
            match get_u64(schema, "maxItems") {
                Some(max) => {
                    if (items.len() as u64) > max {
                        let d = u64_to_string(max);
                        return Err(
                            msg4(
                                "Parameter '",
                                name.as_str(),
                                "' exceeds maximum array length of ",
                                d.as_str(),
                            ),
                        );
                    }
                },
                None => {},
            }
        },
        _ => {},
    }
    Ok(())
}

// --- the validator proper ---

/// The first argument key, from `i` on, that `properties` does not name;
/// its failure message.
pub open spec fn spec_first_extra(
    entries: Seq<(Seq<char>, JsonV)>,
    props: Seq<(Seq<char>, JsonV)>,
    i: int,
) -> Option<Seq<char>>
    decreases entries.len() - i,
{
    if i < 0 || entries.len() <= i {
        None
    } else if !obj_has_key_v(props, entries[i].0) {
        Some(msg_unexpected(entries[i].0))
    } else {
        spec_first_extra(entries, props, i + 1)
    }
}

/// The first required name, from `i` on, that the arguments do not carry;
/// its failure message.
pub open spec fn spec_first_missing(
    required: Seq<Seq<char>>,
    entries: Seq<(Seq<char>, JsonV)>,
    i: int,
) -> Option<Seq<char>>
    decreases required.len() - i,
{
    if i < 0 || required.len() <= i {
        None
    } else if !obj_has_key_v(entries, required[i]) {
        Some(msg_missing_param(required[i]))
    } else {
        spec_first_missing(required, entries, i + 1)
    }
}

/// The first argument, from `i` on, that fails its sub-schema; its
/// failure message.
pub open spec fn spec_first_bad_prop(
    entries: Seq<(Seq<char>, JsonV)>,
    props: Seq<(Seq<char>, JsonV)>,
    i: int,
) -> Option<Seq<char>>
    decreases entries.len() - i,
{
    if i < 0 || entries.len() <= i {
        None
    } else {
        match obj_get_v(props, entries[i].0) {
            Some(sub) => match spec_check_value(entries[i].0, entries[i].1, sub) {
                Some(m) => Some(m),
                None => spec_first_bad_prop(entries, props, i + 1),
            },
            None => spec_first_bad_prop(entries, props, i + 1),
        }
    }
}

/// Validation of an argument object that passed the presence checks:
/// unexpected keys first, then missing required names, then each named
/// argument against its sub-schema. When `additionalProperties` is
/// false, every argument key must appear in the schema's property set;
/// a schema that declares no `properties` object then admits none.
pub open spec fn spec_validate_obj(schema: JsonV, entries: Seq<(Seq<char>, JsonV)>) -> Option<
    Seq<char>,
> {
    let extra = if !spec_additional(schema) {
        spec_first_extra(entries, spec_props_or_empty(schema), 0)
    } else {
        None
    };
    if extra is Some {
        extra
    } else if spec_first_missing(spec_required(schema), entries, 0) is Some {
        spec_first_missing(spec_required(schema), entries, 0)
    } else {
        match spec_schema_props(schema) {
            Some(props) => spec_first_bad_prop(entries, props, 0),
            None => None,
        }
    }
}

/// What validating `args` against `schema` yields: `None` for success,
/// or the message of the first violation. Absent arguments succeed
/// exactly when the schema requires nothing; present arguments must be
/// an object.
pub open spec fn spec_validate(schema: JsonV, args: Option<JsonV>) -> Option<Seq<char>> {
    match args {
        None => if spec_required(schema).len() > 0 {
            Some(msg_missing_args(spec_required(schema)))
        } else {
            None
        },
        Some(a) => match a {
            JsonV::Obj(entries) => spec_validate_obj(schema, entries),
            _ => Some(msg_not_object()),
        },
    }
}

/// The value of optional arguments.
pub open spec fn opt_view(args: Option<Json>) -> Option<JsonV> {
    match args {
        None => None,
        Some(j) => Some(json_view(j)),
    }
}

/// Whether an argument object carries `key`.
pub fn obj_has_key(entries: &Vec<(String, Json)>, key: &String) -> (r: bool)
    ensures
        r == obj_has_key_v(entries_view(entries@), key@),
{
    match obj_get(entries, key) {
        Some(_) => true,
        None => false,
    }
}

/// Validates a JSON argument object against a tool's declared schema.
///
/// Succeeds exactly when `spec_validate` yields nothing; otherwise
/// returns the message of the first violation, word for word.
#[verifier::loop_isolation(false)]
pub fn validate_tool_args(schema: &Json, args: &Option<Json>) -> (r: Result<(), String>)
    ensures
        match r {
            Ok(_) => spec_validate(schema@, opt_view(*args)) is None,
            Err(m) => spec_validate(schema@, opt_view(*args)) == Some(m@),
        },
{
    let required = required_list(schema);
    match args {
        None => {
            if required.len() > 0 {
                proof {
                    lemma_strings_view(required@);
                }
                let joined = join_comma(&required);
                return Err(msg2("Missing required arguments: ", joined.as_str()));
            }
            proof {
                lemma_strings_view(required@);
            }
            return Ok(());
        },
        Some(a) => match a {
            Json::Obj(entries) => {
                let ghost entriesv = entries_view(entries@);
                proof {
                    lemma_entries_view(entries@);
                }
                let n: usize = entries.len();
                if !additional_allowed(schema) {
                    let no_props: Vec<(String, Json)> = Vec::new();
                    let props = match schema_props(schema) {
                        Some(p) => p,
                        None => &no_props,
                    };
                    proof {
                        assert(entries_view(no_props@) =~= Seq::<(Seq<char>, JsonV)>::empty());
                        assert(entries_view(props@) == spec_props_or_empty(schema@));
                    }
                    let mut i: usize = 0;
                    while i < n
                        invariant
                            n == entries@.len(),
                            0 <= i <= n,
                            entriesv == entries_view(entries@),
                            entriesv.len() == n,
                            forall|m: int|
                                0 <= m < n ==> #[trigger] entriesv[m] == (
                                entries@[m].0@,
                                json_view(entries@[m].1),
                                ),
                            entries_view(props@) == spec_props_or_empty(schema@),
                            spec_first_extra(entriesv, entries_view(props@), 0)
                                == spec_first_extra(entriesv, entries_view(props@), i as int),
                        decreases n - i,
                    {
                        if !obj_has_key(props, &entries[i].0) {
                            return Err(
                                msg3("Unexpected parameter: '", entries[i].0.as_str(), "'"),
                            );
                        }
                        i = i + 1;
                    }
                }
                let rn: usize = required.len();
                let mut i: usize = 0;
                proof {
                    lemma_strings_view(required@);
                }
                while i < rn
                    invariant
                        rn == required@.len(),
                        0 <= i <= rn,
                        entriesv == entries_view(entries@),
                        strings_view(required@).len() == rn,
                        forall|m: int|
                            0 <= m < rn ==> #[trigger] strings_view(required@)[m]
                                == required@[m]@,
                        spec_first_missing(strings_view(required@), entriesv, 0)
                            == spec_first_missing(strings_view(required@), entriesv, i as int),
                    decreases rn - i,
                {
                    if !obj_has_key(entries, &required[i]) {
                        return Err(
                            msg3("Missing required parameter: '", required[i].as_str(), "'"),
                        );
                    }
                    i = i + 1;
                }
                match schema_props(schema) {
                    Some(props) => {
                        let mut i: usize = 0;
                        while i < n
                            invariant
                                n == entries@.len(),
                                0 <= i <= n,
                                entriesv == entries_view(entries@),
                                entriesv.len() == n,
                                forall|m: int|
                                    0 <= m < n ==> #[trigger] entriesv[m] == (
                                    entries@[m].0@,
                                    json_view(entries@[m].1),
                                    ),
                                spec_schema_props(schema@) == Some(entries_view(props@)),
                                spec_first_bad_prop(entriesv, entries_view(props@), 0)
                                    == spec_first_bad_prop(
                                    entriesv,
                                    entries_view(props@),
                                    i as int,
                                ),
                            decreases n - i,
                        {
                            match obj_get(props, &entries[i].0) {
                                Some(sub) => {
                                    match check_value(&entries[i].0, &entries[i].1, sub) {
                                        Ok(_) => {},
                                        Err(m) => {
                                            return Err(m);
                                        },
                                    }
                                },
                                None => {},
                            }
                            i = i + 1;
                        }
                    },
                    None => {},
                }
                Ok(())
            },
            _ => Err(String::from_str("Arguments must be an object")),
        },
    }
}

// --- laws of the validator ---

proof fn lemma_first_extra_at(
    entries: Seq<(Seq<char>, JsonV)>,
    props: Seq<(Seq<char>, JsonV)>,
    i: int,
    x: int,
)
    requires
        0 <= i <= x < entries.len(),
        forall|m: int| i <= m < x ==> obj_has_key_v(props, (#[trigger] entries[m]).0),
        !obj_has_key_v(props, entries[x].0),
    ensures
        spec_first_extra(entries, props, i) == Some(msg_unexpected(entries[x].0)),
    decreases x - i,
{
    if i < x {
        lemma_first_extra_at(entries, props, i + 1, x);
    }
}

proof fn lemma_first_extra_none(
    entries: Seq<(Seq<char>, JsonV)>,
    props: Seq<(Seq<char>, JsonV)>,
    i: int,
)
    requires
        forall|m: int| i <= m < entries.len() ==> obj_has_key_v(props, (#[trigger] entries[m]).0),
    ensures
        spec_first_extra(entries, props, i) is None,
    decreases entries.len() - i,
{
    if 0 <= i < entries.len() {
        lemma_first_extra_none(entries, props, i + 1);
    }
}

proof fn lemma_first_missing_at(
    required: Seq<Seq<char>>,
    entries: Seq<(Seq<char>, JsonV)>,
    i: int,
    x: int,
)
    requires
        0 <= i <= x < required.len(),
        forall|m: int| i <= m < x ==> obj_has_key_v(entries, #[trigger] required[m]),
        !obj_has_key_v(entries, required[x]),
    ensures
        spec_first_missing(required, entries, i) == Some(msg_missing_param(required[x])),
    decreases x - i,
{
    if i < x {
        lemma_first_missing_at(required, entries, i + 1, x);
    }
}

/// With `additionalProperties` false, an argument object that carries
/// exactly one key that the schema's property set (its `properties`
/// object, empty when none is declared) does not name fails validation,
/// and the message names that key: `Unexpected parameter: '<key>'`.
pub proof fn lemma_unexpected_parameter(
    schema: JsonV,
    entries: Seq<(Seq<char>, JsonV)>,
    props: Seq<(Seq<char>, JsonV)>,
    x: int,
)
    requires
        !spec_additional(schema),
        props == spec_props_or_empty(schema),
        0 <= x < entries.len(),
        !obj_has_key_v(props, entries[x].0),
        forall|m: int|
            0 <= m < entries.len() && m != x ==> obj_has_key_v(props, (#[trigger] entries[m]).0),
    ensures
        spec_validate(schema, Some(JsonV::Obj(entries))) == Some(msg_unexpected(entries[x].0)),
{
    lemma_first_extra_at(entries, props, 0, x);
}

/// For any `required` list, an argument object that carries all listed
/// names but exactly one fails validation with exactly
/// `Missing required parameter: '<name>'` — provided no unexpected-key
/// failure comes first (the arguments carry no key outside a declared
/// `properties` object while `additionalProperties` is false).
pub proof fn lemma_missing_required(schema: JsonV, entries: Seq<(Seq<char>, JsonV)>, x: int)
    requires
        !spec_additional(schema) ==> forall|m: int|
            0 <= m < entries.len() ==> obj_has_key_v(
                spec_props_or_empty(schema),
                (#[trigger] entries[m]).0,
            ),
        0 <= x < spec_required(schema).len(),
        !obj_has_key_v(entries, spec_required(schema)[x]),
        forall|m: int|
            0 <= m < spec_required(schema).len() && m != x ==> obj_has_key_v(
                entries,
                #[trigger] spec_required(schema)[m],
            ),
    ensures
        spec_validate(schema, Some(JsonV::Obj(entries))) == Some(
            msg_missing_param(spec_required(schema)[x]),
        ),
{
    if !spec_additional(schema) {
        lemma_first_extra_none(entries, spec_props_or_empty(schema), 0);
    }
    lemma_first_missing_at(spec_required(schema), entries, 0, x);
}

} // verus!
