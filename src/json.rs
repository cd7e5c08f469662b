use vstd::prelude::*;

use crate::error::{DecodeError, Field};

verus! {

/// A JSON value as the decoders read it.
///
/// Object members keep the order in which the document parser handed them
/// over; a key occurs at most once, and where a document repeats a key the
/// last of its values is the one kept. Every integer that a JSON number can
/// hold exactly as a 64-bit integer, signed or unsigned, is an `Int`; any
/// other number is a `Fraction`, whose value no decoder reads.
#[derive(Debug)]
pub enum JsonValue {
    Null,
    Bool(bool),
    Int(i128),
    Fraction,
    Str(String),
    Array(Vec<JsonValue>),
    Object(Vec<(String, JsonValue)>),
}

/// Whether two values hold the same JSON, nested at most `d` levels deep:
/// the same variants, integers and booleans, strings with the same
/// characters, and members with the same keys in the same order.
pub open spec fn agree(a: JsonValue, b: JsonValue, d: nat) -> bool
    decreases d,
{
    if d == 0 {
        false
    } else {
        match (a, b) {
            (JsonValue::Null, JsonValue::Null) => true,
            (JsonValue::Bool(x), JsonValue::Bool(y)) => x == y,
            (JsonValue::Int(x), JsonValue::Int(y)) => x == y,
            (JsonValue::Fraction, JsonValue::Fraction) => true,
            (JsonValue::Str(x), JsonValue::Str(y)) => x@ == y@,
            (JsonValue::Array(x), JsonValue::Array(y)) => x@.len() == y@.len() && forall|i: int|
                0 <= i < x@.len() ==> agree(#[trigger] x@[i], y@[i], (d - 1) as nat),
            (JsonValue::Object(x), JsonValue::Object(y)) => x@.len() == y@.len() && forall|i: int|
                0 <= i < x@.len() ==> (#[trigger] x@[i]).0@ == y@[i].0@ && agree(x@[i].1, y@[i].1, (d - 1) as nat),
            _ => false,
        }
    }
}

/// Whether two member lists have the same keys in the same order and
/// values that agree to depth `d`.
pub open spec fn members_agree(x: Seq<(String, JsonValue)>, y: Seq<(String, JsonValue)>, d: nat) -> bool {
    x.len() == y.len() && forall|i: int| 0 <= i < x.len() ==> (#[trigger] x[i]).0@ == y[i].0@ && agree(x[i].1, y[i].1, d)
}

/// The value of the first member of `members` named `key`.
pub open spec fn lookup(members: Seq<(String, JsonValue)>, key: Seq<char>) -> Option<JsonValue>
    decreases members.len(),
{
    if members.len() == 0 {
        None
    } else if members[0].0@ == key {
        Some(members[0].1)
    } else {
        lookup(members.drop_first(), key)
    }
}

/// The views of a sequence of strings.
pub open spec fn texts_view(v: Seq<String>) -> Seq<Seq<char>> {
    v.map_values(|s: String| s@)
}

/// A required string field.
pub open spec fn text_field(members: Seq<(String, JsonValue)>, f: Field) -> Result<Seq<char>, DecodeError> {
    match lookup(members, f.wire_name_spec()) {
        None => Err(DecodeError::MissingField(f)),
        Some(JsonValue::Str(s)) => Ok(s@),
        Some(_) => Err(DecodeError::InvalidField(f)),
    }
}

/// A required boolean field.
pub open spec fn bool_field(members: Seq<(String, JsonValue)>, f: Field) -> Result<bool, DecodeError> {
    match lookup(members, f.wire_name_spec()) {
        None => Err(DecodeError::MissingField(f)),
        Some(JsonValue::Bool(b)) => Ok(b),
        Some(_) => Err(DecodeError::InvalidField(f)),
    }
}

/// A required field holding an integer that fits in `u32`.
pub open spec fn u32_field(members: Seq<(String, JsonValue)>, f: Field) -> Result<u32, DecodeError> {
    match lookup(members, f.wire_name_spec()) {
        None => Err(DecodeError::MissingField(f)),
        Some(JsonValue::Int(n)) => if 0 <= n <= u32::MAX {
            Ok(n as u32)
        } else {
            Err(DecodeError::InvalidField(f))
        },
        Some(_) => Err(DecodeError::InvalidField(f)),
    }
}

/// The integers accepted as a nanosecond timestamp: every signed and every
/// unsigned 64-bit value.
pub open spec fn timestamp_in_range(n: int) -> bool {
    i64::MIN <= n <= u64::MAX
}

/// A required field holding a timestamp in nanoseconds since the Unix epoch.
pub open spec fn timestamp_field(members: Seq<(String, JsonValue)>, f: Field) -> Result<i128, DecodeError> {
    match lookup(members, f.wire_name_spec()) {
        None => Err(DecodeError::MissingField(f)),
        Some(JsonValue::Int(n)) => if timestamp_in_range(n as int) {
            Ok(n)
        } else {
            Err(DecodeError::InvalidField(f))
        },
        Some(_) => Err(DecodeError::InvalidField(f)),
    }
}

/// Whether every element of `items` is a string.
pub open spec fn all_texts(items: Seq<JsonValue>) -> bool {
    forall|i: int| 0 <= i < items.len() ==> (#[trigger] items[i]) is Str
}

/// A required field holding an array of strings.
pub open spec fn text_list_field(members: Seq<(String, JsonValue)>, f: Field) -> Result<Seq<Seq<char>>, DecodeError> {
    match lookup(members, f.wire_name_spec()) {
        None => Err(DecodeError::MissingField(f)),
        Some(JsonValue::Array(items)) => if all_texts(items@) {
            Ok(items@.map_values(|v: JsonValue| (v->Str_0)@))
        } else {
            Err(DecodeError::InvalidField(f))
        },
        Some(_) => Err(DecodeError::InvalidField(f)),
    }
}

/// Whether an executable string result agrees with a result over views.
pub open spec fn text_result_matches(r: Result<String, DecodeError>, s: Result<Seq<char>, DecodeError>) -> bool {
    match r {
        Ok(t) => s == Ok::<Seq<char>, DecodeError>(t@),
        Err(e) => s == Err::<Seq<char>, DecodeError>(e),
    }
}

/// Whether an executable list of strings agrees with a result over views.
pub open spec fn texts_result_matches(
    r: Result<Vec<String>, DecodeError>,
    s: Result<Seq<Seq<char>>, DecodeError>,
) -> bool {
    match r {
        Ok(t) => s == Ok::<Seq<Seq<char>>, DecodeError>(texts_view(t@)),
        Err(e) => s == Err::<Seq<Seq<char>>, DecodeError>(e),
    }
}

/// Member lists that agree give agreeing values for every key.
pub proof fn lemma_lookup_agrees(x: Seq<(String, JsonValue)>, y: Seq<(String, JsonValue)>, key: Seq<char>, d: nat)
    requires
        members_agree(x, y, d),
    ensures
        lookup(x, key) is None <==> lookup(y, key) is None,
        lookup(x, key) matches Some(a) ==> agree(a, lookup(y, key)->Some_0, d),
    decreases x.len(),
{
    if x.len() > 0 {
        assert(x[0].0@ == y[0].0@);
        let (xs, ys) = (x.drop_first(), y.drop_first());
        assert forall|i: int| 0 <= i < xs.len() implies (#[trigger] xs[i]).0@ == ys[i].0@ && agree(xs[i].1, ys[i].1, d) by {
            assert(xs[i] == x[i + 1]);
            assert(ys[i] == y[i + 1]);
        }
        lemma_lookup_agrees(xs, ys, key, d);
    }
}

/// Member lists that agree give the same result for every field reader.
pub proof fn lemma_fields_agree(x: Seq<(String, JsonValue)>, y: Seq<(String, JsonValue)>, d: nat, f: Field)
    requires
        members_agree(x, y, d),
    ensures
        text_field(x, f) == text_field(y, f),
        bool_field(x, f) == bool_field(y, f),
        u32_field(x, f) == u32_field(y, f),
        timestamp_field(x, f) == timestamp_field(y, f),
        text_list_field(x, f) == text_list_field(y, f),
{
    lemma_lookup_agrees(x, y, f.wire_name_spec(), d);
    if lookup(x, f.wire_name_spec()) is Some && lookup(x, f.wire_name_spec())->Some_0 is Array {
        let a = lookup(x, f.wire_name_spec())->Some_0->Array_0;
        let b = lookup(y, f.wire_name_spec())->Some_0->Array_0;
        assert(agree(JsonValue::Array(a), JsonValue::Array(b), d));
        assert(a@.len() == b@.len());
        assert forall|i: int| 0 <= i < a@.len() implies agree(#[trigger] a@[i], b@[i], (d - 1) as nat) by {}
        if all_texts(a@) {
            assert forall|i: int| 0 <= i < b@.len() implies (#[trigger] b@[i]) is Str by {
                assert(a@[i] is Str);
                assert(agree(a@[i], b@[i], (d - 1) as nat));
            }
        }
        if all_texts(b@) {
            assert forall|i: int| 0 <= i < a@.len() implies (#[trigger] a@[i]) is Str by {
                assert(b@[i] is Str);
                assert(agree(a@[i], b@[i], (d - 1) as nat));
            }
        }
        if all_texts(a@) {
            assert forall|i: int| 0 <= i < a@.len() implies (a@[i]->Str_0)@ == (#[trigger] b@[i]->Str_0)@ by {
                assert(agree(a@[i], b@[i], (d - 1) as nat));
                assert(a@[i] is Str);
            }
            assert(a@.map_values(|v: JsonValue| (v->Str_0)@) =~= b@.map_values(|v: JsonValue| (v->Str_0)@));
        }
    }
}

/// Returns the value of the first member named `key`.
pub fn find<'a>(members: &'a Vec<(String, JsonValue)>, key: &str) -> (r: Option<&'a JsonValue>)
    ensures
        match r {
            Some(v) => lookup(members@, key@) == Some(*v),
            None => lookup(members@, key@) is None,
        },
{
    let wanted = key.to_owned();
    let n = members.len();
    let mut i: usize = 0;
    assert(members@.subrange(0, n as int) =~= members@);
    while i < n
        invariant
            n == members@.len(),
            0 <= i <= n,
            wanted@ == key@,
            lookup(members@, key@) == lookup(members@.subrange(i as int, n as int), key@),
        decreases n - i,
    {
        assert(members@.subrange(i as int, n as int).drop_first() =~= members@.subrange(i + 1, n as int));
        if members[i].0 == wanted {
            return Some(&members[i].1);
        }
        i = i + 1;
    }
    None
}

/// Reads a required string field.
pub fn take_text(members: &Vec<(String, JsonValue)>, f: Field) -> (r: Result<String, DecodeError>)
    ensures
        text_result_matches(r, text_field(members@, f)),
{
    match find(members, f.wire_name()) {
        None => Err(DecodeError::MissingField(f)),
        Some(JsonValue::Str(s)) => Ok(s.clone()),
        Some(_) => Err(DecodeError::InvalidField(f)),
    }
}

/// Reads a required boolean field.
pub fn take_bool(members: &Vec<(String, JsonValue)>, f: Field) -> (r: Result<bool, DecodeError>)
    ensures
        r == bool_field(members@, f),
{
    match find(members, f.wire_name()) {
        None => Err(DecodeError::MissingField(f)),
        Some(JsonValue::Bool(b)) => Ok(*b),
        Some(_) => Err(DecodeError::InvalidField(f)),
    }
}

/// Reads a required field holding an integer that fits in `u32`.
pub fn take_u32(members: &Vec<(String, JsonValue)>, f: Field) -> (r: Result<u32, DecodeError>)
    ensures
        r == u32_field(members@, f),
{
    match find(members, f.wire_name()) {
        None => Err(DecodeError::MissingField(f)),
        Some(JsonValue::Int(n)) => if 0 <= *n && *n <= 0xffff_ffff {
            Ok(*n as u32)
        } else {
            Err(DecodeError::InvalidField(f))
        },
        Some(_) => Err(DecodeError::InvalidField(f)),
    }
}

/// Reads a required timestamp field, in nanoseconds since the Unix epoch.
pub fn take_timestamp(members: &Vec<(String, JsonValue)>, f: Field) -> (r: Result<i128, DecodeError>)
    ensures
        r == timestamp_field(members@, f),
{
    match find(members, f.wire_name()) {
        None => Err(DecodeError::MissingField(f)),
        Some(JsonValue::Int(n)) => if -0x8000_0000_0000_0000 <= *n && *n <= 0xffff_ffff_ffff_ffff {
            Ok(*n)
        } else {
            Err(DecodeError::InvalidField(f))
        },
        Some(_) => Err(DecodeError::InvalidField(f)),
    }
}

/// Reads a required field holding an array of strings, keeping their order.
pub fn take_text_list(members: &Vec<(String, JsonValue)>, f: Field) -> (r: Result<Vec<String>, DecodeError>)
    ensures
        texts_result_matches(r, text_list_field(members@, f)),
{
    match find(members, f.wire_name()) {
        None => Err(DecodeError::MissingField(f)),
        Some(JsonValue::Array(items)) => {
            assert(lookup(members@, f.wire_name_spec()) == Some(JsonValue::Array(*items)));
            let mut out: Vec<String> = Vec::new();
            let n = items.len();
            let mut i: usize = 0;
            while i < n
                invariant
                    n == items@.len(),
                    lookup(members@, f.wire_name_spec()) == Some(JsonValue::Array(*items)),
                    0 <= i <= n,
                    out@.len() == i,
                    forall|j: int| 0 <= j < i ==> (#[trigger] items@[j]) is Str,
                    forall|j: int| 0 <= j < i ==> (#[trigger] out@[j])@ == (items@[j]->Str_0)@,
                decreases n - i,
            {
                let item = &items[i];
                assert(*item == items@[i as int]);
                match item {
                    JsonValue::Str(s) => {
                        let ghost prev = out@;
                        out.push(s.clone());
                        assert forall|j: int| 0 <= j < i + 1 implies (#[trigger] out@[j])@ == (items@[j]->Str_0)@ by {
                            if j < i {
                                assert(out@[j] == prev[j]);
                            }
                        }
                    },
                    _ => {
                        assert(!all_texts(items@));
                        return Err(DecodeError::InvalidField(f));
                    },
                }
                i = i + 1;
            }
            assert(all_texts(items@));
            assert(texts_view(out@) =~= items@.map_values(|v: JsonValue| (v->Str_0)@));
            Ok(out)
        },
        Some(_) => Err(DecodeError::InvalidField(f)),
    }
}

} // verus!
