use vstd::prelude::*;

use crate::channel::{channel_spec, lemma_channel_agrees, Channel, ChannelView};
use crate::document::{document_of, NESTING_LIMIT};
use crate::error::{DecodeError, Error, Field};
use crate::json::{agree, find, lemma_lookup_agrees, lookup, members_agree, JsonValue};
use crate::program::{program_spec, Program, ProgramView};

verus! {

/// The programs of one channel on one day, in the order of the document.
#[derive(Debug)]
pub struct Schedule {
    programs: Vec<Program>,
}

impl View for Schedule {
    type V = Seq<ProgramView>;

    closed spec fn view(&self) -> Seq<ProgramView> {
        programs_view(self.programs@)
    }
}

/// The channels that a sequence of JSON values describes, in order; the
/// first element that is no channel decides the error.
pub open spec fn channels_spec(items: Seq<JsonValue>) -> Result<Seq<ChannelView>, DecodeError>
    decreases items.len(),
{
    if items.len() == 0 {
        Ok(Seq::empty())
    } else {
        match channels_spec(items.drop_last()) {
            Err(e) => Err(e),
            Ok(front) => match channel_spec(items.last()) {
                Err(e) => Err(e),
                Ok(c) => Ok(front.push(c)),
            },
        }
    }
}

/// The channels that a channel-list document describes: an object whose
/// `channels` member is an array of channels.
pub open spec fn channel_list_spec(v: JsonValue) -> Result<Seq<ChannelView>, DecodeError> {
    match v {
        JsonValue::Object(m) => match lookup(m@, Field::Channels.wire_name_spec()) {
            None => Err(DecodeError::MissingField(Field::Channels)),
            Some(JsonValue::Array(items)) => channels_spec(items@),
            Some(_) => Err(DecodeError::InvalidField(Field::Channels)),
        },
        _ => Err(DecodeError::NotAnObject),
    }
}

/// The views of a sequence of channels.
pub open spec fn channels_view(cs: Seq<Channel>) -> Seq<ChannelView> {
    cs.map_values(|c: Channel| c@)
}

/// Whether a decoded channel list agrees with a result over views.
pub open spec fn channels_result_matches(
    r: Result<Vec<Channel>, DecodeError>,
    s: Result<Seq<ChannelView>, DecodeError>,
) -> bool {
    match r {
        Ok(cs) => s == Ok::<Seq<ChannelView>, DecodeError>(channels_view(cs@)),
        Err(e) => s == Err::<Seq<ChannelView>, DecodeError>(e),
    }
}

/// The programs that a sequence of JSON values describes, in order; the
/// first element that is no program decides the error.
pub open spec fn programs_spec(items: Seq<JsonValue>) -> Result<Seq<ProgramView>, DecodeError>
    decreases items.len(),
{
    if items.len() == 0 {
        Ok(Seq::empty())
    } else {
        match programs_spec(items.drop_last()) {
            Err(e) => Err(e),
            Ok(front) => match program_spec(items.last()) {
                Err(e) => Err(e),
                Ok(p) => Ok(front.push(p)),
            },
        }
    }
}

/// The programs of a schedule document: an array of programs.
pub open spec fn schedule_spec(v: JsonValue) -> Result<Seq<ProgramView>, DecodeError> {
    match v {
        JsonValue::Array(items) => programs_spec(items@),
        _ => Err(DecodeError::NotAnArray),
    }
}

/// The views of a sequence of programs.
pub open spec fn programs_view(ps: Seq<Program>) -> Seq<ProgramView> {
    ps.map_values(|p: Program| p@)
}

/// An element that is no channel fails every longer list too.
proof fn lemma_channels_error_kept(items: Seq<JsonValue>, k: int, e: DecodeError)
    requires
        0 <= k <= items.len(),
        channels_spec(items.take(k)) == Err::<Seq<ChannelView>, DecodeError>(e),
    ensures
        channels_spec(items) == Err::<Seq<ChannelView>, DecodeError>(e),
    decreases items.len() - k,
{
    if k < items.len() {
        assert(items.take(k + 1).drop_last() =~= items.take(k));
        lemma_channels_error_kept(items, k + 1, e);
    } else {
        assert(items.take(k) =~= items);
    }
}

/// An element that is no program fails every longer list too.
proof fn lemma_programs_error_kept(items: Seq<JsonValue>, k: int, e: DecodeError)
    requires
        0 <= k <= items.len(),
        programs_spec(items.take(k)) == Err::<Seq<ProgramView>, DecodeError>(e),
    ensures
        programs_spec(items) == Err::<Seq<ProgramView>, DecodeError>(e),
    decreases items.len() - k,
{
    if k < items.len() {
        assert(items.take(k + 1).drop_last() =~= items.take(k));
        lemma_programs_error_kept(items, k + 1, e);
    } else {
        assert(items.take(k) =~= items);
    }
}

/// A list of channels that decodes has one channel per element, each the
/// decoding of the element at the same place.
proof fn lemma_channels_pointwise(items: Seq<JsonValue>)
    requires
        channels_spec(items) is Ok,
    ensures
        channels_spec(items)->Ok_0.len() == items.len(),
        forall|i: int|
            0 <= i < items.len() ==> channel_spec(#[trigger] items[i]) == Ok::<ChannelView, DecodeError>(
                channels_spec(items)->Ok_0[i],
            ),
    decreases items.len(),
{
    if items.len() > 0 {
        lemma_channels_pointwise(items.drop_last());
        assert forall|i: int| 0 <= i < items.len() implies channel_spec(#[trigger] items[i])
            == Ok::<ChannelView, DecodeError>(channels_spec(items)->Ok_0[i]) by {
            if i < items.len() - 1 {
                assert(items.drop_last()[i] == items[i]);
            }
        }
    }
}

/// A channel-list document that decodes gives its channels in the order of
/// its `channels` array, each the decoding of the element at the same place.
pub proof fn channel_list_keeps_order(m: Vec<(String, JsonValue)>, items: Vec<JsonValue>)
    requires
        lookup(m@, "channels"@) == Some(JsonValue::Array(items)),
        channel_list_spec(JsonValue::Object(m)) is Ok,
    ensures
        channel_list_spec(JsonValue::Object(m))->Ok_0.len() == items@.len(),
        forall|i: int|
            0 <= i < items@.len() ==> channel_spec(#[trigger] items@[i]) == Ok::<ChannelView, DecodeError>(
                channel_list_spec(JsonValue::Object(m))->Ok_0[i],
            ),
{
    lemma_channels_pointwise(items@);
}

/// A document without a `channels` member fails with a decode error; it
/// never gives an empty list.
pub proof fn channel_list_requires_channels(m: Vec<(String, JsonValue)>)
    requires
        lookup(m@, "channels"@) is None,
    ensures
        channel_list_spec(JsonValue::Object(m)) == Err::<Seq<ChannelView>, DecodeError>(
            DecodeError::MissingField(Field::Channels),
        ),
{
}

/// Decodes every element of `items` as a channel, keeping their order.
fn channels_from_items(items: &Vec<JsonValue>) -> (r: Result<Vec<Channel>, DecodeError>)
    ensures
        channels_result_matches(r, channels_spec(items@)),
{
    let mut out: Vec<Channel> = Vec::new();
    let n = items.len();
    let mut i: usize = 0;
    assert(items@.take(0) =~= Seq::<JsonValue>::empty());
    assert(channels_view(out@) =~= Seq::<ChannelView>::empty());
    while i < n
        invariant
            n == items@.len(),
            0 <= i <= n,
            channels_spec(items@.take(i as int)) == Ok::<Seq<ChannelView>, DecodeError>(channels_view(out@)),
        decreases n - i,
    {
        assert(items@.take(i + 1).drop_last() =~= items@.take(i as int));
        assert(items@.take(i + 1).last() == items@[i as int]);
        match Channel::from_json(&items[i]) {
            Ok(c) => {
                let ghost prev = out@;
                out.push(c);
                assert(channels_view(out@) =~= channels_view(prev).push(out@.last()@));
            },
            Err(e) => {
                proof {
                    lemma_channels_error_kept(items@, i + 1, e);
                }
                return Err(e);
            },
        }
        i = i + 1;
    }
    assert(items@.take(n as int) =~= items@);
    Ok(out)
}

/// Decodes every element of `items` as a program, keeping their order.
fn programs_from_items(items: &Vec<JsonValue>) -> (r: Result<Vec<Program>, DecodeError>)
    ensures
        match r {
            Ok(ps) => programs_spec(items@) == Ok::<Seq<ProgramView>, DecodeError>(programs_view(ps@)),
            Err(e) => programs_spec(items@) == Err::<Seq<ProgramView>, DecodeError>(e),
        },
{
    let mut out: Vec<Program> = Vec::new();
    let n = items.len();
    let mut i: usize = 0;
    assert(items@.take(0) =~= Seq::<JsonValue>::empty());
    assert(programs_view(out@) =~= Seq::<ProgramView>::empty());
    while i < n
        invariant
            n == items@.len(),
            0 <= i <= n,
            programs_spec(items@.take(i as int)) == Ok::<Seq<ProgramView>, DecodeError>(programs_view(out@)),
        decreases n - i,
    {
        assert(items@.take(i + 1).drop_last() =~= items@.take(i as int));
        assert(items@.take(i + 1).last() == items@[i as int]);
        match Program::from_json(&items[i]) {
            Ok(p) => {
                let ghost prev = out@;
                out.push(p);
                assert(programs_view(out@) =~= programs_view(prev).push(out@.last()@));
            },
            Err(e) => {
                proof {
                    lemma_programs_error_kept(items@, i + 1, e);
                }
                return Err(e);
            },
        }
        i = i + 1;
    }
    assert(items@.take(n as int) =~= items@);
    Ok(out)
}

/// Decodes a channel-list document held as a JSON value: an object whose
/// `channels` member is an array of channels, which keep their order.
pub fn channel_list_from_json(v: &JsonValue) -> (r: Result<Vec<Channel>, DecodeError>)
    ensures
        channels_result_matches(r, channel_list_spec(*v)),
{
    match v {
        JsonValue::Object(m) => match find(m, Field::Channels.wire_name()) {
            None => Err(DecodeError::MissingField(Field::Channels)),
            Some(JsonValue::Array(items)) => channels_from_items(items),
            Some(_) => Err(DecodeError::InvalidField(Field::Channels)),
        },
        _ => Err(DecodeError::NotAnObject),
    }
}

/// Sequences of values that agree pointwise decode to the same channels.
proof fn lemma_channels_agree(xs: Seq<JsonValue>, ys: Seq<JsonValue>, d: nat)
    requires
        xs.len() == ys.len(),
        forall|i: int| 0 <= i < xs.len() ==> agree(#[trigger] xs[i], ys[i], d),
    ensures
        channels_spec(xs) == channels_spec(ys),
    decreases xs.len(),
{
    if xs.len() > 0 {
        let (a, b) = (xs.drop_last(), ys.drop_last());
        assert forall|i: int| 0 <= i < a.len() implies agree(#[trigger] a[i], b[i], d) by {
            assert(a[i] == xs[i]);
            assert(b[i] == ys[i]);
        }
        lemma_channels_agree(a, b, d);
        lemma_channel_agrees(xs.last(), ys.last(), d);
    }
}

/// Documents that agree decode to the same channel list.
proof fn lemma_channel_list_agrees(a: JsonValue, b: JsonValue, d: nat)
    requires
        agree(a, b, d),
    ensures
        channel_list_spec(a) == channel_list_spec(b),
{
    if a is Object && b is Object {
        let (x, y) = (a->Object_0, b->Object_0);
        let key = Field::Channels.wire_name_spec();
        assert(members_agree(x@, y@, (d - 1) as nat));
        lemma_lookup_agrees(x@, y@, key, (d - 1) as nat);
        if lookup(x@, key) is Some && lookup(x@, key)->Some_0 is Array && lookup(y@, key)->Some_0 is Array {
            let (p, q) = (lookup(x@, key)->Some_0->Array_0, lookup(y@, key)->Some_0->Array_0);
            assert(agree(JsonValue::Array(p), JsonValue::Array(q), (d - 1) as nat));
            lemma_channels_agree(p@, q@, (d - 2) as nat);
        }
    }
}

/// Decodes the body of a channel-list response. A body that is no JSON
/// text gives `DecodeError::Syntax`; any other gives what
/// `channel_list_spec` gives on the document it holds.
pub fn decode_channel_list(body: &[u8]) -> (r: Result<Vec<Channel>, Error>)
    ensures
        document_of(body@) is None ==> r matches Err(Error::Decode(DecodeError::Syntax)),
        document_of(body@) matches Some(doc) ==> match r {
            Ok(cs) => channel_list_spec(doc) == Ok::<Seq<ChannelView>, DecodeError>(channels_view(cs@)),
            Err(Error::Decode(e)) => channel_list_spec(doc) == Err::<Seq<ChannelView>, DecodeError>(e),
            Err(_) => false,
        },
{
    let doc = match JsonValue::parse(body) {
        Ok(doc) => doc,
        Err(e) => return Err(Error::Decode(e)),
    };
    proof {
        lemma_channel_list_agrees(doc, document_of(body@)->Some_0, NESTING_LIMIT as nat);
    }
    match channel_list_from_json(&doc) {
        Ok(cs) => Ok(cs),
        Err(e) => Err(Error::Decode(e)),
    }
}

impl Schedule {
    /// Decodes a schedule held as a JSON value: an array of programs, which
    /// keep their order.
    pub fn from_json(v: &JsonValue) -> (r: Result<Schedule, DecodeError>)
        ensures
            match r {
                Ok(s) => schedule_spec(*v) == Ok::<Seq<ProgramView>, DecodeError>(s@),
                Err(e) => schedule_spec(*v) == Err::<Seq<ProgramView>, DecodeError>(e),
            },
    {
        match v {
            JsonValue::Array(items) => match programs_from_items(items) {
                Ok(programs) => Ok(Schedule { programs }),
                Err(e) => Err(e),
            },
            _ => Err(DecodeError::NotAnArray),
        }
    }

    /// Returns the programs, in the order of the document
    pub fn programs(&self) -> (r: &Vec<Program>)
        ensures
            programs_view(r@) == self@,
    {
        &self.programs
    }
}

} // verus!
