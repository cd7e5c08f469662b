use vstd::prelude::*;

use crate::error::{DecodeError, Field};
use crate::json::{
    bool_field, take_bool, take_text, take_text_list, take_timestamp, text_field, text_list_field,
    texts_view, timestamp_field, timestamp_in_range, lookup, JsonValue,
};

verus! {

/// One scheduled broadcast.
///
/// The start and end are instants in UTC, held as nanoseconds since the
/// Unix epoch.
#[derive(Debug)]
pub struct Program {
    id: String,
    title: String,
    categories: Vec<String>,
    available_as_vod: bool,
    rerun: bool,
    premiere: bool,
    live: bool,
    starts_at: i128,
    ends_at: i128,
}

/// The fields of a program, as mathematical values.
pub struct ProgramView {
    pub id: Seq<char>,
    pub title: Seq<char>,
    pub categories: Seq<Seq<char>>,
    pub available_as_vod: bool,
    pub rerun: bool,
    pub premiere: bool,
    pub live: bool,
    pub starts_at: i128,
    pub ends_at: i128,
}

impl View for Program {
    type V = ProgramView;

    closed spec fn view(&self) -> ProgramView {
        ProgramView {
            id: self.id@,
            title: self.title@,
            categories: texts_view(self.categories@),
            available_as_vod: self.available_as_vod,
            rerun: self.rerun,
            premiere: self.premiere,
            live: self.live,
            starts_at: self.starts_at,
            ends_at: self.ends_at,
        }
    }
}

/// The program that the members of a JSON object describe: every field is
/// required, and the first one absent or of the wrong type, in the order
/// `id`, `title`, `categories`, `availableAsVod`, `rerun`, `premiere`,
/// `live`, `start`, `stop`, is the error.
pub open spec fn program_members_spec(m: Seq<(String, JsonValue)>) -> Result<ProgramView, DecodeError> {
    if text_field(m, Field::Id) is Err {
        Err(text_field(m, Field::Id)->Err_0)
    } else if text_field(m, Field::Title) is Err {
        Err(text_field(m, Field::Title)->Err_0)
    } else if text_list_field(m, Field::Categories) is Err {
        Err(text_list_field(m, Field::Categories)->Err_0)
    } else if bool_field(m, Field::AvailableAsVod) is Err {
        Err(bool_field(m, Field::AvailableAsVod)->Err_0)
    } else if bool_field(m, Field::Rerun) is Err {
        Err(bool_field(m, Field::Rerun)->Err_0)
    } else if bool_field(m, Field::Premiere) is Err {
        Err(bool_field(m, Field::Premiere)->Err_0)
    } else if bool_field(m, Field::Live) is Err {
        Err(bool_field(m, Field::Live)->Err_0)
    } else if timestamp_field(m, Field::Start) is Err {
        Err(timestamp_field(m, Field::Start)->Err_0)
    } else if timestamp_field(m, Field::Stop) is Err {
        Err(timestamp_field(m, Field::Stop)->Err_0)
    } else {
        Ok(
            ProgramView {
                id: text_field(m, Field::Id)->Ok_0,
                title: text_field(m, Field::Title)->Ok_0,
                categories: text_list_field(m, Field::Categories)->Ok_0,
                available_as_vod: bool_field(m, Field::AvailableAsVod)->Ok_0,
                rerun: bool_field(m, Field::Rerun)->Ok_0,
                premiere: bool_field(m, Field::Premiere)->Ok_0,
                live: bool_field(m, Field::Live)->Ok_0,
                starts_at: timestamp_field(m, Field::Start)->Ok_0,
                ends_at: timestamp_field(m, Field::Stop)->Ok_0,
            },
        )
    }
}

/// The program that a JSON value describes.
pub open spec fn program_spec(v: JsonValue) -> Result<ProgramView, DecodeError> {
    match v {
        JsonValue::Object(m) => program_members_spec(m@),
        _ => Err(DecodeError::NotAnObject),
    }
}

/// Whether a decoded program agrees with a result over views.
pub open spec fn program_result_matches(r: Result<Program, DecodeError>, s: Result<ProgramView, DecodeError>) -> bool {
    match r {
        Ok(p) => s == Ok::<ProgramView, DecodeError>(p@),
        Err(e) => s == Err::<ProgramView, DecodeError>(e),
    }
}

/// Whether a field belongs to the program schema.
pub open spec fn is_program_field(f: Field) -> bool {
    f == Field::Id || f == Field::Title || f == Field::Categories || f == Field::AvailableAsVod
        || f == Field::Rerun || f == Field::Premiere || f == Field::Live || f == Field::Start
        || f == Field::Stop
}

/// A program object without one of its fields never decodes: the result
/// is an error, and never a program with a field filled in by default.
pub proof fn program_requires_every_field(m: Seq<(String, JsonValue)>, f: Field)
    requires
        is_program_field(f),
        lookup(m, f.wire_name_spec()) is None,
    ensures
        program_members_spec(m) is Err,
        program_members_spec(m)->Err_0 is MissingField || program_members_spec(m)->Err_0 is InvalidField,
{
}

/// Each flag of a decoded program is the boolean of its own member, whatever
/// the other flags hold.
pub proof fn program_flags_independent(m: Seq<(String, JsonValue)>, vod: bool, rerun: bool, premiere: bool, live: bool)
    requires
        lookup(m, "availableAsVod"@) == Some(JsonValue::Bool(vod)),
        lookup(m, "rerun"@) == Some(JsonValue::Bool(rerun)),
        lookup(m, "premiere"@) == Some(JsonValue::Bool(premiere)),
        lookup(m, "live"@) == Some(JsonValue::Bool(live)),
        program_members_spec(m) is Ok,
    ensures
        program_members_spec(m)->Ok_0.available_as_vod == vod,
        program_members_spec(m)->Ok_0.rerun == rerun,
        program_members_spec(m)->Ok_0.premiere == premiere,
        program_members_spec(m)->Ok_0.live == live,
{
}

/// The categories of a decoded program are the strings of its
/// `categories` member, in the same order.
pub proof fn program_categories_kept_in_order(m: Seq<(String, JsonValue)>, items: Vec<JsonValue>)
    requires
        lookup(m, "categories"@) == Some(JsonValue::Array(items)),
        program_members_spec(m) is Ok,
    ensures
        program_members_spec(m)->Ok_0.categories.len() == items@.len(),
        forall|i: int|
            0 <= i < items@.len() ==> items@[i] is Str && (#[trigger] program_members_spec(m)->Ok_0.categories[i])
                == (items@[i]->Str_0)@,
{
}

/// The duration of a decoded program is its `stop` member less its `start`
/// member, both in nanoseconds.
pub proof fn program_duration_is_stop_less_start(m: Seq<(String, JsonValue)>, start: i128, stop: i128)
    requires
        lookup(m, "start"@) == Some(JsonValue::Int(start)),
        lookup(m, "stop"@) == Some(JsonValue::Int(stop)),
        program_members_spec(m) is Ok,
    ensures
        program_members_spec(m)->Ok_0.ends_at - program_members_spec(m)->Ok_0.starts_at == stop - start,
{
}

impl Program {
    /// Both instants lie in the range that a nanosecond timestamp on the
    /// wire can take.
    #[verifier::type_invariant]
    spec fn instants_in_range(&self) -> bool {
        timestamp_in_range(self.starts_at as int) && timestamp_in_range(self.ends_at as int)
    }

    /// Decodes a program from a JSON value, strictly: no field is filled in
    /// by default, no string is altered and the flags are taken one by one.
    pub fn from_json(v: &JsonValue) -> (r: Result<Program, DecodeError>)
        ensures
            program_result_matches(r, program_spec(*v)),
    {
        match v {
            JsonValue::Object(m) => {
                let id = match take_text(m, Field::Id) {
                    Ok(s) => s,
                    Err(e) => return Err(e),
                };
                let title = match take_text(m, Field::Title) {
                    Ok(s) => s,
                    Err(e) => return Err(e),
                };
                let categories = match take_text_list(m, Field::Categories) {
                    Ok(c) => c,
                    Err(e) => return Err(e),
                };
                let available_as_vod = match take_bool(m, Field::AvailableAsVod) {
                    Ok(b) => b,
                    Err(e) => return Err(e),
                };
                let rerun = match take_bool(m, Field::Rerun) {
                    Ok(b) => b,
                    Err(e) => return Err(e),
                };
                let premiere = match take_bool(m, Field::Premiere) {
                    Ok(b) => b,
                    Err(e) => return Err(e),
                };
                let live = match take_bool(m, Field::Live) {
                    Ok(b) => b,
                    Err(e) => return Err(e),
                };
                let starts_at = match take_timestamp(m, Field::Start) {
                    Ok(t) => t,
                    Err(e) => return Err(e),
                };
                let ends_at = match take_timestamp(m, Field::Stop) {
                    Ok(t) => t,
                    Err(e) => return Err(e),
                };
                Ok(
                    Program {
                        id,
                        title,
                        categories,
                        available_as_vod,
                        rerun,
                        premiere,
                        live,
                        starts_at,
                        ends_at,
                    },
                )
            },
            _ => Err(DecodeError::NotAnObject),
        }
    }

    /// Returns the unique ID of the program
    pub fn id(&self) -> (r: &str)
        ensures
            r@ == self@.id,
    {
        self.id.as_str()
    }

    /// Returns the title of the program
    pub fn title(&self) -> (r: &str)
        ensures
            r@ == self@.title,
    {
        self.title.as_str()
    }

    /// Returns the list of categories that applies to the program
    pub fn categories(&self) -> (r: &Vec<String>)
        ensures
            texts_view(r@) == self@.categories,
    {
        &self.categories
    }

    /// Returns whether this program is available as VOD
    pub fn available_as_vod(&self) -> (r: bool)
        ensures
            r == self@.available_as_vod,
    {
        self.available_as_vod
    }

    /// Returns whether this program is a rerun
    pub fn rerun(&self) -> (r: bool)
        ensures
            r == self@.rerun,
    {
        self.rerun
    }

    /// Returns whether this program is premiering episode
    pub fn premiere(&self) -> (r: bool)
        ensures
            r == self@.premiere,
    {
        self.premiere
    }

    /// Returns whether this is a live program
    pub fn live(&self) -> (r: bool)
        ensures
            r == self@.live,
    {
        self.live
    }

    /// Returns the start, in nanoseconds since the Unix epoch
    pub fn starts_at(&self) -> (r: i128)
        ensures
            r == self@.starts_at,
            timestamp_in_range(r as int),
    {
        proof {
            use_type_invariant(self);
        }
        self.starts_at
    }

    /// Returns the end, in nanoseconds since the Unix epoch
    pub fn ends_at(&self) -> (r: i128)
        ensures
            r == self@.ends_at,
            timestamp_in_range(r as int),
    {
        proof {
            use_type_invariant(self);
        }
        self.ends_at
    }

    /// Returns the duration of the program in nanoseconds: the end minus the
    /// start, negative where the provider gave an end before the start.
    pub fn duration(&self) -> (r: i128)
        ensures
            r == self@.ends_at - self@.starts_at,
    {
        proof {
            use_type_invariant(self);
        }
        self.ends_at - self.starts_at
    }
}

} // verus!
