use vstd::prelude::*;

use crate::error::{DecodeError, Field};
use crate::json::{agree, lemma_fields_agree, lookup, take_text, take_u32, text_field, u32_field, JsonValue};

verus! {

/// A broadcast channel as the provider describes it.
#[derive(Debug)]
pub struct Channel {
    id: String,
    title: String,
    icon: String,
    logo: String,
    svg_logo: String,
    sort: u32,
}

/// The fields of a channel, as mathematical values.
pub struct ChannelView {
    pub id: Seq<char>,
    pub title: Seq<char>,
    pub icon: Seq<char>,
    pub logo: Seq<char>,
    pub svg_logo: Seq<char>,
    pub sort: u32,
}

impl View for Channel {
    type V = ChannelView;

    closed spec fn view(&self) -> ChannelView {
        ChannelView {
            id: self.id@,
            title: self.title@,
            icon: self.icon@,
            logo: self.logo@,
            svg_logo: self.svg_logo@,
            sort: self.sort,
        }
    }
}

/// The channel that the members of a JSON object describe: every field is
/// required, and the first one absent or of the wrong type, in the order
/// `id`, `title`, `icon`, `logo`, `svgLogo`, `sort`, is the error.
pub open spec fn channel_members_spec(m: Seq<(String, JsonValue)>) -> Result<ChannelView, DecodeError> {
    if text_field(m, Field::Id) is Err {
        Err(text_field(m, Field::Id)->Err_0)
    } else if text_field(m, Field::Title) is Err {
        Err(text_field(m, Field::Title)->Err_0)
    } else if text_field(m, Field::Icon) is Err {
        Err(text_field(m, Field::Icon)->Err_0)
    } else if text_field(m, Field::Logo) is Err {
        Err(text_field(m, Field::Logo)->Err_0)
    } else if text_field(m, Field::SvgLogo) is Err {
        Err(text_field(m, Field::SvgLogo)->Err_0)
    } else if u32_field(m, Field::Sort) is Err {
        Err(u32_field(m, Field::Sort)->Err_0)
    } else {
        Ok(
            ChannelView {
                id: text_field(m, Field::Id)->Ok_0,
                title: text_field(m, Field::Title)->Ok_0,
                icon: text_field(m, Field::Icon)->Ok_0,
                logo: text_field(m, Field::Logo)->Ok_0,
                svg_logo: text_field(m, Field::SvgLogo)->Ok_0,
                sort: u32_field(m, Field::Sort)->Ok_0,
            },
        )
    }
}

/// The channel that a JSON value describes.
pub open spec fn channel_spec(v: JsonValue) -> Result<ChannelView, DecodeError> {
    match v {
        JsonValue::Object(m) => channel_members_spec(m@),
        _ => Err(DecodeError::NotAnObject),
    }
}

/// Values that agree decode to the same channel.
pub proof fn lemma_channel_agrees(a: JsonValue, b: JsonValue, d: nat)
    requires
        agree(a, b, d),
    ensures
        channel_spec(a) == channel_spec(b),
{
    if a is Object && b is Object {
        let (x, y) = ((a->Object_0)@, (b->Object_0)@);
        let e = (d - 1) as nat;
        lemma_fields_agree(x, y, e, Field::Id);
        lemma_fields_agree(x, y, e, Field::Title);
        lemma_fields_agree(x, y, e, Field::Icon);
        lemma_fields_agree(x, y, e, Field::Logo);
        lemma_fields_agree(x, y, e, Field::SvgLogo);
        lemma_fields_agree(x, y, e, Field::Sort);
    }
}

/// Whether a decoded channel agrees with a result over views.
pub open spec fn channel_result_matches(r: Result<Channel, DecodeError>, s: Result<ChannelView, DecodeError>) -> bool {
    match r {
        Ok(c) => s == Ok::<ChannelView, DecodeError>(c@),
        Err(e) => s == Err::<ChannelView, DecodeError>(e),
    }
}

/// Every member of a channel object passes into the field of the same
/// meaning unchanged, `svgLogo` into `svg_logo`.
pub proof fn channel_fields_pass_through(
    m: Seq<(String, JsonValue)>,
    id: String,
    title: String,
    icon: String,
    logo: String,
    svg_logo: String,
    sort: u32,
)
    requires
        lookup(m, "id"@) == Some(JsonValue::Str(id)),
        lookup(m, "title"@) == Some(JsonValue::Str(title)),
        lookup(m, "icon"@) == Some(JsonValue::Str(icon)),
        lookup(m, "logo"@) == Some(JsonValue::Str(logo)),
        lookup(m, "svgLogo"@) == Some(JsonValue::Str(svg_logo)),
        lookup(m, "sort"@) == Some(JsonValue::Int(sort as i128)),
    ensures
        channel_members_spec(m) == Ok::<ChannelView, DecodeError>(
            ChannelView {
                id: id@,
                title: title@,
                icon: icon@,
                logo: logo@,
                svg_logo: svg_logo@,
                sort,
            },
        ),
{
}

/// Whether a field belongs to the channel schema.
pub open spec fn is_channel_field(f: Field) -> bool {
    f == Field::Id || f == Field::Title || f == Field::Icon || f == Field::Logo || f == Field::SvgLogo
        || f == Field::Sort
}

/// A channel object without one of its fields never decodes: the result
/// is an error, and never a channel with a field filled in by default.
pub proof fn channel_requires_every_field(m: Seq<(String, JsonValue)>, f: Field)
    requires
        is_channel_field(f),
        lookup(m, f.wire_name_spec()) is None,
    ensures
        channel_members_spec(m) is Err,
        channel_members_spec(m)->Err_0 is MissingField || channel_members_spec(m)->Err_0 is InvalidField,
{
}

impl Channel {
    /// Decodes a channel from a JSON value, strictly: no field is filled in
    /// by default and no string is altered.
    pub fn from_json(v: &JsonValue) -> (r: Result<Channel, DecodeError>)
        ensures
            channel_result_matches(r, channel_spec(*v)),
    {
        match v {
            JsonValue::Object(m) => {
                let id = match take_text(m, Field::Id) {
                    Ok(s) => s,
                    Err(e) => return Err(e),
                };
                let title = match take_text(m, Field::Title) {
                    Ok(s) => s,
                    Err(e) => return Err(e),
                };
                let icon = match take_text(m, Field::Icon) {
                    Ok(s) => s,
                    Err(e) => return Err(e),
                };
                let logo = match take_text(m, Field::Logo) {
                    Ok(s) => s,
                    Err(e) => return Err(e),
                };
                let svg_logo = match take_text(m, Field::SvgLogo) {
                    Ok(s) => s,
                    Err(e) => return Err(e),
                };
                let sort = match take_u32(m, Field::Sort) {
                    Ok(n) => n,
                    Err(e) => return Err(e),
                };
                Ok(Channel { id, title, icon, logo, svg_logo, sort })
            },
            _ => Err(DecodeError::NotAnObject),
        }
    }

    /// Returns the unique ID of the channel
    pub fn id(&self) -> (r: &str)
        ensures
            r@ == self@.id,
    {
        self.id.as_str()
    }

    /// Returns the name of the channel
    pub fn title(&self) -> (r: &str)
        ensures
            r@ == self@.title,
    {
        self.title.as_str()
    }

    /// Returns the url for the logo of the channel
    pub fn logo(&self) -> (r: &str)
        ensures
            r@ == self@.logo,
    {
        self.logo.as_str()
    }

    /// Returns the url for the SVG logo of the channel
    pub fn svg_logo(&self) -> (r: &str)
        ensures
            r@ == self@.svg_logo,
    {
        self.svg_logo.as_str()
    }

    /// Returns the url for the icon of the channel
    pub fn icon(&self) -> (r: &str)
        ensures
            r@ == self@.icon,
    {
        self.icon.as_str()
    }

    /// Returns the sorting index
    pub fn sort(&self) -> (r: u32)
        ensures
            r == self@.sort,
    {
        self.sort
    }
}

/// A value that names a channel: a bare identifier, or a channel itself.
pub trait ChannelId {
    /// The identifier that the value names.
    spec fn channel_id_spec(&self) -> Seq<char>;

    /// Returns the identifier that the value names.
    fn channel_id(&self) -> (r: &str)
        ensures
            r@ == self.channel_id_spec(),
    ;
}

impl ChannelId for str {
    open spec fn channel_id_spec(&self) -> Seq<char> {
        self@
    }

    fn channel_id(&self) -> (r: &str) {
        self
    }
}

impl ChannelId for Channel {
    open spec fn channel_id_spec(&self) -> Seq<char> {
        self@.id
    }

    fn channel_id(&self) -> (r: &str) {
        self.id()
    }
}

} // verus!
