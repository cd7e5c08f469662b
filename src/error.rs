use vstd::prelude::*;

verus! {

/// A field of the provider's wire schema.
#[derive(Clone, Copy, Debug, PartialEq, Eq, Structural)]
pub enum Field {
    Id,
    Title,
    Icon,
    Logo,
    SvgLogo,
    Sort,
    Categories,
    AvailableAsVod,
    Rerun,
    Premiere,
    Live,
    Start,
    Stop,
    Channels,
}

impl Field {
    /// The name under which the field travels on the wire.
    pub open spec fn wire_name_spec(self) -> Seq<char> {
        match self {
            Field::Id => "id"@,
            Field::Title => "title"@,
            Field::Icon => "icon"@,
            Field::Logo => "logo"@,
            Field::SvgLogo => "svgLogo"@,
            Field::Sort => "sort"@,
            Field::Categories => "categories"@,
            Field::AvailableAsVod => "availableAsVod"@,
            Field::Rerun => "rerun"@,
            Field::Premiere => "premiere"@,
            Field::Live => "live"@,
            Field::Start => "start"@,
            Field::Stop => "stop"@,
            Field::Channels => "channels"@,
        }
    }

    /// Returns the name under which the field travels on the wire.
    pub fn wire_name(self) -> (r: &'static str)
        ensures
            r@ == self.wire_name_spec(),
    {
        match self {
            Field::Id => "id",
            Field::Title => "title",
            Field::Icon => "icon",
            Field::Logo => "logo",
            Field::SvgLogo => "svgLogo",
            Field::Sort => "sort",
            Field::Categories => "categories",
            Field::AvailableAsVod => "availableAsVod",
            Field::Rerun => "rerun",
            Field::Premiere => "premiere",
            Field::Live => "live",
            Field::Start => "start",
            Field::Stop => "stop",
            Field::Channels => "channels",
        }
    }
}

/// Why a document did not decode into the expected shape.
#[derive(Clone, Copy, Debug, PartialEq, Eq, Structural)]
pub enum DecodeError {
    /// The bytes are not a JSON document.
    Syntax,
    /// A JSON object was expected.
    NotAnObject,
    /// A JSON array was expected.
    NotAnArray,
    /// A required field is absent.
    MissingField(Field),
    /// A field holds a value of the wrong type or out of range.
    InvalidField(Field),
}

/// The failures of the client.
#[derive(Clone, Debug)]
pub enum Error {
    /// The network exchange failed; holds the transport's description.
    Transport(String),
    /// A local I/O operation failed; holds its description.
    Io(String),
    /// The response body did not match the expected schema.
    Decode(DecodeError),
}

} // verus!
