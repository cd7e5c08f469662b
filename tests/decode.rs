use tvtid::{
    channel_list_from_json, decode_channel_list, Channel, ChannelId, DecodeError, Error, Field, JsonValue, Program,
    Schedule,
};

const CHANNEL: &str = r#"
    {
      "id": "1",
      "title": "DR1",
      "icon": "https://epg-images.tv2.dk/channellogos/icon/1.png",
      "logo": "https://epg-images.tv2.dk/channellogos/logo/1.png",
      "svgLogo": "https://epg-images.tv2.dk/channellogos/svg/1.svg",
      "sort": 1
    }
"#;

const PROGRAM: &str = r#"
    {
      "stop": 1585458000,
      "start": 1585454700,
      "categories": [
        "Kultur og Natur",
        "Programmer"
      ],
      "id": "20605495",
      "title": "Fantastiske floder: Mississippifloden",
      "availableAsVod": false,
      "rerun": true,
      "premiere": false,
      "live": false
    }
"#;

fn channel_of(json: &str) -> Result<Channel, DecodeError> {
    let doc = JsonValue::parse(json.as_bytes())?;
    Channel::from_json(&doc)
}

fn program_of(json: &str) -> Result<Program, DecodeError> {
    let doc = JsonValue::parse(json.as_bytes())?;
    Program::from_json(&doc)
}

#[test]
fn it_deserializes_channel() {
    let channel = channel_of(CHANNEL).unwrap();
    assert_eq!(channel.id(), "1");
    assert_eq!(channel.title(), "DR1");
    assert!(!channel.icon().is_empty());
    assert!(!channel.logo().is_empty());
    assert!(!channel.svg_logo().is_empty());
}

#[test]
fn channel_fields_map_exactly() {
    let channel = channel_of(CHANNEL).unwrap();
    assert_eq!(channel.icon(), "https://epg-images.tv2.dk/channellogos/icon/1.png");
    assert_eq!(channel.logo(), "https://epg-images.tv2.dk/channellogos/logo/1.png");
    assert_eq!(channel.svg_logo(), "https://epg-images.tv2.dk/channellogos/svg/1.svg");
    assert_eq!(channel.sort(), 1);
}

#[test]
fn it_deserializes_program() {
    let program = program_of(PROGRAM).unwrap();
    assert_eq!(program.title(), "Fantastiske floder: Mississippifloden");
    assert_eq!(program.id(), "20605495");
    assert_eq!(program.available_as_vod(), false);
    assert!(program.rerun());
    assert_eq!(program.premiere(), false);
    assert_eq!(program.live(), false);
    assert!(program.categories().len() > 0);
}

#[test]
fn program_has_duration() {
    let program = program_of(PROGRAM).unwrap();
    assert_eq!(program.starts_at(), 1585454700);
    assert_eq!(program.ends_at(), 1585458000);
    assert_eq!(program.duration(), 3300);
    assert!(program.duration() > 0);
}

#[test]
fn negative_duration_is_passed_through() {
    let json = PROGRAM.replace("1585458000", "1585450000");
    let program = program_of(&json).unwrap();
    assert_eq!(program.duration(), -4700);
}

#[test]
fn program_categories_keep_order() {
    let program = program_of(PROGRAM).unwrap();
    assert_eq!(program.categories(), &vec!["Kultur og Natur".to_string(), "Programmer".to_string()]);
}

#[test]
fn program_with_no_categories() {
    let json = PROGRAM.replace(
        r#"[
        "Kultur og Natur",
        "Programmer"
      ]"#,
        "[]",
    );
    let program = program_of(&json).unwrap();
    assert!(program.categories().is_empty());
}

#[test]
fn program_flags_are_independent() {
    let json = r#"{"id": "7", "title": "T", "categories": [], "availableAsVod": true,
        "rerun": true, "premiere": true, "live": false, "start": 0, "stop": 1}"#;
    let program = program_of(json).unwrap();
    assert!(program.available_as_vod());
    assert!(program.rerun());
    assert!(program.premiere());
    assert!(!program.live());
}

#[test]
fn channel_without_sort_fails() {
    let json = CHANNEL.replace(r#","sort": 1"#, "").replace(",\n      \"sort\": 1", "");
    assert_eq!(channel_of(&json).unwrap_err(), DecodeError::MissingField(Field::Sort));
}

#[test]
fn program_without_stop_fails() {
    let json = PROGRAM.replace("\"stop\": 1585458000,", "");
    assert_eq!(program_of(&json).unwrap_err(), DecodeError::MissingField(Field::Stop));
}

#[test]
fn channel_with_wrong_types_fails() {
    let json = CHANNEL.replace("\"DR1\"", "1");
    assert_eq!(channel_of(&json).unwrap_err(), DecodeError::InvalidField(Field::Title));
    let json = CHANNEL.replace("\"sort\": 1", "\"sort\": -1");
    assert_eq!(channel_of(&json).unwrap_err(), DecodeError::InvalidField(Field::Sort));
    let json = CHANNEL.replace("\"sort\": 1", "\"sort\": 4294967296");
    assert_eq!(channel_of(&json).unwrap_err(), DecodeError::InvalidField(Field::Sort));
    let json = CHANNEL.replace("\"sort\": 1", "\"sort\": 1.5");
    assert_eq!(channel_of(&json).unwrap_err(), DecodeError::InvalidField(Field::Sort));
}

#[test]
fn channel_sort_at_its_largest() {
    let json = CHANNEL.replace("\"sort\": 1", "\"sort\": 4294967295");
    assert_eq!(channel_of(&json).unwrap().sort(), u32::MAX);
}

#[test]
fn program_timestamps_at_their_bounds() {
    let json = PROGRAM
        .replace("1585454700", "-9223372036854775808")
        .replace("1585458000", "18446744073709551615");
    let program = program_of(&json).unwrap();
    assert_eq!(program.starts_at(), i64::MIN as i128);
    assert_eq!(program.ends_at(), u64::MAX as i128);
    assert_eq!(program.duration(), u64::MAX as i128 - i64::MIN as i128);
}

#[test]
fn program_with_bad_flag_fails() {
    let json = PROGRAM.replace("\"live\": false", "\"live\": null");
    assert_eq!(program_of(&json).unwrap_err(), DecodeError::InvalidField(Field::Live));
}

#[test]
fn not_json_is_a_syntax_error() {
    assert_eq!(channel_of("{\"id\": ").unwrap_err(), DecodeError::Syntax);
    assert_eq!(channel_of("").unwrap_err(), DecodeError::Syntax);
}

#[test]
fn non_object_is_refused() {
    assert_eq!(channel_of("[1, 2]").unwrap_err(), DecodeError::NotAnObject);
    assert_eq!(program_of("\"x\"").unwrap_err(), DecodeError::NotAnObject);
}

#[test]
fn channel_list_keeps_wire_order() {
    let second = CHANNEL.replace("\"1\"", "\"3\"").replace("\"DR1\"", "\"TV2\"").replace("\"sort\": 1", "\"sort\": 0");
    let body = format!("{{\"channels\": [{}, {}]}}", CHANNEL, second);
    let channels = decode_channel_list(body.as_bytes()).unwrap();
    assert_eq!(channels.len(), 2);
    assert_eq!(channels[0].id(), "1");
    assert_eq!(channels[1].id(), "3");
    assert_eq!(channels[1].title(), "TV2");
    assert_eq!(channels[1].sort(), 0);
}

#[test]
fn channel_list_without_channels_fails() {
    match decode_channel_list(b"{\"items\": []}") {
        Err(Error::Decode(e)) => assert_eq!(e, DecodeError::MissingField(Field::Channels)),
        other => panic!("unexpected {:?}", other),
    }
}

#[test]
fn channel_list_with_bad_element_fails_whole() {
    let bad = CHANNEL.replace("\"sort\": 1", "\"sort\": \"1\"");
    let body = format!("{{\"channels\": [{}, {}]}}", CHANNEL, bad);
    match decode_channel_list(body.as_bytes()) {
        Err(Error::Decode(e)) => assert_eq!(e, DecodeError::InvalidField(Field::Sort)),
        other => panic!("unexpected {:?}", other),
    }
}

#[test]
fn channel_list_of_wrong_shape_fails() {
    let doc = JsonValue::parse(b"{\"channels\": {}}").unwrap();
    assert_eq!(channel_list_from_json(&doc).unwrap_err(), DecodeError::InvalidField(Field::Channels));
    match decode_channel_list(b"not json") {
        Err(Error::Decode(e)) => assert_eq!(e, DecodeError::Syntax),
        other => panic!("unexpected {:?}", other),
    }
}

#[test]
fn empty_channel_list_is_empty() {
    let channels = decode_channel_list(b"{\"channels\": []}").unwrap();
    assert!(channels.is_empty());
}

#[test]
fn schedule_keeps_program_order() {
    let second = PROGRAM.replace("20605495", "20605496");
    let body = format!("[{}, {}]", PROGRAM, second);
    let doc = JsonValue::parse(body.as_bytes()).unwrap();
    let schedule = Schedule::from_json(&doc).unwrap();
    assert_eq!(schedule.programs().len(), 2);
    assert_eq!(schedule.programs()[0].id(), "20605495");
    assert_eq!(schedule.programs()[1].id(), "20605496");
}

#[test]
fn schedule_must_be_an_array() {
    let doc = JsonValue::parse(PROGRAM.as_bytes()).unwrap();
    assert_eq!(Schedule::from_json(&doc).unwrap_err(), DecodeError::NotAnArray);
}

#[test]
fn field_wire_names() {
    assert_eq!(Field::SvgLogo.wire_name(), "svgLogo");
    assert_eq!(Field::AvailableAsVod.wire_name(), "availableAsVod");
    assert_eq!(Field::Start.wire_name(), "start");
    assert_eq!(Field::Stop.wire_name(), "stop");
}

#[test]
fn parsed_document_model() {
    let doc = JsonValue::parse(b"{\"a\": [null, true, -3, 2.5, \"x\"]}").unwrap();
    match doc {
        JsonValue::Object(members) => {
            assert_eq!(members.len(), 1);
            assert_eq!(members[0].0, "a");
            match &members[0].1 {
                JsonValue::Array(items) => {
                    assert!(matches!(items[0], JsonValue::Null));
                    assert!(matches!(items[1], JsonValue::Bool(true)));
                    assert!(matches!(items[2], JsonValue::Int(-3)));
                    assert!(matches!(items[3], JsonValue::Fraction));
                    assert!(matches!(&items[4], JsonValue::Str(s) if s == "x"));
                },
                other => panic!("unexpected {:?}", other),
            }
        },
        other => panic!("unexpected {:?}", other),
    }
}

#[test]
fn channel_id_of_identifier_and_channel() {
    let channel = channel_of(CHANNEL).unwrap();
    assert_eq!(channel.channel_id(), "1");
    assert_eq!("42".channel_id(), "42");
}

#[test]
fn repeated_key_keeps_last_value() {
    let json = CHANNEL.replace("\"id\": \"1\",", "\"id\": \"1\", \"id\": \"2\",");
    assert_eq!(channel_of(&json).unwrap().id(), "2");
}
