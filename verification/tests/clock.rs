use arcana::commands::mission_commands::{CreateMission, MissionCommands};
use arcana::date::{rfc3339_millis_text, utc_date_of};
use arcana::pack::Pack;
use arcana::record::{RecordDefinition, ValueType};
use arcana::repository::Repository;
use arcana::standard_packs::basic_pack;

fn is_lower_hex(c: char) -> bool {
    c.is_ascii_digit() || ('a'..='f').contains(&c)
}

fn mission(title: &str) -> CreateMission {
    CreateMission {
        title: title.to_string(),
        description: None,
        progress: None,
        difficulty: None,
        deadline: None,
        parent_id: None,
    }
}

#[test]
fn created_missions_get_version_seven_identifiers() {
    let mut repository = Repository::new();
    let mut commands = MissionCommands::new(&mut repository);
    let first = commands.create(mission("Run")).unwrap().mission;
    let id: Vec<char> = first.id.chars().collect();
    assert_eq!(id.len(), 36);
    for (i, c) in id.iter().enumerate() {
        if [8, 13, 18, 23].contains(&i) {
            assert_eq!(*c, '-');
        } else {
            assert!(is_lower_hex(*c), "{}", first.id);
        }
    }
    assert_eq!(id[14], '7');
    assert!(matches!(id[19], '8' | '9' | 'a' | 'b'));
    let second = commands.create(mission("Swim")).unwrap().mission;
    assert_ne!(second.id, first.id);
}

#[test]
fn creation_times_are_rfc3339_with_milliseconds() {
    let mut repository = Repository::new();
    let mut commands = MissionCommands::new(&mut repository);
    let at = commands.create(mission("Run")).unwrap().mission.created_at;
    let chars: Vec<char> = at.chars().collect();
    assert_eq!(chars.len(), 24, "{at}");
    assert_eq!((chars[4], chars[7], chars[10], chars[13], chars[16], chars[19], chars[23]), ('-', '-', 'T', ':', ':', '.', 'Z'));
    assert!(at.as_str() >= "2020-01-01T00:00:00.000Z");
}

#[test]
fn milliseconds_print_as_rfc3339_text() {
    assert_eq!(rfc3339_millis_text(0), "1970-01-01T00:00:00.000Z");
    assert_eq!(rfc3339_millis_text(1_700_000_000_123), "2023-11-14T22:13:20.123Z");
    assert_eq!(rfc3339_millis_text(951_782_400_000), "2000-02-29T00:00:00.000Z");
    assert_eq!(rfc3339_millis_text(253_402_300_799_999), "9999-12-31T23:59:59.999Z");
}

#[test]
fn seconds_fall_on_their_utc_date() {
    let d = utc_date_of(0);
    assert_eq!((d.year, d.month, d.day), (1970, 1, 1));
    let d = utc_date_of(1_700_000_000);
    assert_eq!((d.year, d.month, d.day), (2023, 11, 14));
    let d = utc_date_of(86_399);
    assert_eq!((d.year, d.month, d.day), (1970, 1, 1));
}

#[test]
fn basic_pack_defines_the_two_identity_scalars() {
    let pack: Pack = basic_pack();
    assert_eq!(pack.manifest.name, "Basic");
    assert!(pack.dimensions.is_none() && pack.achievements.is_none() && pack.skills.is_none());
    assert!(pack.assets.is_empty());
    let definitions = pack.record_definitions.unwrap().definitions;
    assert_eq!(definitions.len(), 2);
    match (&definitions[0], &definitions[1]) {
        (RecordDefinition::Scalar(birth), RecordDefinition::Scalar(nickname)) => {
            assert_eq!((birth.id.as_str(), birth.name.as_str()), ("identity.birth_date", "Birth date"));
            assert_eq!(birth.value_type, ValueType::Date);
            assert_eq!((nickname.id.as_str(), nickname.name.as_str()), ("identity.nickname", "Nickname"));
            assert_eq!(nickname.value_type, ValueType::String);
            assert!(birth.unit.is_none() && nickname.unit.is_none());
        }
        _ => panic!("both identity definitions are scalars"),
    }
}

#[test]
fn the_uuid_builder_lays_out_time_and_random_bytes() {
    let random = [0xff, 0x11, 0xff, 0x22, 0x33, 0x44, 0x55, 0x66, 0x77, 0x88];
    let text = uuid::Builder::from_unix_timestamp_millis(0x0123_4567_89ab, &random).into_uuid().to_string();
    assert_eq!(text, "01234567-89ab-7f11-bf22-334455667788");
}
