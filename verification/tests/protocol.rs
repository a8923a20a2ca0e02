use nutblaster::id::{validate_gid, GameId, LobbyId, GAME_ID_MAX};
use nutblaster::protocol::aux::{
    check_meta, deserialize_bounded_string, deserialize_field_name, deserialize_field_value,
    deserialize_metadata, BoundedString, FieldKey, FieldValue, Metadata, FIELD_NAME_MAX,
    FIELD_VALUE_MAX, STRING_MAX_MAX_LEN,
};
use nutblaster::protocol::payloads::Kick;

fn unwrap_key(key: &str) {
    FieldKey(deserialize_field_name(key.to_string()).unwrap());
}

#[test]
#[should_panic]
fn field_name_lower_bound() {
    unwrap_key("");
}

#[test]
#[should_panic]
fn field_name_upper_bound() {
    unwrap_key(&"*".repeat(FIELD_NAME_MAX + 1));
}

#[test]
fn field_name_deserializes() {
    unwrap_key("NutBlast.lobby.name");
    unwrap_key("0");
}

#[test]
fn field_name_faults_are_told_apart() {
    assert_eq!(
        deserialize_field_name(String::new()),
        Err("field name cannot be empty".to_string())
    );
    assert_eq!(
        deserialize_field_name("*".repeat(256)),
        Err("field name exceeds 255 bytes".to_string())
    );
    assert_eq!(deserialize_field_name("*".repeat(255)), Ok("*".repeat(255)));
}

#[test]
fn lengths_count_bytes() {
    // 128 characters, two bytes each
    assert_eq!(
        deserialize_field_name("\u{e4}".repeat(128)),
        Err("field name exceeds 255 bytes".to_string())
    );
    assert!(deserialize_field_name("\u{e4}".repeat(127)).is_ok());
}

#[test]
fn field_value_bounds() {
    assert_eq!(deserialize_field_value(String::new()), Ok(String::new()));
    assert!(deserialize_field_value("v".repeat(FIELD_VALUE_MAX)).is_ok());
    assert_eq!(
        deserialize_field_value("v".repeat(8192)),
        Err("field value exceeds max length of 8191 bytes".to_string())
    );
}

#[test]
fn bounded_string_bounds() {
    assert!(deserialize_bounded_string("s".repeat(STRING_MAX_MAX_LEN)).is_ok());
    assert_eq!(
        deserialize_bounded_string("s".repeat(1025)),
        Err("String exceeds max length of 1024 bytes".to_string())
    );
}

#[test]
fn texts_say_what_they_hold() {
    assert_eq!(BoundedString("sdp".to_string()).to_string(), "sdp");
    assert_eq!(FieldKey("k".to_string()).to_string(), "k");
    assert_eq!(FieldValue("v".to_string()).to_string(), "v");
    assert_eq!(FieldKey("k".to_string()).clone(), FieldKey("k".to_string()));
    assert_eq!(FieldValue("v".to_string()).clone(), FieldValue("v".to_string()));
    assert_eq!(BoundedString("sdp".to_string()).clone().0, "sdp");
}

fn field(i: usize) -> (String, String) {
    (format!("k{i}"), format!("v{i}"))
}

fn fields(m: &Metadata) -> Vec<(String, String)> {
    let mut all = Vec::new();
    for i in 0..m.0.len() {
        all.push((m.0.key_at(i).clone(), m.0.value_at(i).clone()));
    }
    all
}

#[test]
fn metadata_holds_up_to_sixteen_fields() {
    let sixteen: Vec<(String, String)> = (0..16).map(field).collect();
    let m = deserialize_metadata(sixteen.clone()).unwrap();
    assert_eq!(fields(&m), sixteen);
    assert!(m.can_add("k3"));
    assert!(!m.can_add("new"));
    assert_eq!(
        deserialize_metadata((0..17).map(field).collect()).unwrap_err(),
        "too many metadata fields (max 16 allowed)"
    );
    let fifteen = deserialize_metadata((0..15).map(field).collect()).unwrap();
    assert!(fifteen.can_add("new"));
}

#[test]
fn metadata_keeps_the_last_value_of_a_field() {
    let twice = vec![
        ("a".to_string(), "1".to_string()),
        ("b".to_string(), "2".to_string()),
        ("a".to_string(), "3".to_string()),
    ];
    let m = deserialize_metadata(twice).unwrap();
    assert_eq!(
        fields(&m),
        vec![
            ("a".to_string(), "3".to_string()),
            ("b".to_string(), "2".to_string())
        ]
    );
}

#[test]
fn metadata_tells_of_the_first_fault() {
    let faulty = vec![
        ("a".to_string(), "v".repeat(8192)),
        (String::new(), "2".to_string()),
    ];
    assert_eq!(
        deserialize_metadata(faulty).unwrap_err(),
        "field value exceeds max length of 8191 bytes"
    );
    let faulty = vec![(String::new(), "v".repeat(8192))];
    assert_eq!(
        deserialize_metadata(faulty).unwrap_err(),
        "field name cannot be empty"
    );
}

#[test]
fn first_metadata_leaves_room_for_a_field() {
    assert!(check_meta(&Metadata::new()));
    assert!(check_meta(&deserialize_metadata((0..15).map(field).collect()).unwrap()));
    assert!(!check_meta(&deserialize_metadata((0..16).map(field).collect()).unwrap()));
    let mut m = Metadata::new();
    m.0.insert(String::new(), "v".to_string());
    assert!(!check_meta(&m));
    let mut m = Metadata::new();
    m.0.insert("k".to_string(), "v".repeat(8192));
    assert!(!check_meta(&m));
}

#[test]
fn erasing_undoes_setting() {
    let mut m = deserialize_metadata((0..3).map(field).collect()).unwrap();
    let before = fields(&m);
    m.0.insert("new".to_string(), "x".to_string());
    assert_eq!(m.0.len(), 4);
    m.0.remove(&"new".to_string());
    assert_eq!(fields(&m), before);
    m.0.insert("k1".to_string(), "x".to_string());
    m.0.insert("k1".to_string(), "y".to_string());
    assert_eq!(fields(&m)[1], ("k1".to_string(), "y".to_string()));
    assert_eq!(m.0.len(), 3);
}

#[test]
fn game_ids() {
    assert_eq!(
        validate_gid("Nut Blast-2_x.y".to_string()),
        Ok("Nut Blast-2_x.y".to_string())
    );
    assert!(validate_gid("g".repeat(GAME_ID_MAX)).is_ok());
    let sized = Err("game ID must be nonempty, up to 63 bytes".to_string());
    assert_eq!(validate_gid(String::new()), sized);
    assert_eq!(validate_gid("g".repeat(64)), sized);
    let alphanumeric = Err("game ID must be alphanumeric".to_string());
    assert_eq!(validate_gid("nut/blast".to_string()), alphanumeric);
    assert_eq!(validate_gid("n\u{fc}t".to_string()), alphanumeric);
    let gid = GameId("game".to_string());
    assert!(gid.valid());
    assert_eq!(gid.as_str(), "game");
    assert!(!GameId("a,b".to_string()).valid());
    assert!(LobbyId { lid: 0, gid }.valid());
    assert!(!LobbyId { lid: 0, gid: GameId(String::new()) }.valid());
}

#[test]
fn kicks() {
    assert_eq!(
        Kick::natural("kick", "Bye"),
        Kick::Natural { code: "kick".to_string(), msg: "Bye".to_string() }
    );
    assert_eq!(
        Kick::violation("bad", "No"),
        Kick::Violation { code: "bad".to_string(), msg: "No".to_string() }
    );
    assert_eq!(Kick::violation("bad", "No").clone(), Kick::violation("bad", "No"));
}
