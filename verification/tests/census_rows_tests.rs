use nanite_clip::census::CensusError;
use nanite_clip::census_rows::{
    character_outfit_from_items, character_reference_from_items, faction_name,
    first_string_field, normalize_outfit_tag, online_character_ids, outfit_reference_from_items,
    parse_non_zero_u32_field, parse_weapon_reference_row, resolved_character, string_field,
    vehicle_references_from_items, weapon_references_from_response, world_name, Faction,
    JsonValue, WeaponReference,
};

fn text(s: &str) -> JsonValue {
    JsonValue::Text(s.to_string())
}

fn object(members: Vec<(&str, JsonValue)>) -> JsonValue {
    let mut keys = Vec::new();
    let mut values = Vec::new();
    for (key, value) in members {
        keys.push(key.to_string());
        values.push(value);
    }
    JsonValue::Object { keys, values }
}

#[test]
fn string_field_reads_nested_json_paths() {
    let value = object(vec![
        ("facility_name", text("The Crown")),
        ("name", object(vec![("en", text("Lightning"))])),
    ]);

    assert_eq!(string_field(&value, "facility_name"), Some("The Crown"));
    assert_eq!(string_field(&value, "name.en"), Some("Lightning"));
    assert_eq!(string_field(&value, "name.fr"), None);
}

#[test]
fn parses_joined_weapon_reference_rows() {
    let value = object(vec![
        ("item_id", text("3")),
        ("weapon_id", text("3")),
        (
            "item",
            object(vec![
                ("item_id", text("3")),
                ("item_category_id", text("8")),
                ("name", object(vec![("en", text("AF-19 Mercenary"))])),
                ("category", object(vec![("name", object(vec![("en", text("Carbine"))]))])),
            ]),
        ),
        (
            "weapon",
            object(vec![("weapon_id", text("3")), ("weapon_group_id", text("4"))]),
        ),
    ]);

    assert_eq!(
        parse_weapon_reference_row(&value),
        Some(WeaponReference {
            item_id: 3,
            weapon_id: 3,
            display_name: "AF-19 Mercenary".into(),
            category_label: "Carbine".into(),
            faction: None,
            weapon_group_id: Some(4),
        })
    );
}

#[test]
fn weapon_rows_read_faction_and_default_category() {
    let value = object(vec![
        ("item_id", text("7")),
        ("weapon_id", text("9")),
        (
            "item",
            object(vec![("name", text(" Gauss Rifle ")), ("faction_id", text("2"))]),
        ),
    ]);
    let weapon = parse_weapon_reference_row(&value).unwrap();
    assert_eq!(weapon.display_name, "Gauss Rifle");
    assert_eq!(weapon.category_label, "Other");
    assert_eq!(weapon.faction, Some(Faction::NC));
    assert_eq!(weapon.weapon_group_id, None);
    assert!(parse_weapon_reference_row(&object(vec![("item_id", text("x"))])).is_none());
}

fn weapon_row(item_id: &str, weapon_id: &str, name: &str, category: &str) -> JsonValue {
    object(vec![
        ("item_id", text(item_id)),
        ("weapon_id", text(weapon_id)),
        (
            "item",
            object(vec![
                ("name", object(vec![("en", text(name))])),
                ("category", object(vec![("name", object(vec![("en", text(category))]))])),
            ]),
        ),
    ])
}

#[test]
fn weapon_references_are_sorted_and_deduplicated() {
    let response = object(vec![(
        "item_to_weapon_list",
        JsonValue::Array(vec![
            weapon_row("281", "81", "bishop", "Battle Rifle"),
            weapon_row("180", "80", "Gauss Rifle", "Assault Rifle"),
            weapon_row("180", "80", "Gauss Rifle", "Assault Rifle"),
            weapon_row("5", "1", "Bishop", "Battle Rifle"),
            object(vec![("item_id", text("bad"))]),
        ]),
    )]);
    let references = weapon_references_from_response(&response).unwrap();
    let ids: Vec<i64> = references.iter().map(|r| r.item_id).collect();
    assert_eq!(ids, vec![5, 281, 180]);

    match weapon_references_from_response(&object(vec![])) {
        Err(CensusError::Api(message)) => assert_eq!(
            message,
            "missing item_to_weapon_list in weapon reference response"
        ),
        other => panic!("unexpected result {other:?}"),
    }
}

#[test]
fn vehicle_references_are_sorted_by_name_then_id() {
    let vehicle = |id: &str, name: &str| object(vec![("vehicle_id", text(id)), ("name", object(vec![("en", text(name))]))]);
    let items = vec![
        vehicle("2", "Sunderer"),
        vehicle("1", "Flash"),
        vehicle("3", "flash"),
        vehicle("1", "Flash"),
        object(vec![("vehicle_id", text("4"))]),
    ];
    let vehicles = vehicle_references_from_items(&items);
    let ids: Vec<i64> = vehicles.iter().map(|v| v.id).collect();
    assert_eq!(ids, vec![1, 3, 2]);
    assert_eq!(vehicles[0].display_name, "Flash");
}

#[test]
fn character_rows_become_lookup_results() {
    let row = object(vec![
        ("character_id", text("5428010618035589553")),
        ("name", object(vec![("first", text("Example")), ("first_lower", text("example"))])),
        ("faction_id", text("1")),
        ("characters_world", object(vec![("world_id", text("17"))])),
    ]);
    let found = character_reference_from_items(&vec![row], "example").unwrap().unwrap();
    assert_eq!(found.id, 5428010618035589553);
    assert_eq!(found.display_name, "Example");
    assert_eq!(found.world_id, Some(17));
    assert_eq!(found.faction_id, Some(1));

    assert!(character_reference_from_items(&vec![], "x").unwrap().is_none());
    match character_reference_from_items(&vec![object(vec![])], "x") {
        Err(CensusError::Api(message)) => assert_eq!(message, "missing character_id in response"),
        other => panic!("unexpected result {other:?}"),
    }
    assert!(matches!(
        character_reference_from_items(&vec![object(vec![("character_id", text("abc"))])], "x"),
        Err(CensusError::Api(_))
    ));

    let nameless = object(vec![("character_id", text("9")), ("faction_id", text("0"))]);
    let found = character_reference_from_items(&vec![nameless], "  Someone ").unwrap().unwrap();
    assert_eq!(found.display_name, "Someone");
    assert_eq!(found.faction_id, None);
}

#[test]
fn missing_characters_are_reported_by_name() {
    match resolved_character(None, "Nobody") {
        Err(CensusError::CharacterNotFound(name)) => assert_eq!(name, "Nobody"),
        other => panic!("unexpected result {other:?}"),
    }
}

#[test]
fn outfit_rows_become_lookup_results() {
    assert_eq!(normalize_outfit_tag("  [tag] "), Some("tag".to_string()));
    assert_eq!(normalize_outfit_tag(" [] "), None);

    let row = object(vec![("outfit_id", text("77")), ("name", text("Outfit Name"))]);
    let outfit = outfit_reference_from_items(&vec![row], "tag").unwrap().unwrap();
    assert_eq!(outfit.id, 77);
    assert_eq!(outfit.tag, "TAG");
    assert_eq!(outfit.display_name, "Outfit Name");

    let member = object(vec![("outfit_id", text("-5"))]);
    let outfit = character_outfit_from_items(&vec![member]).unwrap().unwrap();
    assert_eq!(outfit.tag, "");
    assert_eq!(outfit.display_name, "Outfit #-5");
}

#[test]
fn online_status_rows_list_online_characters() {
    let status = |id: &str, online: &str| object(vec![("character_id", text(id)), ("online_status", text(online))]);
    let items = vec![
        status("10", "17"),
        status("11", "0"),
        status("nope", "17"),
        object(vec![("character_id", text("12"))]),
        status("13", "1"),
    ];
    assert_eq!(online_character_ids(&items), vec![10, 13]);
}

#[test]
fn first_fields_trim_and_parse() {
    let row = object(vec![("a", text("  ")), ("b", text(" 42 ")), ("c", text("0")), ("d", text("7"))]);
    assert_eq!(first_string_field(&row, &["missing", "b"]), Some("42".to_string()));
    assert_eq!(first_string_field(&row, &["a", "b"]), None);
    assert_eq!(parse_non_zero_u32_field(&row, &["c"]), None);
    assert_eq!(parse_non_zero_u32_field(&row, &["d"]), Some(7));
    assert_eq!(parse_non_zero_u32_field(&row, &["b"]), None);
}

#[test]
fn world_and_faction_names() {
    assert_eq!(world_name(1), "Osprey");
    assert_eq!(world_name(10), "Wainwright");
    assert_eq!(world_name(17), "Emerald");
    assert_eq!(world_name(40), "Soltech");
    assert_eq!(world_name(99), "World #99");
    assert_eq!(faction_name(1), "VS");
    assert_eq!(faction_name(4), "NS");
    assert_eq!(faction_name(0), "Faction #0");
    assert_eq!(faction_name(9), "Faction #9");
}
