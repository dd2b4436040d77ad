use mudl::mudl::roles::MudlRoleProps;
use mudl::object::editor::{parse_value_literal, resolve_object_ref, set_field, unset_field, EditError};
use mudl::object::factory::ObjectFactory;
use mudl::object::fields::{classify_key, FieldKind};
use mudl::object::location::LocationRef;
use mudl::object::player_identity::{
    find_player_by_login_name, normalize_player_login_name, player_id_for_login_name,
    LOGIN_NAME_PROPERTY,
};
use mudl::object::roles::{
    parse_allowed_types, ContainerSpec, KeySpec, PortalKind, PortalSpec, ReadableSpec,
};
use mudl::object::weight::{
    owner_player_of_container, player_weight_bearer, weight_limit_applies, UNLIMITED_WEIGHT,
};
use mudl::object::{
    constrain_id_base, generate_object_id, id_base_from_display_name, slugify_display_name, Object,
    ObjectId, Value, ID_BASE_MAX_LEN,
};

fn bare_object(id: &str) -> Object {
    Object::new(ObjectId::new(id), "test".to_string(), ObjectId::new("player:admin-001"))
}

#[test]
fn container_defaults_to_open() {
    let mut obj = bare_object("item:bag-001");
    obj.apply_container_role(&ContainerSpec::default());
    assert!(obj.container_is_open());
}

#[test]
fn container_can_start_closed() {
    let mut obj = bare_object("item:chest-001");
    obj.apply_container_role(&ContainerSpec { open: false, ..ContainerSpec::default() });
    assert!(!obj.container_is_open());
    obj.set_container_open(true);
    assert!(obj.container_is_open());
}

#[test]
fn consumable_key_and_lock_flags() {
    let mut key = bare_object("item:charm-001");
    key.apply_key_role(&KeySpec::new("oak-whisper").consumable());
    assert!(key.key_consumable());

    let mut oak = bare_object("item:oak-001");
    oak.apply_portal_role(&PortalSpec {
        kind: PortalKind::Door,
        direction: "in".to_string(),
        destination: "haunted-entry".to_string(),
        open: false,
        lock_id: Some("oak-whisper".to_string()),
        locked: true,
        lock_consumable: true,
        passable: None,
        transparent: None,
    });
    assert!(oak.lock_consumable());
}

#[test]
fn container_lock_and_key_matching() {
    let mut chest = bare_object("item:chest-001");
    chest.apply_container_role(&ContainerSpec {
        lock_id: Some("chest-lock".to_string()),
        locked: true,
        open: false,
        ..ContainerSpec::default()
    });
    assert!(chest.container_is_locked());

    let mut key_a = bare_object("item:key-a-001");
    key_a.apply_key_role(&KeySpec::new("chest-lock"));
    let mut key_b = bare_object("item:key-b-001");
    key_b.apply_key_role(&KeySpec::new("chest-lock"));

    assert!(Object::key_unlocks_container(&key_a, &chest));
    assert!(Object::key_unlocks_container(&key_b, &chest));

    let mut wrong = bare_object("item:key-wrong-001");
    wrong.apply_key_role(&KeySpec::new("other-lock"));
    assert!(!Object::key_unlocks_container(&wrong, &chest));
}

#[test]
fn readable_role_sets_text_properties() {
    let mut obj = bare_object("item:note-001");
    obj.apply_readable_role(&ReadableSpec { text: "Mind the dark.".to_string(), writable: true });
    assert!(obj.is_readable());
    assert_eq!(obj.read_text().as_deref(), Some("Mind the dark."));
    assert!(obj.is_writable());
}

#[test]
fn container_allowed_types_restrict_items() {
    let mut ring = bare_object("item:ring-001");
    ring.name = "Brass Key Ring".to_string();
    ring.apply_container_role(&ContainerSpec {
        capacity: 4,
        allowed_types: Some(vec!["key".to_string()]),
        ..ContainerSpec::default()
    });
    assert_eq!(ring.container_allowed_types().as_deref(), Some(&["key".to_string()][..]));

    let mut key = bare_object("item:key-001");
    key.apply_key_role(&KeySpec::new("demo"));
    let blade = bare_object("item:blade-001");

    assert!(ring.container_accepts_item(&key));
    assert!(!ring.container_accepts_item(&blade));
    assert!(key.item_has_type("key"));
    assert!(!blade.item_has_type("key"));
}

#[test]
fn parse_allowed_types_splits_comma_list() {
    assert_eq!(parse_allowed_types("key, token"), vec!["key", "token"]);
}

#[test]
fn container_role_sets_expected_properties() {
    let mut obj = bare_object("item:bag-001");
    obj.apply_container_role(&ContainerSpec {
        capacity: 5,
        max_weight: Some(100),
        max_volume: Some(50),
        wearable: true,
        wear_slot: Some("torso".to_string()),
        ..ContainerSpec::default()
    });

    assert!(obj.has_container_role());
    assert!(obj.has_wearable_role());
    assert_eq!(obj.container_capacity(), 5);
    assert_eq!(obj.container_max_weight(), Some(100));
    assert_eq!(obj.wear_slot(), Some("torso".to_string()));
}

#[test]
fn role_summary_reflects_active_roles() {
    let mut obj = bare_object("item:pack-001");
    obj.apply_container_role(&ContainerSpec::default());
    let roles = obj.roles();
    assert!(roles.container);
    assert!(!roles.creature);
}

#[test]
fn slugify_display_name_lowercase_hyphens() {
    assert_eq!(slugify_display_name("Rusty Sword"), "rusty-sword");
    assert_eq!(slugify_display_name("Big_Red Boots!"), "big-red-boots");
}

#[test]
fn generate_object_id_is_always_lowercase() {
    let id = generate_object_id("Sword", "Rusty-Sword", 1);
    assert_eq!(id.as_str(), "sword:rusty-sword-001");
}

#[test]
fn constrain_id_base_truncates_long_names() {
    let long = slugify_display_name("extraordinarily-long-container-name");
    assert!(long.len() > ID_BASE_MAX_LEN);
    let base = constrain_id_base(&long);
    assert!(base.len() <= ID_BASE_MAX_LEN);
    assert_eq!(base, "extraordinarily");
}

#[test]
fn constrain_id_base_cuts_on_a_character_boundary() {
    let base = constrain_id_base("ééééééééé");
    assert_eq!(base, "éééééééé");
    assert_eq!(base.len(), 16);
    assert_eq!(constrain_id_base("abcdefghijklmnoé"), "abcdefghijklmno");
    assert_eq!(constrain_id_base("--abc--"), "abc");
}

#[test]
fn id_base_from_display_name_is_bounded() {
    let base = id_base_from_display_name("Purse");
    assert_eq!(base, "purse");
    assert!(base.len() <= ID_BASE_MAX_LEN);
}

#[test]
fn classify_verb_key() {
    assert_eq!(classify_key("verb.wave"), FieldKind::Verb("wave".to_string()));
}

#[test]
fn classify_status_is_readonly() {
    assert_eq!(classify_key("contents_weight"), FieldKind::Status);
}

#[test]
fn classify_config_property() {
    assert_eq!(classify_key("max_weight"), FieldKind::ConfigProperty("max_weight".to_string()));
}

#[test]
fn holder_id_for_container_includes_parent() {
    let bag = ObjectId::new("item:bag-001");
    let loc = LocationRef::Container(bag.clone(), Some("main".to_string()));
    assert_eq!(loc.holder_id(), Some(&bag));
}

#[test]
fn nowhere_has_no_holder() {
    assert_eq!(LocationRef::Nowhere.holder_id(), None);
}

fn player(id: &str, name: &str, login: Option<&str>) -> Object {
    let mut obj = Object::new(ObjectId::new(id), name.to_string(), ObjectId::new(id));
    if let Some(login) = login {
        obj.set_property_string(LOGIN_NAME_PROPERTY, login);
    }
    obj
}

#[test]
fn normalize_login_name_slugifies_verbatim_input() {
    assert_eq!(normalize_player_login_name("Brains").unwrap(), "brains");
    assert_eq!(normalize_player_login_name("Alice Wonder").unwrap(), "alice-wonder");
}

#[test]
fn player_id_has_no_counter_suffix() {
    assert_eq!(player_id_for_login_name("brains").as_str(), "player:brains");
}

#[test]
fn find_player_by_login_name_uses_property_or_id() {
    let objects = vec![player("player:brains", "Brains", Some("brains"))];
    assert!(find_player_by_login_name(&objects, "brains").is_some());
    assert!(find_player_by_login_name(&objects, "Brains").is_some());
}

#[test]
fn weight_limit_applies_excludes_unlimited() {
    assert!(!weight_limit_applies(Some(UNLIMITED_WEIGHT)));
    assert!(weight_limit_applies(Some(10)));
    assert!(!weight_limit_applies(None));
}

#[test]
fn owner_player_of_worn_container() {
    let player_id = ObjectId::new("player:hero-001");
    let mut player = bare_object("player:hero-001");
    player.id = player_id.clone();

    let mut backpack = bare_object("item:backpack-001");
    backpack.name = "backpack".to_string();
    backpack.location = Some(player_id.clone());
    backpack.apply_container_role(&ContainerSpec {
        capacity: 5,
        max_weight: None,
        max_volume: None,
        wearable: true,
        wear_slot: Some("torso".to_string()),
        ..ContainerSpec::default()
    });

    let backpack_id = backpack.id.clone();
    let objects = vec![player, backpack];

    assert_eq!(owner_player_of_container(&backpack_id, &objects), Some(player_id.clone()));
    assert_eq!(
        player_weight_bearer(&LocationRef::Container(backpack_id, None), &objects),
        Some(player_id)
    );
}

#[test]
fn property_reads_back_last_write() {
    let mut obj = bare_object("item:gem-001");
    obj.set_property_int("weight", 3);
    obj.set_property_int("value", 10);
    obj.set_property_int("weight", 5);
    assert_eq!(obj.get_int_property("weight"), Some(5));
    assert_eq!(obj.get_int_property("value"), Some(10));
}

#[test]
fn undelete_restores_active_object() {
    let mut obj = bare_object("item:gem-001");
    obj.soft_delete_at(Some(1700000000));
    assert!(obj.is_deleted);
    assert_eq!(obj.deleted_at.as_deref(), Some("1700000000"));
    assert!(!obj.is_active());
    obj.undelete();
    assert!(obj.is_active());
    assert!(obj.deleted_at.is_none());
}

#[test]
fn body_slot_reads_back_and_clears() {
    let mut hero = bare_object("player:hero-001");
    let sword = ObjectId::new("item:sword-001");
    hero.set_body_slot("right_hand", Some(sword.clone()));
    hero.set_body_slot("left_hand", Some(sword.clone()));
    hero.set_body_slot("head", Some(ObjectId::new("item:helm-001")));
    assert_eq!(hero.body_slot_item("right_hand"), Some(sword.clone()));
    hero.clear_item_from_body_slots(&sword);
    assert_eq!(hero.body_slot_item("right_hand"), None);
    assert_eq!(hero.body_slot_item("left_hand"), None);
    assert_eq!(hero.body_slot_item("head"), Some(ObjectId::new("item:helm-001")));
}

#[test]
fn list_add_is_idempotent_and_remove_removes() {
    let mut bag = bare_object("item:bag-001");
    let coin = ObjectId::new("item:coin-001");
    bag.add_to_list_property("contents", coin.clone());
    bag.add_to_list_property("contents", coin.clone());
    assert_eq!(bag.get_object_list_property("contents"), vec![coin.clone()]);
    bag.remove_from_list_property("contents", &coin);
    assert!(bag.get_object_list_property("contents").is_empty());
}

#[test]
fn key_opens_only_its_lock() {
    let mut key = bare_object("item:key-001");
    key.apply_key_role(&KeySpec::new("chest-lock"));
    let mut chest = bare_object("item:chest-001");
    chest.apply_container_role(&ContainerSpec::default());
    chest.set_container_lock_id("chest-lock");
    let mut door = bare_object("item:door-001");
    door.apply_container_role(&ContainerSpec::default());
    door.set_container_lock_id("door-lock");
    assert!(Object::key_unlocks_container(&key, &chest));
    assert!(!Object::key_unlocks_container(&key, &door));
}

#[test]
fn slugs_and_id_bases_are_lowercase_and_bounded() {
    let slug = slugify_display_name("  The GREAT Hall!! of Kings ");
    assert_eq!(slug, "the-great-hall-of-kings");
    assert_eq!(slugify_display_name("!!!"), "object");
    let base = id_base_from_display_name("The Great Hall of the Mountain King");
    assert!(base.len() <= ID_BASE_MAX_LEN);
    assert!(!base.starts_with('-') && !base.ends_with('-'));
    assert!(base.chars().all(|c| c == '-' || c.is_ascii_digit() || c.is_ascii_lowercase()));
    assert_eq!(base, "the-great-hall-o");
}

#[test]
fn unset_property_and_location() {
    let mut backpack = bare_object("item:backpack-001");
    backpack.set_property_int("weight", 10);
    backpack.location = Some(ObjectId::new("area:void-001"));

    unset_field(&mut backpack, "weight").unwrap();
    unset_field(&mut backpack, "location").unwrap();

    assert!(backpack.get_property("weight").is_none());
    assert!(backpack.location.is_none());
}

/// Resolves a token the way a builder session does: `none`, `you`/`me`, a
/// full id, or the display name of exactly one active object.
fn resolver<'a>(
    observer: &'a ObjectId,
    objects: &'a Vec<Object>,
) -> impl Fn(&str) -> Result<ObjectId, EditError> + 'a {
    move |token: &str| resolve_object_ref(token, observer, objects)
}

fn named(id: &str, name: &str) -> Object {
    Object::new(ObjectId::new(id), name.to_string(), ObjectId::new("player:admin-001"))
}

#[test]
fn set_config_property_weight() {
    let mut backpack = named("item:backpack-001", "backpack");
    let objects = vec![backpack.clone()];
    let observer = ObjectId::new("player:admin-001");

    set_field(&mut backpack, "weight", "10", &resolver(&observer, &objects), &finite_float).unwrap();
    assert_eq!(backpack.get_int_property("weight"), Some(10));
}

#[test]
fn set_state_location_by_name() {
    let mut backpack = named("item:backpack-001", "backpack");
    let admin = named("player:admin-001", "Admin");
    let objects = vec![backpack.clone(), admin];
    let observer = ObjectId::new("player:admin-001");

    set_field(&mut backpack, "location", "Admin", &resolver(&observer, &objects), &finite_float)
        .unwrap();
    assert_eq!(backpack.location.as_ref(), Some(&ObjectId::new("player:admin-001")));
}

#[test]
fn set_verb() {
    let mut sword = named("item:sword-001", "sword");
    let observer = ObjectId::new("player:admin-001");

    set_field(
        &mut sword,
        "verb.wave",
        "say('You wave.')",
        &resolver(&observer, &Vec::new()),
        &finite_float,
    )
    .unwrap();
    assert!(sword.verbs.iter().any(|v| v.name == "wave"));
}

#[test]
fn set_status_rejected() {
    let mut backpack = named("item:backpack-001", "backpack");
    let observer = ObjectId::new("player:admin-001");
    let err = set_field(
        &mut backpack,
        "contents_weight",
        "0",
        &resolver(&observer, &Vec::new()),
        &finite_float,
    )
    .unwrap_err();
    assert!(matches!(err, EditError::ReadOnly(_)));
}

#[test]
fn set_container_contents_list() {
    let mut purse = named("item:purse-001", "purse");
    purse.apply_container_role(&ContainerSpec::default());
    let coins = named("item:coins-001", "coins");
    let objects = vec![purse.clone(), coins.clone()];
    let observer = ObjectId::new("player:admin-001");

    set_field(&mut purse, "contents", "[coins]", &resolver(&observer, &objects), &finite_float)
        .unwrap();
    let contents = purse.get_object_list_property("contents");
    assert_eq!(contents, vec![coins.id]);
}

#[test]
fn set_validates_config_values_and_fields() {
    let mut chest = named("item:chest-001", "chest");
    let observer = ObjectId::new("player:admin-001");
    let none: Vec<Object> = Vec::new();
    let res = resolver(&observer, &none);
    assert_eq!(
        set_field(&mut chest, "capacity", "2.5", &res, &finite_float).unwrap_err(),
        EditError::InvalidValue("capacity requires an integer".to_string())
    );
    assert_eq!(
        set_field(&mut chest, "Is_Container", "maybe", &res, &finite_float).unwrap_err(),
        EditError::InvalidValue("is_container requires true or false".to_string())
    );
    assert_eq!(
        set_field(&mut chest, "volume", "lots", &res, &finite_float).unwrap_err(),
        EditError::InvalidValue("volume requires a number".to_string())
    );
    assert!(chest.get_property("capacity").is_none());
    set_field(&mut chest, "volume", "2.5", &res, &finite_float).unwrap();
    assert!(matches!(
        chest.get_property("volume").unwrap().value,
        Value::Float(b) if f64::from_bits(b) == 2.5
    ));
    assert_eq!(
        set_field(&mut chest, "id", "x", &res, &finite_float).unwrap_err(),
        EditError::ReadOnly("id cannot be changed".to_string())
    );
    assert_eq!(
        set_field(&mut chest, "name", "   ", &res, &finite_float).unwrap_err(),
        EditError::InvalidValue("name cannot be empty".to_string())
    );
    assert_eq!(
        set_field(&mut chest, "verb.open", " ", &res, &finite_float).unwrap_err(),
        EditError::InvalidValue("verb code cannot be empty".to_string())
    );
    assert_eq!(
        set_field(&mut chest, "owner", "nobody", &res, &finite_float).unwrap_err(),
        EditError::NotFound("nobody".to_string())
    );
    set_field(&mut chest, "name", "  Iron Chest ", &res, &finite_float).unwrap();
    assert_eq!(chest.name, "Iron Chest");
    set_field(&mut chest, "alias", " box ", &res, &finite_float).unwrap();
    set_field(&mut chest, "alias", "box", &res, &finite_float).unwrap();
    assert_eq!(chest.aliases, vec!["box".to_string()]);
    set_field(&mut chest, "owner", "me", &res, &finite_float).unwrap();
    assert_eq!(chest.owner, observer);
}

#[test]
fn set_property_resolves_object_names_in_values() {
    let mut sign = named("item:sign-001", "sign");
    let lamp = named("item:lamp-001", "lamp");
    let objects = vec![lamp.clone()];
    let observer = ObjectId::new("player:admin-001");
    let res = resolver(&observer, &objects);
    set_field(&mut sign, "note", "{target: lamp, text: 'unlit'}", &res, &finite_float).unwrap();
    match &sign.get_property("note").unwrap().value {
        Value::Mapping(entries) => {
            assert_eq!(entries.len(), 2);
            let target = entries.iter().find(|(k, _)| k == "target").unwrap();
            assert!(matches!(&target.1, Value::ObjectRef(id) if *id == lamp.id));
            let text = entries.iter().find(|(k, _)| k == "text").unwrap();
            assert!(matches!(&text.1, Value::String(s) if s == "unlit"));
        },
        other => panic!("unexpected {other:?}"),
    }
}

/// `str::parse::<f64>` for finite values, as bits.
fn finite_float(s: &str) -> Option<u64> {
    s.parse::<f64>().ok().filter(|f| f.is_finite()).map(f64::to_bits)
}

#[test]
fn parse_value_literals() {
    assert!(matches!(parse_value_literal("10", &finite_float).unwrap(), Value::Int(10)));
    assert!(matches!(
        parse_value_literal("0.1", &finite_float).unwrap(),
        Value::Float(f) if (f64::from_bits(f) - 0.1).abs() < f64::EPSILON
    ));
    assert!(matches!(
        parse_value_literal("true", &finite_float).unwrap(),
        Value::Bool(true)
    ));
    assert!(matches!(
        parse_value_literal(r#""hello""#, &finite_float).unwrap(),
        Value::String(s) if s == "hello"
    ));
    assert!(matches!(parse_value_literal("[]", &finite_float).unwrap(), Value::List(v) if v.is_empty()));
}

#[test]
fn literal_scalars_follow_rust_parsing() {
    assert!(matches!(parse_value_literal("  FaLsE ", &finite_float).unwrap(), Value::Bool(false)));
    assert!(matches!(parse_value_literal("+7", &finite_float).unwrap(), Value::Int(7)));
    assert!(matches!(
        parse_value_literal("-9223372036854775808", &finite_float).unwrap(),
        Value::Int(i64::MIN)
    ));
    assert!(matches!(
        parse_value_literal("9223372036854775808", &finite_float).unwrap(),
        Value::Float(f) if f64::from_bits(f) == 9223372036854775808.0
    ));
    assert!(matches!(
        parse_value_literal("1e400", &finite_float).unwrap(),
        Value::String(s) if s == "1e400"
    ));
    assert!(matches!(
        parse_value_literal("'single'", &finite_float).unwrap(),
        Value::String(s) if s == "single"
    ));
    assert!(matches!(
        parse_value_literal("  plain words ", &finite_float).unwrap(),
        Value::String(s) if s == "plain words"
    ));
}

#[test]
fn literal_lists_nest_and_keep_quoted_commas() {
    let v = parse_value_literal("[1, 'a, b', [true, []], ]", &finite_float).unwrap();
    let Value::List(items) = v else { panic!("not a list") };
    assert_eq!(items.len(), 3);
    assert!(matches!(items[0], Value::Int(1)));
    assert!(matches!(&items[1], Value::String(s) if s == "a, b"));
    match &items[2] {
        Value::List(inner) => {
            assert_eq!(inner.len(), 2);
            assert!(matches!(inner[0], Value::Bool(true)));
            assert!(matches!(&inner[1], Value::List(e) if e.is_empty()));
        },
        other => panic!("unexpected {other:?}"),
    }
    let Value::List(blanks) = parse_value_literal("[1,,2]", &finite_float).unwrap() else {
        panic!("not a list")
    };
    assert_eq!(blanks.len(), 3);
    assert!(matches!(&blanks[1], Value::String(s) if s.is_empty()));
}

#[test]
fn literal_mappings_normalise_keys_and_keep_the_last_value() {
    let v = parse_value_literal("{ Weight: 3, weight : 4, Name: \"x\" }", &finite_float).unwrap();
    let Value::Mapping(entries) = v else { panic!("not a mapping") };
    assert_eq!(entries.len(), 2);
    let weight = entries.iter().find(|(k, _)| k == "weight").unwrap();
    assert!(matches!(weight.1, Value::Int(4)));
    let name = entries.iter().find(|(k, _)| k == "name").unwrap();
    assert!(matches!(&name.1, Value::String(s) if s == "x"));
    assert!(matches!(parse_value_literal("{}", &finite_float).unwrap(), Value::Mapping(e) if e.is_empty()));
}

#[test]
fn literal_mapping_entry_without_colon_is_refused() {
    assert_eq!(
        parse_value_literal("{a: 1, b 2}", &finite_float).unwrap_err(),
        EditError::InvalidValue("invalid map entry: b 2".to_string())
    );
    assert_eq!(
        parse_value_literal("[1, {x}]", &finite_float).unwrap_err(),
        EditError::InvalidValue("invalid map entry: x".to_string())
    );
}

#[test]
fn unset_refusals_name_the_field() {
    let mut obj = bare_object("item:backpack-001");
    assert_eq!(
        unset_field(&mut obj, "id").unwrap_err(),
        EditError::ReadOnly("id cannot be unset".to_string())
    );
    assert_eq!(
        unset_field(&mut obj, "Name").unwrap_err(),
        EditError::ReadOnly("name cannot be unset".to_string())
    );
    assert_eq!(
        unset_field(&mut obj, "contents_weight").unwrap_err(),
        EditError::ReadOnly("status fields are calculated and cannot be unset".to_string())
    );
    assert_eq!(
        unset_field(&mut obj, "verb.wave").unwrap_err(),
        EditError::NotFound("verb.wave".to_string())
    );
    let err = unset_field(&mut obj, "weight").unwrap_err();
    assert_eq!(err, EditError::NotFound("weight".to_string()));
    assert_eq!(err.message(), "weight");
}

#[test]
fn prototype_defaults_copy_role_properties() {
    let mut proto = bare_object("item:coin-001");
    proto.set_property_int("weight", 2);
    proto.set_property_string("description", "A coin.");
    proto.set_property_string("secret", "not copied");
    let mut coin = bare_object("item:coin-002");
    coin.set_property_int("weight", 9);
    let factory = ObjectFactory::new(());
    factory.apply_prototype_defaults(&mut coin, &proto);
    assert_eq!(coin.prototype, Some(ObjectId::new("item:coin-001")));
    assert_eq!(coin.get_int_property("weight"), Some(2));
    assert_eq!(coin.get_string_property("description").as_deref(), Some("A coin."));
    assert!(coin.get_string_property("secret").is_none());
}

#[test]
fn inherited_property_follows_prototypes() {
    let mut base = bare_object("item:sword-001");
    base.set_property_int("weight", 4);
    base.set_property_string("description", "A plain blade.");
    let mut mid = bare_object("item:sword-002");
    mid.prototype = Some(ObjectId::new("item:sword-001"));
    mid.set_property_string("description", "A notched blade.");
    let mut leaf = bare_object("item:sword-003");
    leaf.prototype = Some(ObjectId::new("item:sword-002"));
    let world = vec![base, mid, leaf.clone()];
    let weight = leaf.resolve_inherited_property("weight", &world).unwrap();
    assert!(matches!(weight.value, Value::Int(4)));
    let desc = leaf.resolve_inherited_property("description", &world).unwrap();
    assert!(matches!(desc.value, Value::String(ref s) if s == "A notched blade."));
    assert!(leaf.resolve_inherited_property("colour", &world).is_none());
}

fn stored_number(bits: u64) -> Value {
    let f = f64::from_bits(bits);
    if f.fract() == 0.0 {
        Value::Int(f as i64)
    } else {
        Value::Float(bits)
    }
}

fn load_changes(bits: u64) -> bool {
    let f = f64::from_bits(bits);
    f.is_finite() && (f - 1.0).abs() > 1e-9
}

#[test]
fn item_phys_with_stores_numbers_and_role_flags() {
    let mut rock = bare_object("item:rock-001");
    rock.apply_item_phys_with(3.0f64.to_bits(), 0.5f64.to_bits(), false, &stored_number);
    assert_eq!(rock.get_int_property("weight"), Some(3));
    assert!(matches!(rock.get_property("volume").unwrap().value, Value::Float(b) if f64::from_bits(b) == 0.5));
    assert_eq!(rock.get_bool_property("is_pocketable"), Some(false));
    assert_eq!(rock.get_bool_property("is_container"), Some(false));
    assert_eq!(rock.get_bool_property("is_wearable"), Some(false));
}

#[test]
fn carry_modifiers_with_skip_neutral_values() {
    let mut boots = bare_object("item:boots-001");
    boots.apply_carry_modifiers_with(Some(0), Some(1.0f64.to_bits()), &stored_number, &load_changes);
    assert!(boots.get_property("mod_max_weight").is_none());
    assert!(boots.get_property("mod_encumbrance").is_none());
    boots.apply_carry_modifiers_with(Some(15), Some(0.85f64.to_bits()), &stored_number, &load_changes);
    assert_eq!(boots.get_int_property("mod_max_weight"), Some(15));
    assert!(matches!(
        boots.get_property("mod_encumbrance").unwrap().value,
        Value::Float(b) if f64::from_bits(b) == 0.85
    ));
}

#[test]
fn wearable_with_writes_slot_weight_and_modifiers() {
    let mut cloak = bare_object("item:cloak-001");
    cloak.apply_wearable_with(
        "back",
        2.0f64.to_bits(),
        1.0f64.to_bits(),
        Some(5),
        None,
        Some(10),
        vec![("agility".to_string(), 1)],
        Vec::new(),
        vec!["warm".to_string()],
        &stored_number,
        &load_changes,
    );
    assert_eq!(cloak.get_bool_property("is_wearable"), Some(true));
    assert_eq!(cloak.get_string_property("wear_slot").as_deref(), Some("back"));
    assert_eq!(cloak.get_int_property("weight"), Some(2));
    assert_eq!(cloak.get_int_property("mod_max_weight"), Some(5));
    assert_eq!(cloak.get_int_property("mod_max_health"), Some(10));
    assert_eq!(cloak.get_string_list("grant_effects"), vec!["warm".to_string()]);
}

#[test]
fn role_props_apply_to_composes_container_key_and_readable() {
    let props = MudlRoleProps::from_pairs(
        &[
            ("is_container", "true"),
            ("is_open", "false"),
            ("capacity", "8"),
            ("max_weight", "40"),
            ("allowed_types", "Key, "),
            ("readable", "true"),
            ("read_text", "Mind the dark."),
            ("hand_slot", "left_hand"),
        ],
        &|s: &str| s.parse::<f64>().ok().filter(|f| f.is_finite()).map(f64::to_bits),
    );
    let mut chest = bare_object("item:chest-001");
    props.apply_to(&mut chest, &stored_number, &load_changes);
    assert!(chest.is_container());
    assert!(!chest.container_is_open());
    assert_eq!(chest.container_capacity(), 8);
    assert_eq!(chest.container_max_weight(), Some(40));
    assert_eq!(chest.container_allowed_types(), Some(vec!["key".to_string()]));
    assert!(chest.is_readable());
    assert_eq!(chest.get_string_property("hand_slot").as_deref(), Some("left_hand"));
}

#[test]
fn role_props_apply_to_makes_portals_and_wearables() {
    let reader = |s: &str| s.parse::<f64>().ok().filter(|f| f.is_finite()).map(f64::to_bits);
    let door = MudlRoleProps::from_pairs(&[("portal", "window"), ("direction", "north"), ("weight", "7")], &reader);
    let mut pane = bare_object("item:pane-001");
    door.apply_to(&mut pane, &stored_number, &load_changes);
    assert!(pane.is_window());
    assert_eq!(pane.portal_direction().as_deref(), Some("north"));
    assert_eq!(pane.get_int_property("weight"), Some(7));
    assert_eq!(pane.get_int_property("volume"), Some(1));

    let boots = MudlRoleProps::from_pairs(
        &[("is_wearable", "true"), ("wear_slot", "feet"), ("carry_bonus", "15"), ("is_key", "true")],
        &reader,
    );
    let mut item = bare_object("item:boots-001");
    boots.apply_to(&mut item, &stored_number, &load_changes);
    assert!(item.is_wearable());
    assert_eq!(item.get_string_property("wear_slot").as_deref(), Some("feet"));
    assert_eq!(item.get_int_property("weight"), Some(1));
    assert_eq!(item.get_int_property("mod_max_weight"), Some(15));
    assert!(!item.is_key());

    let over = MudlRoleProps::from_pairs(&[("weight", "2.5"), ("pocketable", "false")], &reader);
    over.apply_scalar_overrides(&mut item, &stored_number, &load_changes);
    assert!(matches!(item.get_property("weight").unwrap().value, Value::Float(b) if f64::from_bits(b) == 2.5));
    assert_eq!(item.get_bool_property("is_pocketable"), Some(false));
}

#[test]
fn resolve_object_ref_by_id_short_id_name_and_pronoun() {
    let observer = ObjectId::new("player:admin-001");
    let mut gone = named("item:lamp-002", "Lamp");
    gone.soft_delete_at(Some(5));
    let objects = vec![
        named("player:admin-001", "Admin"),
        named("item:lamp-001", "Lamp"),
        gone,
        named("item:rope-001", "Rope"),
        named("item:rope-002", "rope"),
    ];
    assert_eq!(resolve_object_ref(" Me ", &observer, &objects).unwrap().as_str(), "player:admin-001");
    assert_eq!(resolve_object_ref("item:lamp-001", &observer, &objects).unwrap().as_str(), "item:lamp-001");
    assert_eq!(resolve_object_ref("lamp-001", &observer, &objects).unwrap().as_str(), "item:lamp-001");
    assert_eq!(resolve_object_ref("LAMP", &observer, &objects).unwrap().as_str(), "item:lamp-001");
    assert_eq!(resolve_object_ref("None", &observer, &objects).unwrap_err(), EditError::NotFound("none".to_string()));
    assert_eq!(
        resolve_object_ref("item:gone-009", &observer, &objects).unwrap_err(),
        EditError::NotFound("item:gone-009".to_string())
    );
    assert_eq!(
        resolve_object_ref("rope", &observer, &objects).unwrap_err(),
        EditError::Validation("ambiguous object reference: rope".to_string())
    );
    assert_eq!(resolve_object_ref("anvil", &observer, &objects).unwrap_err(), EditError::NotFound("anvil".to_string()));
}
