use mudl::loot::spawner::{
    apply_loot_spawner_def, count_active_loot, loot_spawner_entries, loot_spawner_max_active, loot_spawner_trigger,
};
use mudl::mudl::loot_spawner_def::{parse_loot_spawner_file, LootSpawnerTrigger};
use mudl::mudl::resource_spawner_def::parse_resource_spawner_file;
use mudl::object::{Object, ObjectId, Value};
use mudl::resource::spawner::{apply_resource_spawner_def, count_active_resources, resource_spawner_entries};

fn obj(id: &str) -> Object {
    Object::new(ObjectId::new(id), id.to_string(), ObjectId::new("player:admin-001"))
}

fn loot(id: &str, spawner: &str) -> Object {
    let mut o = obj(id);
    o.set_property_object_ref("looted_by", ObjectId::new(spawner));
    o
}

#[test]
fn count_active_loot_in_a_container_a_room_and_beside_a_door() {
    let spawner = ObjectId::new("loot_spawner:chest-bonus-001");
    let mut chest = obj("item:chest-001");
    chest.set_property_bool("is_container", true);
    chest.set_property_list("contents", vec![ObjectId::new("item:rations-001"), ObjectId::new("item:rations-002")]);
    chest.location = Some(ObjectId::new("room:hall-001"));
    let inside = loot("item:rations-001", "loot_spawner:chest-bonus-001");
    let mut gone = loot("item:rations-002", "loot_spawner:chest-bonus-001");
    gone.soft_delete_at(Some(1));
    let mut on_floor = loot("item:rations-003", "loot_spawner:chest-bonus-001");
    on_floor.location = Some(ObjectId::new("room:hall-001"));
    let other = loot("item:rations-004", "loot_spawner:other-001");
    let hall = obj("room:hall-001");
    let objects = vec![chest, inside, gone, on_floor, other, hall];

    assert_eq!(count_active_loot(&spawner, &ObjectId::new("item:chest-001"), &objects), 1);
    assert_eq!(count_active_loot(&spawner, &ObjectId::new("room:hall-001"), &objects), 1);
    assert_eq!(count_active_loot(&spawner, &ObjectId::new("room:nowhere-001"), &objects), 0);

    let mut door = obj("door:gate-001");
    door.location = Some(ObjectId::new("room:hall-001"));
    let mut objects = objects;
    objects.push(door);
    assert_eq!(count_active_loot(&spawner, &ObjectId::new("door:gate-001"), &objects), 1);
}

#[test]
fn apply_loot_spawner_def_writes_settings_and_entries() {
    let content = "@loot-template bonus-rations\n  prototype=trail-rations\n@end\n@loot-spawner chest-bonus\n  target=chest\n  trigger=on_open\n  max_active=2\n  @entry bonus-rations weight=0\n@end\n";
    let (templates, spawners) = parse_loot_spawner_file(content);
    let def = &spawners[0];
    let mut spawner = obj("loot_spawner:chest-bonus-001");
    let half = 0.5f64.to_bits();
    apply_loot_spawner_def(&mut spawner, def, &templates, half, &|b: u64| Value::Float(b)).unwrap();
    assert_eq!(loot_spawner_trigger(&spawner), LootSpawnerTrigger::OnOpen);
    assert_eq!(loot_spawner_max_active(&spawner), 2);
    assert!(matches!(spawner.get_property("loot_spawner_chance").unwrap().value, Value::Float(b) if b == half));
    let entries = loot_spawner_entries(&spawner);
    assert_eq!(entries.len(), 1);
    assert_eq!(entries[0].template, "bonus-rations");
    assert_eq!(entries[0].weight, 1);

    let mut other = obj("loot_spawner:chest-bonus-002");
    let err = apply_loot_spawner_def(&mut other, def, &Vec::new(), half, &|b: u64| Value::Float(b)).unwrap_err();
    assert_eq!(err, "Loot spawner 'chest-bonus' references unknown loot-template 'bonus-rations'");
    assert!(other.get_property("loot_spawner_entries").is_none());
    assert!(other.get_property("is_loot_spawner").is_some());
}

#[test]
fn count_active_resources_in_the_target_room() {
    let spawner = ObjectId::new("resource_spawner:moss-001");
    let mut patch = obj("item:moss-patch-001");
    patch.location = Some(ObjectId::new("room:grove-001"));
    let mut moss = obj("item:moss-001");
    moss.set_property_object_ref("resource_spawned_by", ObjectId::new("resource_spawner:moss-001"));
    moss.location = Some(ObjectId::new("room:grove-001"));
    let mut elsewhere = obj("item:moss-002");
    elsewhere.set_property_object_ref("resource_spawned_by", ObjectId::new("resource_spawner:moss-001"));
    elsewhere.location = Some(ObjectId::new("room:cave-001"));
    let objects = vec![patch, moss, elsewhere, obj("room:grove-001")];
    assert_eq!(count_active_resources(&spawner, &ObjectId::new("item:moss-patch-001"), &objects), 1);
    assert_eq!(count_active_resources(&spawner, &ObjectId::new("room:grove-001"), &objects), 1);
    assert_eq!(count_active_resources(&spawner, &ObjectId::new("room:cave-001"), &objects), 0);
}

#[test]
fn apply_resource_spawner_def_writes_settings_and_entries() {
    let content = "@resource-template moon-moss\n  prototype=trail-rations\n@end\n@resource-spawner moss-harvest\n  target=moss-patch\n  trigger=on_harvest\n  @entry moon-moss weight=4\n@end\n";
    let (templates, spawners) = parse_resource_spawner_file(content);
    let mut spawner = obj("resource_spawner:moss-harvest-001");
    apply_resource_spawner_def(&mut spawner, &spawners[0], &templates, 1.0f64.to_bits(), &|b: u64| Value::Float(b)).unwrap();
    let entries = resource_spawner_entries(&spawner);
    assert_eq!(entries.len(), 1);
    assert_eq!(entries[0].template, "moon-moss");
    assert_eq!(entries[0].weight, 4);
    let err = apply_resource_spawner_def(&mut obj("resource_spawner:x-001"), &spawners[0], &Vec::new(), 0, &|b: u64| Value::Float(b))
        .unwrap_err();
    assert_eq!(err, "Resource spawner 'moss-harvest' references unknown resource-template 'moon-moss'");
}
