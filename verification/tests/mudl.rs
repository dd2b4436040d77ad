use mudl::mudl::anatomy::{parse_anatomy_file, SlotType};
use mudl::mudl::behavior_def::{parse_behavior_file, CreatureReact};
use mudl::mudl::loot_spawner_def::{parse_loot_spawner_file, LootSpawnerTrigger};
use mudl::mudl::resource_spawner_def::{parse_resource_spawner_file, ResourceSpawnerTrigger};
use mudl::mudl::spawner_def::{parse_spawner_file, SpawnerTrigger};
use mudl::mudl::behavior_line::parse_behavior_line;
use mudl::mudl::item_def::parse_item_file;
use mudl::mudl::roles::MudlRoleProps;
use mudl::mudl::loader::resolve_url_relative;
use mudl::mudl::npc_def::parse_npc_file;
use mudl::mudl::schedule_def::parse_schedule_file;
use mudl::mudl::trigger_def::parse_trigger_line;
use mudl::mudl::world_def::{parse_world_file, WorldDef};

fn exit<'a>(pairs: &'a [(String, String)], name: &str) -> Option<&'a str> {
    pairs.iter().find(|(k, _)| k == name).map(|(_, v)| v.as_str())
}

#[test]
fn parse_behavior_templates() {
    let content = r#"
@behavior-template passive
  react=ignore
@end
@behavior-template aggressive
  react=attack
  on_enter=say You should not have come here.
  attack_damage=12
@end
@behavior-template guard
  react=warn
  on_enter=say Halt! Who goes there?
@end
@behavior-template skittish
  react=flee
  on_enter=emote scrambles away from you.
@end
"#;
    let templates = parse_behavior_file(content);
    assert_eq!(templates.len(), 4);
    let aggressive = templates.iter().find(|t| t.base_name == "aggressive").unwrap();
    assert_eq!(aggressive.react, CreatureReact::Attack);
    assert_eq!(aggressive.attack_damage, 12);
    assert_eq!(aggressive.on_enter_text.as_deref(), Some("You should not have come here."));
}

#[test]
fn parse_scripted_behavior() {
    let behavior =
        parse_behavior_line("on_enter emote drifts through the air.").expect("scripted behavior");
    assert_eq!(behavior.event, "on_enter");
    assert_eq!(behavior.action, "emote");
    assert_eq!(behavior.text, "drifts through the air.");
    assert!(behavior.react.is_none());
}

#[test]
fn parse_explicit_react() {
    let behavior = parse_behavior_line("on_discovered react flee").expect("react behavior");
    assert_eq!(behavior.event, "on_discovered");
    assert_eq!(behavior.react, Some(CreatureReact::Flee));
}

#[test]
fn parse_react_shorthand() {
    let behavior = parse_behavior_line("on_enter attack").expect("react shorthand");
    assert_eq!(behavior.event, "on_enter");
    assert_eq!(behavior.react, Some(CreatureReact::Attack));
}

#[test]
fn reject_empty_text_for_non_react() {
    assert!(parse_behavior_line("on_enter emote").is_none());
}

#[test]
fn resolve_url_relative_paths() {
    let base = "https://example.com/mudl/worlds/default/expansions/pack.mudl";
    assert_eq!(
        resolve_url_relative(base, "sibling.mudl").as_deref(),
        Some("https://example.com/mudl/worlds/default/expansions/sibling.mudl")
    );
    assert_eq!(
        resolve_url_relative(base, "../shared/items.mudl").as_deref(),
        Some("https://example.com/mudl/worlds/default/shared/items.mudl")
    );
}

// The module's default world files are not part of this crate; the NPC and map
// sources below are written out in the same MUDL forms.
const NPCS: &str = "; NPCs of the default world
@npc path-watcher
  name=Path Watcher
  creature=human
  location=forest-path
  @behavior on_enter emote watches you from under a hood.
@end
";

#[test]
fn parse_npc_with_behaviors() {
    let npcs = parse_npc_file(NPCS);
    assert_eq!(npcs.len(), 1);
    assert_eq!(npcs[0].base_name, "path-watcher");
    assert_eq!(npcs[0].location, "forest-path");
    assert_eq!(npcs[0].behaviors.len(), 1);
    assert_eq!(npcs[0].behaviors[0].event, "on_enter");
}

#[test]
fn parse_schedule_block() {
    let content = r#"
@schedule mist-weather
  target=haunted-mist
  interval=2
  event=on_weather
@end
"#;
    let schedules = parse_schedule_file(content);
    assert_eq!(schedules.len(), 1);
    assert_eq!(schedules[0].target, "haunted-mist");
    assert_eq!(schedules[0].interval, 2);
    assert_eq!(schedules[0].event, "on_weather");
}

#[test]
fn parse_trigger_narrate_and_emote() {
    let t = parse_trigger_line("on_enter narrate Silver mist clings to the branches.").unwrap();
    assert_eq!(t.event, "on_enter");
    assert_eq!(t.code, "narrate Silver mist clings to the branches.");

    let e = parse_trigger_line("on_break emote shatters into pale dust.").unwrap();
    assert_eq!(e.event, "on_break");
    assert_eq!(e.code, "emote shatters into pale dust.");
}

const WORLD: &str = "@world default_world
  starting_location=the-void
@end
";

const MAP: &str = "base_name: the-void
type: room
name: The Void
exits:
north: forest-path
east: cottage-rear
exit_aliases:
n: north

base_name: forest-path
name: Forest Path
exits:
south: the-void

base_name: cottage-front
name: Cottage Front
exits:
in: cottage-interior

base_name: cottage-interior
name: Cottage Interior
exits:
west: cottage-bedroom
east: cottage-pantry
out: cottage-front

base_name: cottage-bedroom
type: room
location: cottage-interior
exits:
east: cottage-interior

base_name: cottage-pantry
exits:
west: cottage-interior

base_name: cottage-rear
exits:
around: cottage-front
exit_aliases:
path: around
exit_returns:
around: rear
";

fn find<'a>(defs: &'a [WorldDef], base: &str) -> &'a WorldDef {
    defs.iter().find(|d| d.base_name == base).unwrap()
}

#[test]
fn parse_world_block_ignored_by_world_def_parser() {
    let (defs, start) = parse_world_file(WORLD);
    assert!(defs.is_empty());
    assert!(start.is_none());
}

#[test]
fn parse_default_map_locations_and_exits() {
    let (defs, _) = parse_world_file(MAP);
    let bases: Vec<_> = defs.iter().map(|d| d.base_name.as_str()).collect();
    assert_eq!(bases.len(), 7);
    assert!(bases.contains(&"the-void"));
    assert!(bases.contains(&"forest-path"));
    assert!(bases.contains(&"cottage-interior"));
    assert!(bases.contains(&"cottage-bedroom"));
    assert!(bases.contains(&"cottage-pantry"));

    let clearing = find(&defs, "the-void");
    assert_eq!(exit(&clearing.exits, "north"), Some("forest-path"));
    assert_eq!(exit(&clearing.exits, "east"), Some("cottage-rear"));

    let front = find(&defs, "cottage-front");
    assert_eq!(exit(&front.exits, "in"), Some("cottage-interior"));

    let bedroom = find(&defs, "cottage-bedroom");
    assert_eq!(bedroom.obj_type, "room");
    assert_eq!(bedroom.location.as_deref(), Some("cottage-interior"));
    assert_eq!(exit(&bedroom.exits, "east"), Some("cottage-interior"));

    let interior = find(&defs, "cottage-interior");
    assert_eq!(exit(&interior.exits, "west"), Some("cottage-bedroom"));
    assert_eq!(exit(&interior.exits, "east"), Some("cottage-pantry"));

    let rear = find(&defs, "cottage-rear");
    assert_eq!(exit(&rear.exit_aliases, "path"), Some("around"));
    assert_eq!(exit(&rear.exit_returns, "around"), Some("rear"));

    let clearing = find(&defs, "the-void");
    assert_eq!(exit(&clearing.exit_aliases, "n"), Some("north"));
}

fn haunted() -> String {
    let mut s = String::from("@expansion haunted_forest\n\n");
    for i in 0..10 {
        s.push_str(&format!("base_name: haunted-path-{i}\nexits:\nout: haunted-entry\n\n"));
    }
    s.push_str(
        "base_name: haunted-heart
scatter_to: the-void, forest-path, cottage-rear
scatter_direction: out

base_name: haunted-wither
exits:
out: haunted-entry
loop_to: haunted-entry

base_name: haunted-moon
@trigger on_enter narrate Silver mist clings to the branches.
exits:
out: haunted-entry
",
    );
    s
}

#[test]
fn parse_haunted_map_scatter_and_dead_ends() {
    let (defs, _) = parse_world_file(&haunted());
    assert_eq!(defs.len(), 13);

    let heart = find(&defs, "haunted-heart");
    assert_eq!(
        heart.scatter_to,
        vec!["the-void".to_string(), "forest-path".to_string(), "cottage-rear".to_string()]
    );
    assert_eq!(heart.scatter_direction.as_deref(), Some("out"));

    let wither = find(&defs, "haunted-wither");
    assert_eq!(exit(&wither.exits, "out"), Some("haunted-entry"));
    assert_eq!(wither.loop_to.as_deref(), Some("haunted-entry"));
}

#[test]
fn parse_haunted_moon_on_enter_trigger() {
    let (defs, _) = parse_world_file(&haunted());
    let moon = find(&defs, "haunted-moon");
    assert_eq!(moon.triggers.len(), 1);
    assert_eq!(moon.triggers[0].event, "on_enter");
    assert_eq!(moon.triggers[0].code, "narrate Silver mist clings to the branches.");
}

#[test]
fn parse_spawn_templates_and_spawner() {
    let content = r#"
@spawn-template mist-wisp
  name=Mist Wisp
  creature=human
  @trigger on_enter emote drifts through the air.
@end
@spawner moon-phantoms
  location=haunted-moon
  trigger=on_enter
  chance=0.5
  max_active=2
  @entry mist-wisp weight=3
  @entry lurker weight=1
@end
"#;
    let (templates, spawners) = parse_spawner_file(content);
    assert_eq!(templates.len(), 1);
    assert_eq!(templates[0].base_name, "mist-wisp");
    assert_eq!(templates[0].triggers.len(), 1);
    assert_eq!(templates[0].triggers[0].event, "on_enter");
    assert_eq!(spawners.len(), 1);
    assert_eq!(spawners[0].location, "haunted-moon");
    assert_eq!(spawners[0].entries.len(), 2);
    assert_eq!(spawners[0].entries[0].weight, 3);
}

#[test]
fn parse_loot_templates_and_spawner() {
    let content = r#"
@loot-template bonus-rations
  prototype=trail-rations
  count=2
@end
@loot-spawner chest-bonus
  target=scene-chest
  trigger=on_open
  once=true
  chance=1.0
  max_active=1
  @entry bonus-rations weight=3
@end
"#;
    let (templates, spawners) = parse_loot_spawner_file(content);
    assert_eq!(templates.len(), 1);
    assert_eq!(templates[0].prototype, "trail-rations");
    assert_eq!(templates[0].count, 2);
    assert_eq!(spawners.len(), 1);
    assert_eq!(spawners[0].target, "scene-chest");
    assert_eq!(spawners[0].trigger, LootSpawnerTrigger::OnOpen);
    assert!(spawners[0].once);
    assert_eq!(spawners[0].entries[0].weight, 3);
}

#[test]
fn parse_resource_templates_and_spawner() {
    let content = r#"
@resource-template moon-moss
  prototype=trail-rations
  count=2
@end
@resource-spawner moss-harvest
  target=moss-patch
  trigger=on_harvest
  chance=1.0
  max_active=1
  @entry moon-moss weight=1
@end
"#;
    let (templates, spawners) = parse_resource_spawner_file(content);
    assert_eq!(templates.len(), 1);
    assert_eq!(templates[0].prototype, "trail-rations");
    assert_eq!(spawners.len(), 1);
    assert_eq!(spawners[0].trigger, ResourceSpawnerTrigger::OnHarvest);
    assert_eq!(spawners[0].target, "moss-patch");
}

fn int_entry(table: &[(String, i64)], name: &str) -> Option<i64> {
    table.iter().find(|(k, _)| k == name).map(|(_, v)| *v)
}

#[test]
fn parse_effect_and_slot_effect() {
    let content = r#"
@creature cat
  max_health=80
  @slot tail capacity=1 type=limb effect=sprained
  @stat agility 14
  @skill stalking 2
@end
@effect sprained
  mod_encumbrance=1.15
  mod_stat_dexterity=-3
@end
"#;
    let registry = parse_anatomy_file(content).unwrap();
    let cat = registry.creature("cat").unwrap();
    assert_eq!(cat.max_health, 80);
    assert_eq!(int_entry(&cat.stats, "agility"), Some(14));
    assert_eq!(int_entry(&cat.skills, "stalking"), Some(2));
    assert_eq!(cat.slots[0].effect.as_deref(), Some("sprained"));
    let effect = registry.effect("sprained").unwrap();
    let factor: f64 = effect.mod_encumbrance.as_deref().unwrap().parse().unwrap();
    assert!((factor - 1.15).abs() < f64::EPSILON);
    assert_eq!(int_entry(&effect.stat_mods, "dexterity"), Some(-3));
}

#[test]
fn parse_condition_effect() {
    let content = r#"
@condition swamp_venom
  condition=poison
  cure_tag=poison
  damage_on_tick=4
  duration=8
@end
@condition shore_regeneration
  condition=regeneration
  heal_on_tick=6
  duration=5
@end
"#;
    let registry = parse_anatomy_file(content).unwrap();
    let venom = registry.effect("swamp_venom").unwrap();
    assert_eq!(venom.condition_type.as_deref(), Some("poison"));
    assert_eq!(venom.damage_on_tick, 4);
    assert_eq!(venom.duration_ticks, 8);
    assert!(venom.is_condition());
    let regen = registry.effect("shore_regeneration").unwrap();
    assert_eq!(regen.heal_on_tick, 6);
    assert_eq!(regen.duration_ticks, 5);
}

#[test]
fn anatomy_slot_attributes_and_player_template() {
    let content = "@creature human {\n  @slot left_hand capacity=2 TYPE=Wear hands=2\n  @slot mouth\n}\n@player-template default {\n  creature=human\n  gender=female\n}\n";
    let registry = parse_anatomy_file(content).unwrap();
    let human = registry.creature("human").unwrap();
    assert_eq!(human.max_health, 100);
    assert_eq!(human.slots.len(), 2);
    assert_eq!(human.slots[0].name, "left_hand");
    assert_eq!(human.slots[0].capacity, 2);
    assert_eq!(human.slots[0].slot_type, SlotType::Wear);
    assert_eq!(human.slots[0].hands, 2);
    assert_eq!(human.slots[1].capacity, 1);
    assert_eq!(human.slots[1].slot_type, SlotType::Grasp);
    assert_eq!(human.wear_slots().len(), 1);
    let template = registry.default_template().unwrap();
    assert_eq!(template.creature, "human");
    assert_eq!(template.gender, "female");
}

#[test]
fn anatomy_creature_without_name_is_an_error() {
    let err = parse_anatomy_file("@creature {\n").unwrap_err();
    assert_eq!(err, "@creature missing name: @creature {");
    let err = parse_anatomy_file("@effect  {\n").unwrap_err();
    assert_eq!(err, "@effect missing name: @effect  {");
}

#[test]
fn anatomy_effect_cure_tags_and_all_tags() {
    let content = "@effect venom\n  cures= poison , , bleed\n  kind=toxin\n  dot=-5\n@end\n";
    let registry = parse_anatomy_file(content).unwrap();
    let venom = registry.effect("venom").unwrap();
    assert_eq!(venom.cure_tags, vec!["poison".to_string(), "bleed".to_string()]);
    assert_eq!(venom.damage_on_tick, 0);
    assert_eq!(
        venom.all_cure_tags(),
        vec!["poison".to_string(), "bleed".to_string(), "toxin".to_string()]
    );
}

#[test]
fn anatomy_registry_merge_prefers_other() {
    let mut a = parse_anatomy_file("@creature cat\n  max_health=80\n@end\n@creature dog\n@end\n").unwrap();
    let b = parse_anatomy_file("@creature cat\n  max_health=90\n@end\n").unwrap();
    a.merge(b);
    assert_eq!(a.creature("cat").unwrap().max_health, 90);
    assert_eq!(a.creature("dog").unwrap().max_health, 100);
}

#[test]
fn spawner_entry_weight_defaults_and_last_wins() {
    let (_, spawners) = parse_spawner_file(
        "@spawner s\n  @entry a\n  @entry b WEIGHT=4 weight=x\n  @entry c weight=2 weight=7\n  chance=0.25\n  periodic_interval=0\n",
    );
    assert_eq!(spawners.len(), 1);
    let e = &spawners[0].entries;
    assert_eq!(e.len(), 3);
    assert_eq!(e[0].weight, 1);
    assert_eq!(e[1].weight, 1);
    assert_eq!(e[2].weight, 7);
    assert_eq!(spawners[0].chance.as_deref(), Some("0.25"));
    assert_eq!(spawners[0].periodic_interval, 1);
    assert_eq!(spawners[0].max_active, 1);
}

#[test]
fn spawn_template_use_behaviors_are_distinct() {
    let (templates, _) = parse_spawner_file(
        "@spawn-template wolf\n  @use-behavior pack\n  @use-behavior pack\n  @use-behavior howl\n  @behavior on_enter say Grr  there\n@end\n",
    );
    assert_eq!(templates[0].use_behaviors, vec!["pack".to_string(), "howl".to_string()]);
    assert_eq!(templates[0].behaviors.len(), 1);
    assert_eq!(templates[0].behaviors[0].text, "Grr there");
    assert_eq!(templates[0].creature, "human");
}

#[test]
fn react_words_round_trip() {
    for r in [
        CreatureReact::Ignore,
        CreatureReact::Warn,
        CreatureReact::Attack,
        CreatureReact::Flee,
        CreatureReact::Wander,
    ] {
        assert_eq!(CreatureReact::parse(r.as_str()), r);
    }
}

#[test]
fn spawner_triggers_round_trip() {
    for t in [SpawnerTrigger::OnEnter, SpawnerTrigger::Periodic] {
        assert_eq!(SpawnerTrigger::parse(t.as_str()), t);
    }
    for t in [
        LootSpawnerTrigger::OnEnter,
        LootSpawnerTrigger::OnOpen,
        LootSpawnerTrigger::OnKill,
        LootSpawnerTrigger::OnBreak,
        LootSpawnerTrigger::Timer,
    ] {
        assert_eq!(LootSpawnerTrigger::parse(t.as_str()), t);
    }
    for t in [
        ResourceSpawnerTrigger::OnEnter,
        ResourceSpawnerTrigger::OnHarvest,
        ResourceSpawnerTrigger::Timer,
    ] {
        assert_eq!(ResourceSpawnerTrigger::parse(t.as_str()), t);
    }
}

/// `str::parse::<f64>` for finite values, as bits.
fn finite_float(s: &str) -> Option<u64> {
    s.parse::<f64>().ok().filter(|f| f.is_finite()).map(f64::to_bits)
}

fn stat<'a>(entries: &'a [(String, i64)], name: &str) -> Option<i64> {
    entries.iter().find(|(k, _)| k == name).map(|(_, v)| *v)
}

#[test]
fn role_props_from_pairs_read_each_setting() {
    let props = MudlRoleProps::from_pairs(
        &[
            ("is_container", "true"),
            ("open", "yes"),
            ("capacity", "+8"),
            ("max_weight", "-40"),
            ("weight", "2.5"),
            ("volume", "inf"),
            ("text", "Mind the dark."),
            ("portal", "window"),
            ("direction", "north"),
            ("carry_bonus", "15"),
            ("encumbrance_factor", "0.85"),
            ("effect", "  warded "),
            ("grant_effect", "warded"),
            ("mod_stat_mod_stat_strength", "2"),
            ("mod_skill_stealth", "x"),
            ("on_break", "It shatters."),
            ("colour", "red"),
        ],
        &finite_float,
    );
    assert_eq!(props.is_container, Some(true));
    assert_eq!(props.is_open, Some(false));
    assert_eq!(props.capacity, Some(8));
    assert_eq!(props.max_weight, Some(-40));
    assert_eq!(props.weight.map(f64::from_bits), Some(2.5));
    assert_eq!(props.volume, None);
    assert_eq!(props.read_text.as_deref(), Some("Mind the dark."));
    assert_eq!(props.portal_kind.as_deref(), Some("window"));
    assert_eq!(props.door_direction.as_deref(), Some("north"));
    assert_eq!(props.mod_max_weight, Some(15));
    assert_eq!(props.mod_encumbrance.map(f64::from_bits), Some(0.85));
    assert_eq!(props.grant_effects, vec!["warded".to_string()]);
    assert_eq!(stat(&props.stat_mods, "strength"), Some(2));
    assert!(props.skill_mods.is_empty());
    assert_eq!(props.break_text.as_deref(), Some("It shatters."));
    assert!(props.has_scalar_overrides());
}

#[test]
fn role_props_later_setting_wins_even_when_unreadable() {
    let props = MudlRoleProps::from_pairs(&[("capacity", "8"), ("capacity", "lots")], &finite_float);
    assert_eq!(props.capacity, None);
    let plain = MudlRoleProps::from_pairs(&[("is_key", "true"), ("lock_id", "oak")], &finite_float);
    assert!(!plain.has_scalar_overrides());
}

#[test]
fn parse_item_file_reads_prototypes_and_items() {
    let content = r#"
; starting scene
@prototype worn-mailbox
  name = Worn Mailbox
  description = A dented tin box.
  is_container = true
  capacity = 3
  location = ignored-for-prototypes
  @mod-stat luck=1
  @grant-effect rusty
  @trigger on_open emote creaks open.
@end
@item scene-mailbox
  prototype = worn-mailbox
  location = the-void
  alias = box
  alias = mailbox
  Weight = 4
  weight = heavy
  @mod-skill lockpicking 2
@item mailbox-brass-key
  is_key = true
  lock_id = mailbox
"#;
    let (protos, items) = parse_item_file(content, &finite_float);
    assert_eq!(protos.len(), 1);
    let mailbox = &protos[0];
    assert_eq!(mailbox.base_name, "worn-mailbox");
    assert_eq!(mailbox.name.as_deref(), Some("Worn Mailbox"));
    assert_eq!(mailbox.description.as_deref(), Some("A dented tin box."));
    assert_eq!(mailbox.props.is_container, Some(true));
    assert_eq!(mailbox.props.capacity, Some(3));
    assert_eq!(stat(&mailbox.props.stat_mods, "luck"), Some(1));
    assert_eq!(mailbox.props.grant_effects, vec!["rusty".to_string()]);
    assert_eq!(mailbox.triggers.len(), 1);
    assert_eq!(mailbox.triggers[0].event, "on_open");
    assert_eq!(mailbox.triggers[0].code, "emote creaks open.");

    assert_eq!(items.len(), 2);
    let scene = &items[0];
    assert_eq!(scene.base_name, "scene-mailbox");
    assert_eq!(scene.prototype.as_deref(), Some("worn-mailbox"));
    assert_eq!(scene.location, "the-void");
    assert_eq!(scene.aliases, vec!["box".to_string(), "mailbox".to_string()]);
    assert_eq!(scene.props.weight.map(f64::from_bits), Some(4.0));
    assert_eq!(stat(&scene.props.skill_mods, "lockpicking"), Some(2));
    let key = &items[1];
    assert_eq!(key.base_name, "mailbox-brass-key");
    assert_eq!(key.props.is_key, Some(true));
    assert_eq!(key.props.lock_id.as_deref(), Some("mailbox"));
    assert_eq!(key.location, "");
}

#[test]
fn parse_item_file_new_block_drops_an_unfinished_one_of_the_other_kind() {
    let content = "@item half-made\n  name = Lost\n@prototype kept\n@end\n";
    let (protos, items) = parse_item_file(content, &finite_float);
    assert!(items.is_empty());
    assert_eq!(protos.len(), 1);
    assert_eq!(protos[0].base_name, "kept");
}

#[test]
fn world_drops_unnamed_and_config_blocks() {
    let content = "type: config\nbase_name: settings\nstarting_location: room:hall-001\n\nname: Nameless\n\ntype: room\nbase_name: hall\nname: Hall\n";
    let (defs, start) = parse_world_file(content);
    assert_eq!(defs.len(), 1);
    assert_eq!(defs[0].base_name, "hall");
    assert_eq!(defs[0].name, "Hall");
    assert_eq!(start, Some("room:hall-001".to_string()));
}

#[test]
fn anatomy_files_entries_under_their_names_with_clamped_ticks() {
    let content = "@condition bleed\n  hot=-3\n  ticks=-2\n@end\n@player-template hero\n@end\n";
    let registry = parse_anatomy_file(content).unwrap();
    let bleed = registry.effect("bleed").unwrap();
    assert_eq!(bleed.name, "bleed");
    assert_eq!(bleed.heal_on_tick, 0);
    assert_eq!(bleed.duration_ticks, 0);
    assert_eq!(registry.player_template("hero").unwrap().name, "hero");
}
