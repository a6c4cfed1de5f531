//! End-to-end tests of the engine: the distance classifier, noun
//! resolution, the parser, the command handlers, the combat state machine
//! and the world serialization.

use rust_in_peace::codec::{decode, encode};
use rust_in_peace::combat::CombatStatus;
use rust_in_peace::command::{parse, Command};
use rust_in_peace::distance::Distance;
use rust_in_peace::object::{Object, Passage};
use rust_in_peace::text::eq_ignore_case;
use rust_in_peace::world::{
    AmbiguousOption, World, LOC_BANDITS, LOC_BEAR, LOC_DUNGEONS, LOC_FOREST, LOC_PLAYER, LOC_TROLL,
};

const HELP: &str = "Available commands are\n\n        look\n\n        attack <enemy name>\n\n        go <location>\n\n        get <item name>\n\n        drop <item name>\n\n        inventory \n\n        map \n\n        quit\n\n        help\n";

fn set_player_location(w: &mut World, l: usize) {
    match &mut w.objects[LOC_PLAYER] {
        Object::Player(p) => p.location = l,
        _ => panic!("player expected"),
    }
}

fn set_player_health(w: &mut World, h: u64) {
    match &mut w.objects[LOC_PLAYER] {
        Object::Player(p) => p.health = h,
        _ => panic!("player expected"),
    }
}

fn player_health(w: &World) -> u64 {
    match &w.objects[LOC_PLAYER] {
        Object::Player(p) => p.health,
        _ => panic!("player expected"),
    }
}

fn enemy_health(w: &World, i: usize) -> u64 {
    match &w.objects[i] {
        Object::Enemy(e) => e.health,
        _ => panic!("enemy expected"),
    }
}

fn set_enemy_health(w: &mut World, i: usize, h: u64) {
    match &mut w.objects[i] {
        Object::Enemy(e) => e.health = h,
        _ => panic!("enemy expected"),
    }
}

#[test]
fn distance_player_exactly_for_self() {
    let w = World::new();
    assert_eq!(w.get_distance(Some(LOC_PLAYER), Some(LOC_PLAYER)), Distance::Player);
    assert_eq!(w.get_distance(Some(LOC_PLAYER), None), Distance::Unknown);
    assert_ne!(w.get_distance(Some(LOC_PLAYER), Some(10)), Distance::Player);
    assert_ne!(w.get_distance(Some(LOC_PLAYER), Some(0)), Distance::Player);
}

#[test]
fn distance_classes() {
    let mut w = World::new();
    // the sword sits in the dungeons, the player in the forest
    assert_eq!(w.get_distance(Some(LOC_PLAYER), Some(10)), Distance::NotHere);
    // the forest contains the player
    assert_eq!(w.get_distance(Some(LOC_PLAYER), Some(LOC_FOREST)), Distance::Location);
    set_player_location(&mut w, LOC_DUNGEONS);
    assert_eq!(w.get_distance(Some(LOC_PLAYER), Some(10)), Distance::Here);
    match &mut w.objects[10] {
        Object::Weapon(s) => s.location = Some(LOC_PLAYER),
        _ => panic!(),
    }
    assert_eq!(w.get_distance(Some(LOC_PLAYER), Some(10)), Distance::Held);
}

#[test]
fn distance_over_there_via_passage() {
    let mut w = World::new();
    w.objects.push(Object::Passage(Passage {
        name: "North".to_string(),
        description: "A path north".to_string(),
        location: Some(LOC_FOREST),
        destination: Some(LOC_DUNGEONS),
    }));
    assert_eq!(w.get_distance(Some(LOC_PLAYER), Some(LOC_DUNGEONS)), Distance::OverThere);
}

#[test]
fn object_index_unique_and_none() {
    let w = World::new();
    assert_eq!(
        w.object_index("sword", Some(LOC_PLAYER), Distance::NotHere),
        AmbiguousOption::One(10)
    );
    assert_eq!(
        w.object_index("SwOrD", Some(LOC_PLAYER), Distance::NotHere),
        AmbiguousOption::One(10)
    );
    assert_eq!(
        w.object_index("gold", Some(LOC_PLAYER), Distance::NotHere),
        AmbiguousOption::Absent
    );
}

#[test]
fn object_index_ambiguous_ignores_nearness() {
    let mut w = World::new();
    // a second sword right where the player stands: still ambiguous with
    // the far one, nearness breaks no ties
    w.objects.push(Object::Weapon(rust_in_peace::object::Weapon::new(
        "Sword".to_string(),
        "A shiny sword".to_string(),
        LOC_FOREST,
        30,
    )));
    assert_eq!(
        w.object_index("sword", Some(LOC_PLAYER), Distance::NotHere),
        AmbiguousOption::Ambiguous
    );
}

#[test]
fn parse_verbs_and_nouns() {
    assert!(matches!(parse("look".to_string()), Command::Look(n) if n.is_empty()));
    assert!(matches!(parse("LOOK".to_string()), Command::Look(n) if n.is_empty()));
    assert!(matches!(parse("go   forest".to_string()), Command::Go(n) if n == "forest"));
    assert!(
        matches!(parse("get  healing   potion ".to_string()), Command::Get(n) if n == "healing potion")
    );
    assert!(matches!(parse("quit".to_string()), Command::Quit));
    assert!(matches!(parse("help".to_string()), Command::Help));
    assert!(matches!(parse("inventory".to_string()), Command::Inventory));
    assert!(matches!(parse("map".to_string()), Command::WorldMap));
    assert!(matches!(parse("attack troll".to_string()), Command::Attack(n) if n == "troll"));
    assert!(matches!(parse("drop bow".to_string()), Command::Drop(n) if n == "bow"));
}

#[test]
fn parse_unknown_keeps_trimmed_folded_line() {
    assert!(matches!(parse("dance".to_string()), Command::Unknown(s) if s == "dance"));
    assert!(
        matches!(parse("  DANCE with me  ".to_string()), Command::Unknown(s) if s == "dance with me")
    );
    assert!(matches!(parse("".to_string()), Command::Unknown(s) if s.is_empty()));
}

#[test]
fn case_folding_matches_names() {
    assert!(eq_ignore_case("TROLL", "troll"));
    assert!(eq_ignore_case("Potion", "pOtIoN"));
    assert!(!eq_ignore_case("troll", "trolls"));
}

#[test]
fn look_is_idempotent() {
    let w = World::new();
    let first = w.do_look("");
    let second = w.do_look("");
    assert_eq!(first, second);
}

#[test]
fn scenario_default_look_at_forest() {
    let w = World::new();
    let out = w.do_look("");
    assert!(out.starts_with(" You are in the Forest\n Look out for tree people.."));
    // nothing sits in the forest, so the listing is empty
    assert_eq!(out, " You are in the Forest\n Look out for tree people..\n\nYou see:\n");
}

#[test]
fn look_with_noun_is_invalid() {
    let w = World::new();
    assert_eq!(w.do_look("forest"), "Invalid command!!\n");
}

#[test]
fn scenario_get_potion_out_of_reach() {
    let mut w = World::new();
    let before = World::new();
    let (out, combat) = w.update_state(&Command::Get("potion".to_string()));
    assert_eq!(out, "You don't see any 'potion' here.\n");
    assert!(combat.is_none());
    assert_eq!(w.objects, before.objects);
}

#[test]
fn scenario_get_potion_heals_to_full() {
    let mut w = World::new();
    // bring the potion to the player's location and dent the player
    match &mut w.objects[15] {
        Object::Consumable(c) => c.location = Some(LOC_FOREST),
        _ => panic!(),
    }
    set_player_health(&mut w, 80);
    let (out, _) = w.update_state(&Command::Get("potion".to_string()));
    assert_eq!(out, "You have consumed the item. Your health has increased to 100\n");
    assert_eq!(player_health(&w), 100);
    match &w.objects[15] {
        Object::Consumable(c) => assert_eq!(c.location, None),
        _ => panic!(),
    }
}

#[test]
fn get_at_full_health_leaves_potion() {
    let mut w = World::new();
    match &mut w.objects[15] {
        Object::Consumable(c) => c.location = Some(LOC_FOREST),
        _ => panic!(),
    }
    let (out, _) = w.update_state(&Command::Get("potion".to_string()));
    assert_eq!(out, "You are already at full health");
    match &w.objects[15] {
        Object::Consumable(c) => assert_eq!(c.location, Some(LOC_FOREST)),
        _ => panic!(),
    }
}

#[test]
fn scenario_combat_troll_with_sword() {
    let mut w = World::new();
    set_player_location(&mut w, LOC_DUNGEONS);
    let (intro, handle) = w.do_attack(&"troll".to_string());
    assert_eq!(intro, "\nYou are attacking the Troll.\n");
    assert_eq!(handle, Some(LOC_TROLL));
    let (status, out) = w.combat_step(LOC_TROLL, "use sword");
    assert_eq!(status, CombatStatus::Ongoing);
    assert!(out.starts_with("You attacked the Troll.\nEnemy health: 80"));
    assert_eq!(enemy_health(&w, LOC_TROLL), 80);
    for expected in [60, 40, 20] {
        let (status, _) = w.combat_step(LOC_TROLL, "use sword");
        assert_eq!(status, CombatStatus::Ongoing);
        assert_eq!(enemy_health(&w, LOC_TROLL), expected);
    }
    let (status, out) = w.combat_step(LOC_TROLL, "use sword");
    assert_eq!(status, CombatStatus::EnemyDead);
    assert!(out.starts_with("You attacked the Troll.\nEnemy health: 0"));
    assert!(out.ends_with("\nYou killed the Troll.\n"));
    assert_eq!(enemy_health(&w, LOC_TROLL), 0);
}

#[test]
fn retaliation_stays_below_attack_power() {
    let mut w = World::new();
    set_player_location(&mut w, LOC_DUNGEONS);
    let (_, handle) = w.do_attack(&"troll".to_string());
    assert_eq!(handle, Some(LOC_TROLL));
    let (_, _) = w.combat_step(LOC_TROLL, "use sword");
    // the troll strikes back for strictly less than its attack power of 20
    assert!(player_health(&w) >= 81);
    assert!(player_health(&w) <= 100);
}

#[test]
fn health_stays_in_bounds_through_combat() {
    let mut w = World::new();
    set_player_location(&mut w, LOC_DUNGEONS);
    set_player_health(&mut w, 5);
    let (_, handle) = w.do_attack(&"troll".to_string());
    assert_eq!(handle, Some(LOC_TROLL));
    for _ in 0..20 {
        let (status, _) = w.combat_step(LOC_TROLL, "use sword");
        assert!(player_health(&w) <= 100);
        assert!(enemy_health(&w, LOC_TROLL) <= 100);
        if status != CombatStatus::Ongoing {
            break;
        }
    }
}

#[test]
fn combat_player_death_is_checked_against_store() {
    let mut w = World::new();
    set_player_location(&mut w, LOC_DUNGEONS);
    set_player_health(&mut w, 0);
    let (status, out) = w.combat_step(LOC_TROLL, "use sword");
    assert_eq!(status, CombatStatus::PlayerDead);
    assert_eq!(out, "\nYou died");
}

#[test]
fn combat_run_flees() {
    let mut w = World::new();
    set_player_location(&mut w, LOC_DUNGEONS);
    let (status, out) = w.combat_step(LOC_TROLL, "run");
    assert_eq!(status, CombatStatus::Fled);
    assert_eq!(out, "You ran away from the Troll.\n");
}

#[test]
fn combat_other_input_repeats_hint() {
    let mut w = World::new();
    set_player_location(&mut w, LOC_DUNGEONS);
    let (status, out) = w.combat_step(LOC_TROLL, "sing");
    assert_eq!(status, CombatStatus::Ongoing);
    assert_eq!(
        out,
        "\nHint: Use the following commands when attacking: 'use <weapon name>' or 'inventory' or 'run'\n"
    );
}

#[test]
fn combat_use_non_weapon_is_refused() {
    let mut w = World::new();
    set_player_location(&mut w, LOC_DUNGEONS);
    let (status, out) = w.combat_step(LOC_TROLL, "use troll");
    assert_eq!(status, CombatStatus::Ongoing);
    assert_eq!(
        out,
        "That is not a weapon!!\nHint: Use the following commands: use <weapon name> or run\n"
    );
}

#[test]
fn attack_non_enemy_and_dead_enemy() {
    let mut w = World::new();
    set_player_location(&mut w, LOC_DUNGEONS);
    let (out, handle) = w.do_attack(&"sword".to_string());
    assert_eq!(out, "You can't attack the sword.\n");
    assert!(handle.is_none());
    set_enemy_health(&mut w, LOC_TROLL, 0);
    let (out, handle) = w.do_attack(&"troll".to_string());
    assert_eq!(out, "The Troll is already dead.\n");
    assert!(handle.is_none());
}

#[test]
fn scenario_unknown_dance_prints_help() {
    let mut w = World::new();
    let cmd = parse("dance".to_string());
    let (out, combat) = w.update_state(&cmd);
    assert_eq!(out, format!("Invalid command!!\n{}", HELP));
    assert!(combat.is_none());
}

#[test]
fn help_text_is_static() {
    let w = World::new();
    assert_eq!(w.display_help(), HELP);
}

#[test]
fn quit_says_goodbye() {
    let mut w = World::new();
    let (out, _) = w.update_state(&Command::Quit);
    assert_eq!(out, "Quitting.\nThank you for playing!");
}

#[test]
fn inventory_empty_then_full() {
    let mut w = World::new();
    assert_eq!(w.do_inventory(), "You currently do not have anything in your inventory.\n");
    set_player_location(&mut w, LOC_DUNGEONS);
    let (out, _) = w.update_state(&Command::Get("sword".to_string()));
    assert_eq!(out, "You pick up the Sword.\n");
    assert_eq!(w.do_inventory(), "\nYou see:\nA rusty sword\n");
}

#[test]
fn drop_without_holding_and_after_pickup() {
    let mut w = World::new();
    let (out, _) = w.update_state(&Command::Drop("sword".to_string()));
    assert_eq!(out, "You are not holding any sword.\n");
    set_player_location(&mut w, LOC_DUNGEONS);
    let (_, _) = w.update_state(&Command::Get("sword".to_string()));
    let (out, _) = w.update_state(&Command::Drop("sword".to_string()));
    assert_eq!(out, "You have dropped Sword.\n");
    match &w.objects[10] {
        Object::Weapon(s) => assert_eq!(s.location, Some(LOC_DUNGEONS)),
        _ => panic!(),
    }
}

#[test]
fn drop_yourself_is_illegal() {
    let mut w = World::new();
    let (out, _) = w.update_state(&Command::Drop("master of none".to_string()));
    assert_eq!(out, "It is illegal to do this: Master of None.\n");
}

#[test]
fn get_yourself_is_refused() {
    let mut w = World::new();
    let (out, _) = w.update_state(&Command::Get("master of none".to_string()));
    assert_eq!(out, "Invalid!! You cannot get that!!");
}

#[test]
fn go_without_passage_sees_nothing() {
    let mut w = World::new();
    let (out, _) = w.update_state(&Command::Go("dungeons".to_string()));
    assert_eq!(out, "You don't see any 'dungeons' here.\n");
}

#[test]
fn go_through_a_passage() {
    let mut w = World::new();
    w.objects.push(Object::Passage(Passage {
        name: "North".to_string(),
        description: "A path to the north".to_string(),
        location: Some(LOC_FOREST),
        destination: Some(LOC_DUNGEONS),
    }));
    // by the destination's name: reachable through the passage
    let (out, _) = w.update_state(&Command::Go("dungeons".to_string()));
    assert!(out.starts_with("OK.\n You are in the Dungeons\n Be aware of trolls.."));
    match &w.objects[LOC_PLAYER] {
        Object::Player(p) => assert_eq!(p.location, LOC_DUNGEONS),
        _ => panic!(),
    }
}

#[test]
fn go_by_the_passage_name_follows_its_link() {
    let mut w = World::new();
    w.objects.push(Object::Passage(Passage {
        name: "North".to_string(),
        description: "A path to the north".to_string(),
        location: Some(LOC_FOREST),
        destination: Some(LOC_DUNGEONS),
    }));
    let (out, _) = w.update_state(&Command::Go("north".to_string()));
    assert!(out.starts_with("OK.\n You are in the Dungeons"));
    match &w.objects[LOC_PLAYER] {
        Object::Player(p) => assert_eq!(p.location, LOC_DUNGEONS),
        _ => panic!(),
    }
}

#[test]
fn map_lists_passage_destinations() {
    let mut w = World::new();
    assert_eq!(w.display_locations(), "Available locations:\n");
    w.objects.push(Object::Passage(Passage {
        name: "North".to_string(),
        description: "A path to the north".to_string(),
        location: Some(LOC_FOREST),
        destination: Some(LOC_DUNGEONS),
    }));
    assert_eq!(w.display_locations(), "Available locations:\n1: Dungeons\n");
    let (out, _) = w.update_state(&Command::WorldMap);
    assert_eq!(out, "Available locations:\n1: Dungeons\n");
}

#[test]
fn ambiguous_noun_asks_for_detail() {
    let mut w = World::new();
    set_player_location(&mut w, LOC_DUNGEONS);
    w.objects.push(Object::Weapon(rust_in_peace::object::Weapon::new(
        "Sword".to_string(),
        "A shiny sword".to_string(),
        LOC_DUNGEONS,
        30,
    )));
    let (out, _) = w.update_state(&Command::Get("sword".to_string()));
    assert_eq!(
        out,
        "Please be more specific about which sword you mean. Try typing out the location.\n"
    );
}

#[test]
fn game_over_and_victory() {
    let mut w = World::new();
    assert!(!w.game_over());
    assert!(!w.victory());
    set_enemy_health(&mut w, LOC_BEAR, 0);
    set_enemy_health(&mut w, LOC_TROLL, 0);
    set_enemy_health(&mut w, LOC_BANDITS, 0);
    assert!(w.victory());
    assert!(w.game_over());
    let mut w2 = World::new();
    set_player_health(&mut w2, 0);
    assert!(w2.game_over());
    assert!(!w2.victory());
}

#[test]
fn player_here_finds_first_shared_location() {
    let w = World::new();
    assert_eq!(w.player_here(), Some(LOC_PLAYER));
}

#[test]
fn check_wf_accepts_default_and_rejects_broken() {
    let w = World::new();
    assert!(w.check_wf());
    let mut broken = World::new();
    match &mut broken.objects[LOC_PLAYER] {
        Object::Player(p) => p.location = 999,
        _ => panic!(),
    }
    assert!(!broken.check_wf());
    let empty = World { objects: Vec::new() };
    assert!(!empty.check_wf());
}

#[test]
fn codec_round_trip_default_world() {
    let w = World::new();
    let text = encode(&w);
    let back = decode(text.as_str()).expect("decoding an encoded world succeeds");
    assert_eq!(back.objects, w.objects);
}

#[test]
fn codec_round_trip_with_passages_and_state() {
    let mut w = World::new();
    w.objects.push(Object::Passage(Passage {
        name: "North".to_string(),
        description: "A path to the north".to_string(),
        location: Some(LOC_FOREST),
        destination: Some(LOC_DUNGEONS),
    }));
    w.objects.push(Object::Passage(Passage {
        name: "Nowhere".to_string(),
        description: "A dead end".to_string(),
        location: None,
        destination: None,
    }));
    set_player_health(&mut w, 42);
    match &mut w.objects[15] {
        Object::Consumable(c) => c.location = None,
        _ => panic!(),
    }
    let text = encode(&w);
    let back = decode(text.as_str()).expect("decoding an encoded world succeeds");
    assert_eq!(back.objects, w.objects);
}

#[test]
fn codec_rejects_malformed_text() {
    assert!(decode("").is_none());
    assert!(decode("garbage").is_none());
    assert!(decode("00000000000000000003").is_none());
    let w = World::new();
    let mut text = encode(&w);
    text.push('x');
    assert!(decode(text.as_str()).is_none());
}

#[test]
fn numbers_render_in_decimal() {
    assert_eq!(rust_in_peace::text::u64_to_string(0), "0");
    assert_eq!(rust_in_peace::text::u64_to_string(10), "10");
    assert_eq!(rust_in_peace::text::u64_to_string(18446744073709551615), "18446744073709551615");
}

#[test]
fn move_object_edge_cases() {
    let mut w = World::new();
    let before = World::new();
    assert_eq!(w.move_object(None, Some(LOC_FOREST)), "");
    assert_eq!(w.move_object(Some(10), None), "No one is present here to give.\n");
    assert_eq!(w.objects, before.objects);
    // a consumed item has no location and cannot be moved
    match &mut w.objects[15] {
        Object::Consumable(c) => c.location = None,
        _ => panic!(),
    }
    assert_eq!(w.move_object(Some(15), Some(LOC_FOREST)), "You cannot get that!!\n");
    match &w.objects[15] {
        Object::Consumable(c) => assert_eq!(c.location, None),
        _ => panic!(),
    }
}

#[test]
fn move_object_narrates_put_in() {
    let mut w = World::new();
    // the sword goes from the dungeons into the cave, away from the player
    let out = w.move_object(Some(10), Some(2));
    assert_eq!(out, "You put Sword in Cave.\n");
    match &w.objects[10] {
        Object::Weapon(s) => assert_eq!(s.location, Some(2)),
        _ => panic!(),
    }
}

#[test]
fn describe_move_narrates_got_from() {
    let w = World::new();
    assert_eq!(w.describe_move(Some(10), None), "You got Sword from Dungeons.\n");
    assert_eq!(w.describe_move(None, None), "Please you have to drop something.\n");
}

#[test]
fn passage_index_finds_first_link() {
    let mut w = World::new();
    assert_eq!(w.passage_index(Some(LOC_FOREST), Some(LOC_DUNGEONS)), None);
    assert_eq!(w.passage_index(None, Some(LOC_DUNGEONS)), None);
    w.objects.push(Object::Passage(Passage {
        name: "North".to_string(),
        description: "A path to the north".to_string(),
        location: Some(LOC_FOREST),
        destination: Some(LOC_DUNGEONS),
    }));
    assert_eq!(w.passage_index(Some(LOC_FOREST), Some(LOC_DUNGEONS)), Some(16));
}

#[test]
fn is_containing_follows_location_fields() {
    let w = World::new();
    // the forest holds the player; the dungeons hold the sword
    assert!(w.is_containing(Some(LOC_FOREST), Some(LOC_PLAYER)));
    assert!(w.is_containing(Some(LOC_DUNGEONS), Some(10)));
    assert!(!w.is_containing(Some(LOC_FOREST), Some(10)));
    assert!(!w.is_containing(Some(LOC_FOREST), None));
    // places have no location of their own, so the absent container holds them
    assert!(w.is_containing(None, Some(LOC_FOREST)));
}

#[test]
fn combat_inventory_lists_without_striking() {
    let mut w = World::new();
    set_player_location(&mut w, LOC_DUNGEONS);
    let (_, _) = w.update_state(&Command::Get("sword".to_string()));
    let (status, out) = w.combat_step(LOC_TROLL, "inventory");
    assert_eq!(status, CombatStatus::Ongoing);
    assert_eq!(out, "\nYou see:\nA rusty sword\n");
    assert_eq!(enemy_health(&w, LOC_TROLL), 100);
}

#[test]
fn combat_use_unseen_weapon_reports_it() {
    let mut w = World::new();
    set_player_location(&mut w, LOC_DUNGEONS);
    // the bow hangs in the tavern, out of reach
    let (status, out) = w.combat_step(LOC_TROLL, "use bow");
    assert_eq!(status, CombatStatus::Ongoing);
    assert_eq!(out, "You don't see any 'bow' here.\n");
    assert_eq!(enemy_health(&w, LOC_TROLL), 100);
}
