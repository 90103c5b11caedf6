use cyber_dungeon::game::labels::LabelMap;
use cyber_dungeon::game::world::{
    find_item, find_npc, names_of_items, names_of_npcs_in, Item, Npc, World,
};
use std::collections::HashMap;

fn item(name: &str, can_take: bool, can_eat: bool, heal: i32, bonus: i32) -> Item {
    Item {
        name: name.to_string(),
        description: format!("A {}.", name),
        can_take,
        can_eat,
        can_equip: bonus != 0,
        heal_amount: heal,
        attack_increase_amount: bonus,
    }
}

fn lines(texts: &[&str]) -> Vec<String> {
    texts.iter().map(|t| t.to_string()).collect()
}

fn talker(script: &[&str]) -> Npc {
    Npc {
        name: "Guide".to_string(),
        current_dialogue: lines(script),
        current_room: 0,
        all_dialogues: HashMap::new(),
        dialogue_counter: 0,
        health_points: 10,
        attack_power: 1,
        hostile: false,
    }
}

#[test]
fn new_world_is_empty() {
    let world = World::new();
    assert_eq!(world.rooms.len(), 0);
    assert_eq!(world.npcs.len(), 0);
    assert_eq!(world.flags.len(), 0);
    assert!(world.validate());
}

#[test]
fn flag_that_was_never_set_is_off() {
    let world = World::new();
    assert!(!world.get_flag("skeleton_defeated"));
    assert!(!world.get_flag(""));
}

#[test]
fn set_flag_then_get_flag() {
    let mut world = World::new();
    world.set_flag("skeleton_defeated", true);
    assert!(world.get_flag("skeleton_defeated"));
    assert!(!world.get_flag("door_open"));
    world.set_flag("door_open", false);
    assert!(!world.get_flag("door_open"));
    world.set_flag("skeleton_defeated", false);
    assert!(!world.get_flag("skeleton_defeated"));
    assert_eq!(world.flags.len(), 2);
}

#[test]
fn create_room_returns_consecutive_indices() {
    let mut world = World::new();
    let mut exits = LabelMap::new();
    exits.insert("north".to_string(), 1);
    let a = world.create_room("A", "first", vec![item("Key", true, false, 0, 0)], exits);
    let b = world.create_room("B", "second", vec![], LabelMap::new());
    assert_eq!(a, 0);
    assert_eq!(b, 1);
    assert_eq!(world.rooms.len(), 2);
    assert_eq!(world.rooms[0].name, "A");
    assert_eq!(world.rooms[0].description, "first");
    assert_eq!(world.rooms[0].items.len(), 1);
    assert_eq!(world.rooms[0].items[0].name, "Key");
    assert_eq!(world.rooms[0].exits.get("north"), Some(&1));
    assert_eq!(world.rooms[1].name, "B");
    assert_eq!(world.rooms[1].exits.len(), 0);
}

#[test]
fn create_room_accepts_an_exit_to_a_room_that_comes_later() {
    let mut world = World::new();
    let mut exits = LabelMap::new();
    exits.insert("north".to_string(), 1);
    world.create_room("A", "first", vec![], exits);
    assert!(!world.validate());
    let mut back = LabelMap::new();
    back.insert("south".to_string(), 0);
    world.create_room("B", "second", vec![], back);
    assert!(world.validate());
}

#[test]
fn create_npc_starts_at_the_first_line() {
    let mut world = World::new();
    let mut scripts = HashMap::new();
    scripts.insert(2usize, lines(&["hello", "bye"]));
    let a = world.create_npc("Ann", lines(&["hello", "bye"]), 2, scripts, 30, 4, false);
    let b = world.create_npc("Bob", vec![], 0, HashMap::new(), 5, 6, true);
    assert_eq!(a, 0);
    assert_eq!(b, 1);
    let ann = &world.npcs[0];
    assert_eq!(ann.name, "Ann");
    assert_eq!(ann.current_dialogue, lines(&["hello", "bye"]));
    assert_eq!(ann.current_room, 2);
    assert_eq!(ann.all_dialogues.get(&2), Some(&lines(&["hello", "bye"])));
    assert_eq!(ann.dialogue_counter, 0);
    assert_eq!(ann.health_points, 30);
    assert_eq!(ann.attack_power, 4);
    assert!(!ann.hostile);
    let bob = &world.npcs[1];
    assert_eq!(bob.name, "Bob");
    assert!(bob.hostile);
    assert_eq!(bob.health_points, 5);
    assert_eq!(bob.attack_power, 6);
}

#[test]
fn init_rooms_builds_the_four_rooms() {
    let mut world = World::new();
    world.init_rooms();
    assert_eq!(world.rooms.len(), 4);
    let start = &world.rooms[0];
    assert_eq!(start.name, "Starting Room");
    assert_eq!(start.description, "You are in the starting room. There's an exit to the north.");
    assert_eq!(names_of_items(&start.items), vec!["Key".to_string()]);
    let key = &start.items[0];
    assert_eq!(key.description, "A small rusty key.");
    assert!(key.can_take);
    assert!(key.can_eat);
    assert!(!key.can_equip);
    assert_eq!(key.heal_amount, -10);
    assert_eq!(key.attack_increase_amount, 0);
    assert_eq!(start.exits.keys(), vec!["north".to_string()]);
    assert_eq!(start.exits.get("north"), Some(&1));

    let entrance = &world.rooms[1];
    assert_eq!(entrance.name, "Maze Entrance");
    assert_eq!(
        entrance.description,
        "You stand at the entrance of a dark maze. Exits lead in all directions."
    );
    assert_eq!(
        names_of_items(&entrance.items),
        vec!["Broken_Sword".to_string(), "Healing_Grass".to_string()]
    );
    let sword = &entrance.items[0];
    assert_eq!(sword.description, "Not much use unless you're out of options.");
    assert!(sword.can_take && !sword.can_eat && sword.can_equip);
    assert_eq!(sword.heal_amount, 0);
    assert_eq!(sword.attack_increase_amount, 10);
    let grass = &entrance.items[1];
    assert_eq!(grass.description, "Heals a small amount of health.");
    assert!(grass.can_take && grass.can_eat && !grass.can_equip);
    assert_eq!(grass.heal_amount, 20);
    assert_eq!(grass.attack_increase_amount, 0);
    assert_eq!(
        entrance.exits.keys(),
        vec!["south".to_string(), "north".to_string(), "east".to_string()]
    );
    assert_eq!(entrance.exits.get("south"), Some(&0));
    assert_eq!(entrance.exits.get("north"), Some(&2));
    assert_eq!(entrance.exits.get("east"), Some(&3));
    assert_eq!(entrance.exits.get("stairs"), None);

    assert_eq!(world.rooms[2].name, "Maze Room 1");
    assert_eq!(world.rooms[2].description, "The walls here are identical, and you feel disoriented.");
    assert_eq!(world.rooms[2].items.len(), 0);
    assert_eq!(world.rooms[2].exits.keys(), vec!["south".to_string()]);
    assert_eq!(world.rooms[2].exits.get("south"), Some(&1));
    assert_eq!(world.rooms[3].name, "Maze Room 2");
    assert_eq!(world.rooms[3].description, "A narrow corridor with a faint breeze.");
    assert_eq!(world.rooms[3].items.len(), 0);
    assert_eq!(world.rooms[3].exits.get("west"), Some(&1));
    assert_eq!(world.npcs.len(), 0);
}

#[test]
fn built_in_map_is_valid() {
    let mut world = World::new();
    world.init_rooms();
    assert!(world.validate());
    for room in &world.rooms {
        for label in room.exits.keys() {
            assert!(*room.exits.get(&label).unwrap() < world.rooms.len());
        }
    }
    world.init_npcs();
    assert!(world.validate());
}

#[test]
fn validate_finds_an_exit_that_leads_nowhere() {
    let mut world = World::new();
    world.init_rooms();
    let mut up = LabelMap::new();
    up.insert("down".to_string(), 1);
    up.insert("up".to_string(), 5);
    world.create_room("Landing", "Stairs go on.", vec![], up);
    assert!(!world.validate());
    world.create_room("Attic", "Dust.", vec![], LabelMap::new());
    assert!(world.validate());
}

#[test]
fn init_rooms_in_a_world_with_rooms_links_back_to_the_new_rooms() {
    let mut world = World::new();
    world.create_room("Porch", "Before the door.", vec![], LabelMap::new());
    world.init_rooms();
    assert_eq!(world.rooms.len(), 5);
    assert_eq!(world.rooms[1].name, "Starting Room");
    assert_eq!(world.rooms[2].exits.get("south"), Some(&1));
    assert_eq!(world.rooms[2].exits.get("north"), Some(&2));
    assert_eq!(world.rooms[3].exits.get("south"), Some(&2));
    assert_eq!(world.rooms[4].exits.get("west"), Some(&2));
}

#[test]
fn init_npcs_builds_merlin_and_the_skeleton() {
    let mut world = World::new();
    world.init_npcs();
    assert_eq!(world.npcs.len(), 2);
    let greeting = lines(&[
        "Greetings Traveler. I hope you found that key I left in the previous room.",
        "You will find that you may need it here or there.",
        "Good luck on your quest, perhaps we shall meet again soon.",
    ]);
    let farewell = lines(&[
        "Hello again traveler.",
        "Thanks for getting rid of that skeleton in the other room.",
        "I must be going soon. Take care.",
    ]);
    let merlin = &world.npcs[0];
    assert_eq!(merlin.name, "Merlin");
    assert_eq!(merlin.current_dialogue, greeting);
    assert_eq!(merlin.current_room, 1);
    assert_eq!(merlin.all_dialogues.len(), 2);
    assert_eq!(merlin.all_dialogues.get(&1), Some(&greeting));
    assert_eq!(merlin.all_dialogues.get(&3), Some(&farewell));
    assert_eq!(merlin.dialogue_counter, 0);
    assert_eq!(merlin.health_points, 20);
    assert_eq!(merlin.attack_power, 20);
    assert!(!merlin.hostile);
    let skeleton = &world.npcs[1];
    assert_eq!(skeleton.name, "Skeleton");
    assert_eq!(skeleton.current_dialogue, Vec::<String>::new());
    assert_eq!(skeleton.current_room, 2);
    assert_eq!(skeleton.all_dialogues.len(), 0);
    assert_eq!(skeleton.dialogue_counter, 0);
    assert_eq!(skeleton.health_points, 50);
    assert_eq!(skeleton.attack_power, 10);
    assert!(skeleton.hostile);
    assert_eq!(world.rooms.len(), 0);
}

#[test]
fn speak_dialogue_says_the_lines_in_order_then_repeats_the_last() {
    let mut npc = talker(&["one", "two", "three"]);
    assert_eq!(npc.speak_dialogue(), "one");
    assert_eq!(npc.dialogue_counter, 1);
    assert_eq!(npc.speak_dialogue(), "two");
    assert_eq!(npc.dialogue_counter, 2);
    assert_eq!(npc.speak_dialogue(), "three");
    assert_eq!(npc.dialogue_counter, 2);
    for _ in 0..50 {
        assert_eq!(npc.speak_dialogue(), "three");
        assert_eq!(npc.dialogue_counter, 2);
    }
}

#[test]
fn speak_dialogue_with_one_line_repeats_it() {
    let mut npc = talker(&["only"]);
    assert_eq!(npc.speak_dialogue(), "only");
    assert_eq!(npc.speak_dialogue(), "only");
    assert_eq!(npc.dialogue_counter, 0);
}

#[test]
fn update_dialogue_takes_the_script_of_the_room() {
    let mut npc = talker(&["one", "two"]);
    npc.all_dialogues.insert(3, lines(&["later", "much later"]));
    npc.speak_dialogue();
    assert_eq!(npc.dialogue_counter, 1);
    npc.update_dialogue(3);
    assert_eq!(npc.current_dialogue, lines(&["later", "much later"]));
    assert_eq!(npc.dialogue_counter, 0);
    assert_eq!(npc.current_room, 0);
    assert_eq!(npc.speak_dialogue(), "later");
}

#[test]
fn speak_dialogue_without_a_line_says_so_and_changes_nothing() {
    let mut npc = talker(&[]);
    assert_eq!(npc.speak_dialogue(), "They have nothing to say.");
    assert_eq!(npc.speak_dialogue(), "They have nothing to say.");
    assert_eq!(npc.dialogue_counter, 0);
    assert_eq!(npc.current_dialogue.len(), 0);
    let mut lost = talker(&["one"]);
    lost.dialogue_counter = 7;
    assert_eq!(lost.speak_dialogue(), "They have nothing to say.");
    assert_eq!(lost.dialogue_counter, 7);
}

#[test]
fn update_dialogue_for_a_room_without_a_script_leaves_no_lines() {
    let mut npc = talker(&["one", "two"]);
    npc.all_dialogues.insert(3, lines(&["later"]));
    npc.speak_dialogue();
    npc.update_dialogue(8);
    assert_eq!(npc.current_dialogue, Vec::<String>::new());
    assert_eq!(npc.dialogue_counter, 0);
    assert_eq!(npc.all_dialogues.len(), 1);
    assert_eq!(npc.speak_dialogue(), "They have nothing to say.");
    npc.move_to_room(9);
    assert_eq!(npc.current_room, 9);
    assert_eq!(npc.current_dialogue.len(), 0);
    npc.move_to_room(3);
    assert_eq!(npc.speak_dialogue(), "later");
}

#[test]
fn move_to_room_moves_and_takes_the_script() {
    let mut world = World::new();
    world.init_npcs();
    let merlin = &mut world.npcs[0];
    merlin.speak_dialogue();
    merlin.speak_dialogue();
    merlin.move_to_room(3);
    assert_eq!(merlin.current_room, 3);
    assert_eq!(merlin.dialogue_counter, 0);
    assert_eq!(merlin.speak_dialogue(), "Hello again traveler.");
    assert_eq!(merlin.speak_dialogue(), "Thanks for getting rid of that skeleton in the other room.");
    assert_eq!(merlin.speak_dialogue(), "I must be going soon. Take care.");
    assert_eq!(merlin.speak_dialogue(), "I must be going soon. Take care.");
}

#[test]
fn find_item_finds_the_first_of_a_name() {
    let items = vec![
        item("Key", true, false, 0, 0),
        item("Apple", true, true, 5, 0),
        item("Key", false, false, 0, 0),
    ];
    assert_eq!(find_item(&items, "Key"), Some(0));
    assert_eq!(find_item(&items, "Apple"), Some(1));
    assert_eq!(find_item(&items, "apple"), None);
    assert_eq!(find_item(&vec![], "Key"), None);
}

#[test]
fn find_npc_and_names_by_room() {
    let mut world = World::new();
    world.init_npcs();
    world.create_npc("Ghost", vec![], 1, HashMap::new(), 1, 1, true);
    assert_eq!(find_npc(&world.npcs, "Skeleton"), Some(1));
    assert_eq!(find_npc(&world.npcs, "Nobody"), None);
    assert_eq!(
        names_of_npcs_in(&world.npcs, 1),
        vec!["Merlin".to_string(), "Ghost".to_string()]
    );
    assert_eq!(names_of_npcs_in(&world.npcs, 2), vec!["Skeleton".to_string()]);
    assert_eq!(names_of_npcs_in(&world.npcs, 0), Vec::<String>::new());
}

#[test]
fn item_clone_copies_every_field() {
    let apple = item("Apple", true, true, -3, 4);
    let copy = apple.clone();
    assert_eq!(copy.name, "Apple");
    assert_eq!(copy.description, "A Apple.");
    assert!(copy.can_take && copy.can_eat && copy.can_equip);
    assert_eq!(copy.heal_amount, -3);
    assert_eq!(copy.attack_increase_amount, 4);
}

#[test]
fn room_and_npc_clone_copy_every_field() {
    let mut world = World::new();
    world.init_rooms();
    world.init_npcs();
    let room = world.rooms[1].clone();
    assert_eq!(room.name, "Maze Entrance");
    assert_eq!(room.description, world.rooms[1].description);
    assert_eq!(
        names_of_items(&room.items),
        vec!["Broken_Sword".to_string(), "Healing_Grass".to_string()]
    );
    assert_eq!(room.exits.keys(), world.rooms[1].exits.keys());
    assert_eq!(room.exits.get("east"), Some(&3));
    let mut merlin = world.npcs[0].clone();
    merlin.speak_dialogue();
    assert_eq!(merlin.dialogue_counter, 1);
    assert_eq!(world.npcs[0].dialogue_counter, 0);
    assert_eq!(merlin.name, "Merlin");
    assert_eq!(merlin.current_dialogue, world.npcs[0].current_dialogue);
    assert_eq!(merlin.all_dialogues, world.npcs[0].all_dialogues);
    assert_eq!(merlin.current_room, 1);
    assert_eq!(merlin.health_points, 20);
    assert_eq!(merlin.attack_power, 20);
    assert!(!merlin.hostile);
}
