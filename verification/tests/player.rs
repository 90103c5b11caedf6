use cyber_dungeon::game::labels::LabelMap;
use cyber_dungeon::game::player::{Error, Player, BASE_ATTACK, STARTING_HEALTH};
use cyber_dungeon::game::world::{Item, World};

fn item(name: &str, heal: i32, bonus: i32) -> Item {
    Item {
        name: name.to_string(),
        description: String::new(),
        can_take: true,
        can_eat: heal != 0,
        can_equip: bonus != 0,
        heal_amount: heal,
        attack_increase_amount: bonus,
    }
}

fn names(items: &[Item]) -> Vec<&str> {
    items.iter().map(|i| i.name.as_str()).collect()
}

#[test]
fn new_player_has_the_starting_stats() {
    let player = Player::new(3);
    assert_eq!(player.current_room, 3);
    assert_eq!(player.inventory.len(), 0);
    assert_eq!(player.equipment.len(), 0);
    assert_eq!(player.health_points, 100);
    assert_eq!(player.attack_power, 10);
    assert_eq!(STARTING_HEALTH, 100);
    assert_eq!(BASE_ATTACK, 10);
}

#[test]
fn take_item_adds_to_the_end_of_the_inventory() {
    let mut player = Player::new(0);
    player.take_item(item("Key", 0, 0));
    player.take_item(item("Apple", 5, 0));
    assert_eq!(names(&player.inventory), vec!["Key", "Apple"]);
    assert_eq!(player.attack_power, 10);
    assert_eq!(player.health_points, 100);
}

#[test]
fn remove_item_takes_the_first_match() {
    let mut player = Player::new(0);
    player.take_item(item("Key", 1, 0));
    player.take_item(item("Apple", 5, 0));
    player.take_item(item("Key", 2, 0));
    let taken = player.remove_item("Key").unwrap();
    assert_eq!(taken.heal_amount, 1);
    assert_eq!(names(&player.inventory), vec!["Apple", "Key"]);
    assert_eq!(player.inventory[1].heal_amount, 2);
    assert!(player.remove_item("Sword").is_none());
    assert_eq!(names(&player.inventory), vec!["Apple", "Key"]);
}

#[test]
fn equip_item_adds_the_bonus() {
    let mut player = Player::new(0);
    player.equip_item(item("Sword", 0, 10));
    assert_eq!(player.attack_power, 20);
    player.equip_item(item("Ring", 0, -3));
    assert_eq!(player.attack_power, 17);
    assert_eq!(names(&player.equipment), vec!["Sword", "Ring"]);
    assert_eq!(player.inventory.len(), 0);
}

#[test]
fn equip_then_unequip_restores_attack_power() {
    let mut player = Player::new(0);
    player.equip_item(item("Ring", 0, 3));
    let before = player.attack_power;
    player.equip_item(item("Sword", 0, 10));
    assert_eq!(player.attack_power, before + 10);
    let taken = player.unequip_item("Sword").unwrap();
    assert_eq!(taken.name, "Sword");
    assert_eq!(taken.attack_increase_amount, 10);
    assert_eq!(player.attack_power, before);
    assert_eq!(names(&player.equipment), vec!["Ring"]);
}

#[test]
fn unequip_item_that_is_not_worn_changes_nothing() {
    let mut player = Player::new(0);
    player.equip_item(item("Sword", 0, 10));
    assert!(player.unequip_item("Shield").is_none());
    assert_eq!(player.attack_power, 20);
    assert_eq!(names(&player.equipment), vec!["Sword"]);
}

#[test]
fn unequip_item_takes_the_first_of_two_with_one_name() {
    let mut player = Player::new(0);
    player.equip_item(item("Ring", 0, 1));
    player.equip_item(item("Ring", 0, 5));
    assert_eq!(player.attack_power, 16);
    let taken = player.unequip_item("Ring").unwrap();
    assert_eq!(taken.attack_increase_amount, 1);
    assert_eq!(player.attack_power, 15);
}

#[test]
fn move_room_follows_an_exit() {
    let mut world = World::new();
    world.init_rooms();
    let mut player = Player::new(0);
    assert_eq!(player.move_room("north", &world), Ok(()));
    assert_eq!(player.current_room, 1);
    assert_eq!(player.move_room("east", &world), Ok(()));
    assert_eq!(player.current_room, 3);
    assert_eq!(player.move_room("west", &world), Ok(()));
    assert_eq!(player.current_room, 1);
    assert_eq!(player.move_room("south", &world), Ok(()));
    assert_eq!(player.current_room, 0);
}

#[test]
fn move_room_without_such_an_exit_fails_and_stays() {
    let mut world = World::new();
    world.init_rooms();
    let mut player = Player::new(0);
    assert_eq!(player.move_room("south", &world), Err(Error::NoSuchExit));
    assert_eq!(player.current_room, 0);
    assert_eq!(player.move_room("North", &world), Err(Error::NoSuchExit));
    assert_eq!(player.current_room, 0);
}

#[test]
fn move_room_does_not_check_the_target() {
    let mut world = World::new();
    let mut exits = LabelMap::new();
    exits.insert("void".to_string(), 9);
    world.create_room("Edge", "The end of the map.", vec![], exits);
    let mut player = Player::new(0);
    assert_eq!(player.move_room("void", &world), Ok(()));
    assert_eq!(player.current_room, 9);
}

#[test]
fn error_message_is_what_the_player_is_told() {
    assert_eq!(Error::NoSuchExit.message(), "You can't go that way.");
}

#[test]
fn player_clone_copies_every_field() {
    let mut player = Player::new(2);
    player.take_item(item("Apple", 5, 0));
    player.equip_item(item("Sword", 0, 10));
    player.health_points = 42;
    let copy = player.clone();
    player.take_item(item("Pear", 5, 0));
    assert_eq!(copy.current_room, 2);
    assert_eq!(copy.health_points, 42);
    assert_eq!(copy.attack_power, 20);
    assert_eq!(names(&copy.inventory), vec!["Apple"]);
    assert_eq!(names(&copy.equipment), vec!["Sword"]);
}
