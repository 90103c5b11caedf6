//! The command interpreter: one line of text in, one response out, with the
//! player and the world changed as the command says.
use super::labels::labels;
use super::player::{
    fits_i32, lemma_hold_then_remove, lemma_wear_then_take_off, lemma_wearing_consistent,
    lemma_without_gear_consistent, Player, PlayerModel,
};
use super::text::{
    decimal, decimal_string, lemma_position, lemma_position_is, list_string, list_text, position,
    same_text, split_words, texts, tokens,
};
use super::world::{
    find_item, find_npc, item_names, lemma_same_exits_valid, lemma_valid_exit_inside,
    names_of_items, names_of_npcs_in, npc_names, npc_names_in, silence, World, WorldModel,
};
use vstd::seq_lib::{to_multiset_build, to_multiset_contains, to_multiset_remove};
use vstd::prelude::*;
use vstd::string::*;

verus! {

/// What a command leaves behind: the player, the world and what the player
/// is told.
pub struct Outcome {
    pub player: PlayerModel,
    pub world: WorldModel,
    pub response: Seq<char>,
}

/// A command that changes nothing and answers `response`.
pub open spec fn say(p: PlayerModel, w: WorldModel, response: Seq<char>) -> Outcome {
    Outcome { player: p, world: w, response }
}

/// `go` and `move`: walks through the exit that the second word names, and
/// describes the room behind it.
pub open spec fn go(parts: Seq<Seq<char>>, p: PlayerModel, w: WorldModel) -> Outcome {
    if parts.len() < 2 {
        say(p, w, "Go where?"@)
    } else {
        match p.exit_target(w, parts[1]) {
            Some(target) => Outcome {
                player: PlayerModel { current_room: target, ..p },
                world: w,
                response: "You moved to: "@ + w.rooms[target as int].name + ".\n"@
                    + w.rooms[target as int].description,
            },
            None => say(p, w, "You can't go that way."@),
        }
    }
}

/// `look`: describes the room, and lists the items in it, its exits and the
/// characters in it.
pub open spec fn look(p: PlayerModel, w: WorldModel) -> Outcome {
    let room = w.rooms[p.current_room as int];
    say(
        p,
        w,
        room.description + "\nItems here: "@ + list_text(item_names(room.items)) + "\nExits: "@
            + list_text(labels(room.exits)) + "\nNPCs: "@ + list_text(
            npc_names_in(w.npcs, p.current_room),
        ),
    )
}

/// `inventory`: lists what the player carries.
pub open spec fn inventory(p: PlayerModel, w: WorldModel) -> Outcome {
    if p.inventory.len() == 0 {
        say(p, w, "You are not carrying anything."@)
    } else {
        say(p, w, "You are carrying: "@ + list_text(item_names(p.inventory)))
    }
}

/// `take`: moves the first item of that name from the room to the end of
/// the inventory, if it can be taken.
pub open spec fn take(parts: Seq<Seq<char>>, p: PlayerModel, w: WorldModel) -> Outcome {
    if parts.len() < 2 {
        say(p, w, "Take what?"@)
    } else {
        let here = w.rooms[p.current_room as int].items;
        match position(item_names(here), parts[1]) {
            Some(i) => if here[i].can_take {
                Outcome {
                    player: p.holding(here[i]),
                    world: w.with_room_items(p.current_room as int, here.remove(i)),
                    response: "You picked up the "@ + parts[1] + "."@,
                }
            } else {
                say(p, w, "That item cannot be taken."@)
            },
            None => say(p, w, "There's no such item here."@),
        }
    }
}

/// `drop`: moves the first item of that name from the inventory to the end
/// of the room's items.
pub open spec fn drop_item(parts: Seq<Seq<char>>, p: PlayerModel, w: WorldModel) -> Outcome {
    if parts.len() < 2 {
        say(p, w, "Drop what?"@)
    } else {
        let here = w.rooms[p.current_room as int].items;
        match p.carried(parts[1]) {
            Some(i) => Outcome {
                player: p.without_item(parts[1]),
                world: w.with_room_items(p.current_room as int, here.push(p.inventory[i])),
                response: "You dropped the "@ + parts[1] + "."@,
            },
            None => say(p, w, "You don't have that."@),
        }
    }
}

/// The character that `talk` would let speak: the first one of that name,
/// if it is in the player's room.
pub open spec fn listener(parts: Seq<Seq<char>>, p: PlayerModel, w: WorldModel) -> Option<int> {
    if parts.len() < 2 || parts[1] == "self"@ {
        None
    } else {
        match position(npc_names(w.npcs), parts[1]) {
            Some(i) => if w.npcs[i].current_room == p.current_room {
                Some(i)
            } else {
                None
            },
            None => None,
        }
    }
}

/// `talk`: lets the character of that name say its next line, if it is in
/// the player's room. A character that has no line to say stays as it is,
/// and the player is told that it has nothing to say.
pub open spec fn talk(parts: Seq<Seq<char>>, p: PlayerModel, w: WorldModel) -> Outcome {
    if parts.len() < 2 {
        say(p, w, "Talk to whom?"@)
    } else if parts[1] == "self"@ {
        say(p, w, "Why are you talking to yourself?"@)
    } else {
        match listener(parts, p, w) {
            Some(i) => if w.npcs[i].can_speak() {
                Outcome {
                    player: p,
                    world: w.with_npc(i, w.npcs[i].after_speaking()),
                    response: w.npcs[i].line(),
                }
            } else {
                say(p, w, silence())
            },
            None => say(p, w, "They aren't here."@),
        }
    }
}

/// The help page.
pub open spec fn help_text() -> Seq<char> {
    "this is the help page\nyou can view it like this and\nit stays in place\ntest newline"@
}

/// `help`: shows the help page.
pub open spec fn help(p: PlayerModel, w: WorldModel) -> Outcome {
    say(p, w, help_text())
}

/// `eat`: applies the heal amount of the first carried item of that name to
/// the player's health and takes the item out of the inventory, if it can be
/// eaten.
pub open spec fn eat(parts: Seq<Seq<char>>, p: PlayerModel, w: WorldModel) -> Outcome {
    if parts.len() < 2 {
        say(p, w, "Eat what?"@)
    } else {
        match p.carried(parts[1]) {
            Some(i) => if p.inventory[i].can_eat {
                Outcome {
                    player: p.healed(p.inventory[i].heal_amount).without_item(parts[1]),
                    world: w,
                    response: "You ate the "@ + parts[1] + "."@,
                }
            } else {
                say(p, w, "You can't eat that."@)
            },
            None => say(p, w, "You don't have that."@),
        }
    }
}

/// `status`: shows what the player wears, and their health and attack power.
pub open spec fn status(p: PlayerModel, w: WorldModel) -> Outcome {
    say(
        p,
        w,
        "Equipment: "@ + list_text(item_names(p.equipment)) + "\nHP: "@ + decimal(p.health_points)
            + "      AP: "@ + decimal(p.attack_power) + "\n            "@,
    )
}

/// `equip`: moves the first carried item of that name from the inventory to
/// the end of the equipment, unless an item of that name is worn already.
pub open spec fn equip(parts: Seq<Seq<char>>, p: PlayerModel, w: WorldModel) -> Outcome {
    if parts.len() < 2 {
        say(p, w, "Equip what?"@)
    } else if p.worn(parts[1]).is_some() {
        say(p, w, "You've already equipped that."@)
    } else {
        match p.carried(parts[1]) {
            Some(i) => Outcome {
                player: p.without_item(parts[1]).wearing(p.inventory[i]),
                world: w,
                response: "You equipped the "@ + parts[1] + "."@,
            },
            None => say(p, w, "You don't have that."@),
        }
    }
}

/// `unequip`: moves the first worn item of that name from the equipment
/// back to the end of the inventory.
pub open spec fn unequip(parts: Seq<Seq<char>>, p: PlayerModel, w: WorldModel) -> Outcome {
    if parts.len() < 2 {
        say(p, w, "Unequip what?"@)
    } else {
        match p.worn(parts[1]) {
            Some(i) => Outcome {
                player: p.without_gear(parts[1]).holding(p.equipment[i]),
                world: w,
                response: "You unequipped the "@ + parts[1] + "."@,
            },
            None => say(p, w, "You don't have that equipped."@),
        }
    }
}

/// The commands that the interpreter knows.
#[derive(Debug, Clone, Copy, PartialEq, Eq, Structural)]
pub enum Verb {
    /// The line holds no word.
    Nothing,
    /// `go` or `move`: walk through an exit.
    Go,
    /// `look`: describe the room.
    Look,
    /// `inventory`: list what is carried.
    Inventory,
    /// `take`: pick an item up.
    Take,
    /// `drop`: put an item down.
    Drop,
    /// `talk`: let a character speak.
    Talk,
    /// `help`: show the help page.
    Help,
    /// `eat`: eat a carried item.
    Eat,
    /// `status`: show gear, health and attack power.
    Status,
    /// `equip`: put a carried item on.
    Equip,
    /// `unequip`: take a worn item off.
    Unequip,
    /// The first word is no command.
    Unknown,
}

/// The command that the first word of a line names.
pub open spec fn verb_of(parts: Seq<Seq<char>>) -> Verb {
    if parts.len() == 0 {
        Verb::Nothing
    } else if parts[0] == "go"@ || parts[0] == "move"@ {
        Verb::Go
    } else if parts[0] == "look"@ {
        Verb::Look
    } else if parts[0] == "inventory"@ {
        Verb::Inventory
    } else if parts[0] == "take"@ {
        Verb::Take
    } else if parts[0] == "drop"@ {
        Verb::Drop
    } else if parts[0] == "talk"@ {
        Verb::Talk
    } else if parts[0] == "help"@ {
        Verb::Help
    } else if parts[0] == "eat"@ {
        Verb::Eat
    } else if parts[0] == "status"@ {
        Verb::Status
    } else if parts[0] == "equip"@ {
        Verb::Equip
    } else if parts[0] == "unequip"@ {
        Verb::Unequip
    } else {
        Verb::Unknown
    }
}

/// What a command does, given the words of its line. The first word is the
/// verb. A line without words and a verb that is not known change nothing
/// and get the same response.
pub open spec fn run(parts: Seq<Seq<char>>, p: PlayerModel, w: WorldModel) -> Outcome {
    match verb_of(parts) {
        Verb::Nothing => say(p, w, "Unknown command."@),
        Verb::Go => go(parts, p, w),
        Verb::Look => look(p, w),
        Verb::Inventory => inventory(p, w),
        Verb::Take => take(parts, p, w),
        Verb::Drop => drop_item(parts, p, w),
        Verb::Talk => talk(parts, p, w),
        Verb::Help => help(p, w),
        Verb::Eat => eat(parts, p, w),
        Verb::Status => status(p, w),
        Verb::Equip => equip(parts, p, w),
        Verb::Unequip => unequip(parts, p, w),
        Verb::Unknown => say(p, w, "Unknown command."@),
    }
}

/// Tells whether a command can be carried out: the player stands in a room of
/// the world and is in one afterwards, and the health and the attack power
/// that the command leaves fit their type.
pub open spec fn ready(parts: Seq<Seq<char>>, p: PlayerModel, w: WorldModel) -> bool {
    &&& p.inside(w)
    &&& run(parts, p, w).player.inside(w)
    &&& fits_i32(run(parts, p, w).player.health_points)
    &&& fits_i32(run(parts, p, w).player.attack_power)
}

fn text3(first: &str, second: &str, third: &str) -> (text: String)
    ensures
        text@ == first@ + second@ + third@,
{
    let mut text = String::from_str(first);
    text.append(second);
    text.append(third);
    text
}

fn do_go(parts: &Vec<String>, player: &mut Player, world: &World) -> (response: String)
    requires
        old(player)@.inside(world@),
        go(texts(parts@), old(player)@, world@).player.inside(world@),
    ensures
        final(player)@ == go(texts(parts@), old(player)@, world@).player,
        response@ == go(texts(parts@), old(player)@, world@).response,
{
    if parts.len() < 2 {
        return String::from_str("Go where?");
    }
    match player.move_room(parts[1].as_str(), world) {
        Ok(_) => {
            let current_room = &world.rooms[player.current_room];
            let mut response = text3("You moved to: ", current_room.name.as_str(), ".\n");
            response.append(current_room.description.as_str());
            response
        },
        Err(err) => err.message(),
    }
}

fn do_look(player: &Player, world: &World) -> (response: String)
    requires
        player@.inside(world@),
    ensures
        response@ == look(player@, world@).response,
{
    let current_room = &world.rooms[player.current_room];
    let items = list_string(&names_of_items(&current_room.items));
    let exits = list_string(&current_room.exits.keys());
    let npcs = list_string(&names_of_npcs_in(&world.npcs, player.current_room));
    let mut response = text3(current_room.description.as_str(), "\nItems here: ", items.as_str());
    response.append("\nExits: ");
    response.append(exits.as_str());
    response.append("\nNPCs: ");
    response.append(npcs.as_str());
    response
}

fn do_inventory(player: &Player, world: &World) -> (response: String)
    ensures
        response@ == inventory(player@, world@).response,
{
    if player.inventory.len() == 0 {
        String::from_str("You are not carrying anything.")
    } else {
        let items = list_string(&names_of_items(&player.inventory));
        let mut response = String::from_str("You are carrying: ");
        response.append(items.as_str());
        response
    }
}

fn do_take(parts: &Vec<String>, player: &mut Player, world: &mut World) -> (response: String)
    requires
        old(player)@.inside(old(world)@),
    ensures
        final(player)@ == take(texts(parts@), old(player)@, old(world)@).player,
        final(world)@ == take(texts(parts@), old(player)@, old(world)@).world,
        response@ == take(texts(parts@), old(player)@, old(world)@).response,
{
    if parts.len() < 2 {
        return String::from_str("Take what?");
    }
    let item_name = parts[1].as_str();
    let room = player.current_room;
    match find_item(&world.rooms[room].items, item_name) {
        Some(i) => {
            if world.rooms[room].items[i].can_take {
                let ghost here = old(world)@.rooms[room as int].items;
                let item = world.rooms[room].items.remove(i);
                assert(world@.rooms[room as int].items =~= here.remove(i as int));
                assert(world@.rooms =~= old(world)@.with_room_items(
                    room as int,
                    here.remove(i as int),
                ).rooms);
                player.take_item(item);
                text3("You picked up the ", item_name, ".")
            } else {
                String::from_str("That item cannot be taken.")
            }
        },
        None => String::from_str("There's no such item here."),
    }
}

fn do_drop(parts: &Vec<String>, player: &mut Player, world: &mut World) -> (response: String)
    requires
        old(player)@.inside(old(world)@),
    ensures
        final(player)@ == drop_item(texts(parts@), old(player)@, old(world)@).player,
        final(world)@ == drop_item(texts(parts@), old(player)@, old(world)@).world,
        response@ == drop_item(texts(parts@), old(player)@, old(world)@).response,
{
    if parts.len() < 2 {
        return String::from_str("Drop what?");
    }
    let item_name = parts[1].as_str();
    let room = player.current_room;
    match player.remove_item(item_name) {
        Some(item) => {
            let ghost here = old(world)@.rooms[room as int].items;
            world.rooms[room].items.push(item);
            assert(world@.rooms[room as int].items =~= here.push(item@));
            assert(world@.rooms =~= old(world)@.with_room_items(
                room as int,
                here.push(item@),
            ).rooms);
            text3("You dropped the ", item_name, ".")
        },
        None => String::from_str("You don't have that."),
    }
}

fn do_talk(parts: &Vec<String>, player: &Player, world: &mut World) -> (response: String)
    ensures
        final(world)@ == talk(texts(parts@), player@, old(world)@).world,
        response@ == talk(texts(parts@), player@, old(world)@).response,
{
    if parts.len() < 2 {
        return String::from_str("Talk to whom?");
    }
    let npc_name = parts[1].as_str();
    if same_text(npc_name, "self") {
        return String::from_str("Why are you talking to yourself?");
    }
    match find_npc(&world.npcs, npc_name) {
        Some(i) => {
            if world.npcs[i].current_room != player.current_room {
                String::from_str("They aren't here.")
            } else if world.npcs[i].dialogue_counter < world.npcs[i].current_dialogue.len() {
                let line = world.npcs[i].speak_dialogue();
                assert(world@.npcs =~= old(world)@.npcs.update(
                    i as int,
                    old(world)@.npcs[i as int].after_speaking(),
                ));
                line
            } else {
                String::from_str("They have nothing to say.")
            }
        },
        None => String::from_str("They aren't here."),
    }
}

fn do_help() -> (response: String)
    ensures
        response@ == help_text(),
{
    String::from_str(
        "this is the help page\nyou can view it like this and\nit stays in place\ntest newline",
    )
}

fn do_eat(parts: &Vec<String>, player: &mut Player, world: &World) -> (response: String)
    requires
        fits_i32(eat(texts(parts@), old(player)@, world@).player.health_points),
    ensures
        final(player)@ == eat(texts(parts@), old(player)@, world@).player,
        response@ == eat(texts(parts@), old(player)@, world@).response,
{
    if parts.len() < 2 {
        return String::from_str("Eat what?");
    }
    let item_name = parts[1].as_str();
    match find_item(&player.inventory, item_name) {
        Some(i) => {
            if player.inventory[i].can_eat {
                player.health_points = player.health_points + player.inventory[i].heal_amount;
                player.remove_item(item_name);
                text3("You ate the ", item_name, ".")
            } else {
                String::from_str("You can't eat that.")
            }
        },
        None => String::from_str("You don't have that."),
    }
}

fn do_status(player: &Player, world: &World) -> (response: String)
    ensures
        response@ == status(player@, world@).response,
{
    let gear = list_string(&names_of_items(&player.equipment));
    let health = decimal_string(player.health_points as i64);
    let attack = decimal_string(player.attack_power as i64);
    let mut response = text3("Equipment: ", gear.as_str(), "\nHP: ");
    response.append(health.as_str());
    response.append("      AP: ");
    response.append(attack.as_str());
    response.append("\n            ");
    response
}

fn do_equip(parts: &Vec<String>, player: &mut Player, world: &World) -> (response: String)
    requires
        fits_i32(equip(texts(parts@), old(player)@, world@).player.attack_power),
    ensures
        final(player)@ == equip(texts(parts@), old(player)@, world@).player,
        response@ == equip(texts(parts@), old(player)@, world@).response,
{
    if parts.len() < 2 {
        return String::from_str("Equip what?");
    }
    let item_name = parts[1].as_str();
    if find_item(&player.equipment, item_name).is_some() {
        return String::from_str("You've already equipped that.");
    }
    match player.remove_item(item_name) {
        Some(item) => {
            player.equip_item(item);
            text3("You equipped the ", item_name, ".")
        },
        None => String::from_str("You don't have that."),
    }
}

fn do_unequip(parts: &Vec<String>, player: &mut Player, world: &World) -> (response: String)
    requires
        fits_i32(unequip(texts(parts@), old(player)@, world@).player.attack_power),
    ensures
        final(player)@ == unequip(texts(parts@), old(player)@, world@).player,
        response@ == unequip(texts(parts@), old(player)@, world@).response,
{
    if parts.len() < 2 {
        return String::from_str("Unequip what?");
    }
    let item_name = parts[1].as_str();
    match player.unequip_item(item_name) {
        Some(item) => {
            player.take_item(item);
            text3("You unequipped the ", item_name, ".")
        },
        None => String::from_str("You don't have that equipped."),
    }
}

/// Reads the command that the first word of a line names.
pub fn parse_verb(parts: &Vec<String>) -> (verb: Verb)
    ensures
        verb == verb_of(texts(parts@)),
{
    if parts.len() == 0 {
        return Verb::Nothing;
    }
    let word = parts[0].as_str();
    if same_text(word, "go") || same_text(word, "move") {
        Verb::Go
    } else if same_text(word, "look") {
        Verb::Look
    } else if same_text(word, "inventory") {
        Verb::Inventory
    } else if same_text(word, "take") {
        Verb::Take
    } else if same_text(word, "drop") {
        Verb::Drop
    } else if same_text(word, "talk") {
        Verb::Talk
    } else if same_text(word, "help") {
        Verb::Help
    } else if same_text(word, "eat") {
        Verb::Eat
    } else if same_text(word, "status") {
        Verb::Status
    } else if same_text(word, "equip") {
        Verb::Equip
    } else if same_text(word, "unequip") {
        Verb::Unequip
    } else {
        Verb::Unknown
    }
}

/// Carries out the command whose words are `parts`, and returns what the
/// player is told.
pub fn execute(parts: &Vec<String>, player: &mut Player, world: &mut World) -> (response: String)
    requires
        ready(texts(parts@), old(player)@, old(world)@),
    ensures
        final(player)@ == run(texts(parts@), old(player)@, old(world)@).player,
        final(world)@ == run(texts(parts@), old(player)@, old(world)@).world,
        response@ == run(texts(parts@), old(player)@, old(world)@).response,
        old(world)@.same_map(final(world)@),
        final(player)@.inside(final(world)@),
        old(world)@.valid() ==> final(world)@.valid(),
{
    proof {
        lemma_run_keeps_map(texts(parts@), player@, world@);
    }
    match parse_verb(parts) {
        Verb::Nothing => String::from_str("Unknown command."),
        Verb::Go => do_go(parts, player, world),
        Verb::Look => do_look(player, world),
        Verb::Inventory => do_inventory(player, world),
        Verb::Take => do_take(parts, player, world),
        Verb::Drop => do_drop(parts, player, world),
        Verb::Talk => do_talk(parts, player, world),
        Verb::Help => do_help(),
        Verb::Eat => do_eat(parts, player, world),
        Verb::Status => do_status(player, world),
        Verb::Equip => do_equip(parts, player, world),
        Verb::Unequip => do_unequip(parts, player, world),
        Verb::Unknown => String::from_str("Unknown command."),
    }
}

/// Carries out one line of input, and returns what the player is told. The
/// line is split at white space; its first word is the verb.
pub fn process_command(command: &str, player: &mut Player, world: &mut World) -> (response: String)
    requires
        ready(tokens(command@), old(player)@, old(world)@),
    ensures
        final(player)@ == run(tokens(command@), old(player)@, old(world)@).player,
        final(world)@ == run(tokens(command@), old(player)@, old(world)@).world,
        response@ == run(tokens(command@), old(player)@, old(world)@).response,
        old(world)@.same_map(final(world)@),
        final(player)@.inside(final(world)@),
        old(world)@.valid() ==> final(world)@.valid(),
{
    let parts = split_words(command);
    execute(&parts, player, world)
}

fn sum_fits(a: i32, b: i32) -> (ok: bool)
    ensures
        ok == fits_i32(a + b),
{
    let sum: i64 = a as i64 + b as i64;
    -2147483648 <= sum && sum <= 2147483647
}

fn difference_fits(a: i32, b: i32) -> (ok: bool)
    ensures
        ok == fits_i32(a - b),
{
    let difference: i64 = a as i64 - b as i64;
    -2147483648 <= difference && difference <= 2147483647
}

/// Tells whether the command whose words are `parts` can be carried out.
pub fn is_ready(parts: &Vec<String>, player: &Player, world: &World) -> (ok: bool)
    ensures
        ok == ready(texts(parts@), player@, world@),
{
    if player.current_room >= world.rooms.len() {
        return false;
    }
    match parse_verb(parts) {
        Verb::Go => {
            if parts.len() < 2 {
                true
            } else {
                match world.rooms[player.current_room].exits.get(parts[1].as_str()) {
                    Some(target) => *target < world.rooms.len(),
                    None => true,
                }
            }
        },
        Verb::Eat => {
            if parts.len() < 2 {
                true
            } else {
                match find_item(&player.inventory, parts[1].as_str()) {
                    Some(i) => !player.inventory[i].can_eat || sum_fits(
                        player.health_points,
                        player.inventory[i].heal_amount,
                    ),
                    None => true,
                }
            }
        },
        Verb::Equip => {
            if parts.len() < 2 || find_item(&player.equipment, parts[1].as_str()).is_some() {
                true
            } else {
                match find_item(&player.inventory, parts[1].as_str()) {
                    Some(i) => sum_fits(
                        player.attack_power,
                        player.inventory[i].attack_increase_amount,
                    ),
                    None => true,
                }
            }
        },
        Verb::Unequip => {
            if parts.len() < 2 {
                true
            } else {
                match find_item(&player.equipment, parts[1].as_str()) {
                    Some(i) => difference_fits(
                        player.attack_power,
                        player.equipment[i].attack_increase_amount,
                    ),
                    None => true,
                }
            }
        },
        _ => true,
    }
}

/// Carries out one line of input if it can be carried out, and returns what
/// the player is told. Where it cannot, nothing changes and there is no
/// response.
pub fn try_process_command(command: &str, player: &mut Player, world: &mut World) -> (response:
    Option<String>)
    ensures
        match response {
            Some(text) => {
                &&& ready(tokens(command@), old(player)@, old(world)@)
                &&& final(player)@ == run(tokens(command@), old(player)@, old(world)@).player
                &&& final(world)@ == run(tokens(command@), old(player)@, old(world)@).world
                &&& text@ == run(tokens(command@), old(player)@, old(world)@).response
            },
            None => {
                &&& !ready(tokens(command@), old(player)@, old(world)@)
                &&& final(player)@ == old(player)@
                &&& final(world)@ == old(world)@
            },
        },
        old(world)@.same_map(final(world)@),
        old(player)@.inside(old(world)@) ==> final(player)@.inside(final(world)@),
        old(world)@.valid() ==> final(world)@.valid(),
        old(world)@.valid() && old(player)@.inside(old(world)@) && response.is_none() ==> !(
        fits_i32(run(tokens(command@), old(player)@, old(world)@).player.health_points)
            && fits_i32(run(tokens(command@), old(player)@, old(world)@).player.attack_power)),
{
    let parts = split_words(command);
    proof {
        if world@.valid() && player@.inside(world@) {
            lemma_ready_in_valid_world(texts(parts@), player@, world@);
        }
    }
    if is_ready(&parts, player, world) {
        Some(execute(&parts, player, world))
    } else {
        None
    }
}

/// No command adds, removes or renames a room, or touches an exit.
pub proof fn lemma_run_keeps_map(parts: Seq<Seq<char>>, p: PlayerModel, w: WorldModel)
    requires
        p.inside(w),
    ensures
        w.same_map(run(parts, p, w).world),
        w.valid() ==> run(parts, p, w).world.valid(),
{
    let after = run(parts, p, w).world;
    assert(w.same_map(after));
    if w.valid() {
        lemma_same_exits_valid(w, after);
    }
}

/// No command touches an exit: a valid world stays valid.
pub proof fn lemma_run_keeps_world_valid(parts: Seq<Seq<char>>, p: PlayerModel, w: WorldModel)
    requires
        w.valid(),
        p.inside(w),
    ensures
        run(parts, p, w).world.valid(),
{
    lemma_run_keeps_map(parts, p, w);
}

/// In a valid world no command leads the player out of it, so every move
/// through an exit can be carried out.
pub proof fn lemma_valid_world_keeps_player_inside(
    parts: Seq<Seq<char>>,
    p: PlayerModel,
    w: WorldModel,
)
    requires
        w.valid(),
        p.inside(w),
    ensures
        run(parts, p, w).player.inside(run(parts, p, w).world),
{
    if parts.len() >= 2 {
        lemma_valid_exit_inside(w, p.current_room as int, parts[1]);
    }
}

/// No command lets the attack power drift from the base plus the bonuses of
/// what is worn.
pub proof fn lemma_run_keeps_player_consistent(
    parts: Seq<Seq<char>>,
    p: PlayerModel,
    w: WorldModel,
)
    requires
        p.consistent(),
    ensures
        run(parts, p, w).player.consistent(),
{
    if parts.len() >= 2 {
        match verb_of(parts) {
            Verb::Equip => {
                match p.carried(parts[1]) {
                    Some(i) => {
                        lemma_wearing_consistent(p.without_item(parts[1]), p.inventory[i]);
                    },
                    None => {},
                }
            },
            Verb::Unequip => {
                lemma_without_gear_consistent(p, parts[1]);
            },
            _ => {},
        }
    }
}

/// Taking an item and dropping it again puts the same items back in the
/// room, the item itself at the end of the list, and restores the player.
/// This holds when the player carried nothing of that name before: a drop
/// lets go of the first carried item of the name, which would then be
/// another one.
pub proof fn lemma_take_then_drop(
    first: Seq<Seq<char>>,
    second: Seq<Seq<char>>,
    p: PlayerModel,
    w: WorldModel,
)
    requires
        p.inside(w),
        verb_of(first) == Verb::Take,
        verb_of(second) == Verb::Drop,
        first.len() >= 2,
        second.len() >= 2,
        first[1] == second[1],
        p.carried(first[1]).is_none(),
        position(item_names(w.rooms[p.current_room as int].items), first[1]).is_some(),
        w.rooms[p.current_room as int].items[position(
            item_names(w.rooms[p.current_room as int].items),
            first[1],
        ).unwrap()].can_take,
    ensures
        ({
            let here = w.rooms[p.current_room as int].items;
            let taken = run(first, p, w);
            let dropped = run(second, taken.player, taken.world);
            let i = position(item_names(here), first[1]).unwrap();
            &&& 0 <= i < here.len()
            &&& dropped.player == p
            &&& dropped.world == w.with_room_items(
                p.current_room as int,
                here.remove(i).push(here[i]),
            )
            &&& dropped.world.rooms[p.current_room as int].items.to_multiset()
                == here.to_multiset()
        }),
{
    let name = first[1];
    let room = p.current_room as int;
    let here = w.rooms[room].items;
    lemma_position(item_names(here), name);
    let i = position(item_names(here), name).unwrap();
    let taken = run(first, p, w);
    lemma_hold_then_remove(p, here[i]);
    let carried = item_names(taken.player.inventory);
    assert(carried =~= item_names(p.inventory).push(name));
    lemma_position(item_names(p.inventory), name);
    lemma_position_is(carried, name, p.inventory.len() as int);
    let dropped = run(second, taken.player, taken.world);
    assert(dropped.world.rooms =~= w.with_room_items(room, here.remove(i).push(here[i])).rooms);
    to_multiset_build(here.remove(i), here[i]);
    to_multiset_remove(here, i);
    to_multiset_contains(here, here[i]);
}

/// Equipping an item and unequipping it again restores the attack power
/// exactly, and the equipment with it. The player carries the same items as
/// before, the item itself now at the end of the inventory.
pub proof fn lemma_equip_then_unequip(
    first: Seq<Seq<char>>,
    second: Seq<Seq<char>>,
    p: PlayerModel,
    w: WorldModel,
)
    requires
        verb_of(first) == Verb::Equip,
        verb_of(second) == Verb::Unequip,
        first.len() >= 2,
        second.len() >= 2,
        first[1] == second[1],
        p.worn(first[1]).is_none(),
        p.carried(first[1]).is_some(),
    ensures
        ({
            let i = p.carried(first[1]).unwrap();
            let equipped = run(first, p, w);
            let after = run(second, equipped.player, equipped.world);
            &&& 0 <= i < p.inventory.len()
            &&& equipped.player.attack_power == p.attack_power
                + p.inventory[i].attack_increase_amount
            &&& after.player == (PlayerModel {
                inventory: p.inventory.remove(i).push(p.inventory[i]),
                ..p
            })
            &&& after.player.inventory.to_multiset() == p.inventory.to_multiset()
            &&& after.world == w
            &&& ready(first, p, w) && fits_i32(p.attack_power) ==> ready(
                second,
                equipped.player,
                equipped.world,
            )
        }),
{
    let name = first[1];
    lemma_position(item_names(p.inventory), name);
    let i = p.carried(name).unwrap();
    let item = p.inventory[i];
    let bare = p.without_item(name);
    lemma_wear_then_take_off(bare, item);
    let worn = bare.wearing(item);
    let names = item_names(worn.equipment);
    assert(names =~= item_names(p.equipment).push(name));
    lemma_position(item_names(p.equipment), name);
    lemma_position_is(names, name, p.equipment.len() as int);
    to_multiset_build(p.inventory.remove(i), item);
    to_multiset_remove(p.inventory, i);
    to_multiset_contains(p.inventory, item);
}

/// Eating an item changes the health by exactly its heal amount, and takes
/// exactly that one item out of the inventory.
pub proof fn lemma_eat_effect(parts: Seq<Seq<char>>, p: PlayerModel, w: WorldModel)
    requires
        verb_of(parts) == Verb::Eat,
        parts.len() >= 2,
        p.carried(parts[1]).is_some(),
        p.inventory[p.carried(parts[1]).unwrap()].can_eat,
    ensures
        ({
            let i = p.carried(parts[1]).unwrap();
            let after = run(parts, p, w).player;
            &&& 0 <= i < p.inventory.len()
            &&& after.health_points == p.health_points + p.inventory[i].heal_amount
            &&& after.inventory == p.inventory.remove(i)
            &&& after.inventory.len() == p.inventory.len() - 1
            &&& after.inventory.to_multiset() == p.inventory.to_multiset().remove(p.inventory[i])
            &&& after.attack_power == p.attack_power
            &&& after.equipment == p.equipment
            &&& after.current_room == p.current_room
            &&& run(parts, p, w).world == w
            &&& ready(parts, p, w) <==> p.inside(w) && fits_i32(
                p.health_points + p.inventory[i].heal_amount,
            ) && fits_i32(p.attack_power)
        }),
{
    lemma_position(item_names(p.inventory), parts[1]);
    let i = p.carried(parts[1]).unwrap();
    to_multiset_remove(p.inventory, i);
}

/// Going where the room has no exit changes nothing, and the player is told so.
pub proof fn lemma_go_without_exit(parts: Seq<Seq<char>>, p: PlayerModel, w: WorldModel)
    requires
        verb_of(parts) == Verb::Go,
        parts.len() >= 2,
        p.exit_target(w, parts[1]).is_none(),
    ensures
        run(parts, p, w) == say(p, w, "You can't go that way."@),
{
}

/// A line without words and a line whose first word is no command change
/// nothing, and both are answered in the same words.
pub proof fn lemma_unknown_changes_nothing(parts: Seq<Seq<char>>, p: PlayerModel, w: WorldModel)
    requires
        verb_of(parts) == Verb::Nothing || verb_of(parts) == Verb::Unknown,
    ensures
        run(parts, p, w) == say(p, w, "Unknown command."@),
{
}

/// Looking, listing the inventory, showing the status and asking for help
/// change nothing.
pub proof fn lemma_looking_changes_nothing(parts: Seq<Seq<char>>, p: PlayerModel, w: WorldModel)
    requires
        verb_of(parts) == Verb::Look || verb_of(parts) == Verb::Inventory || verb_of(parts)
            == Verb::Status || verb_of(parts) == Verb::Help,
    ensures
        run(parts, p, w).player == p,
        run(parts, p, w).world == w,
{
}

/// Tells whether a command does what its verb is for, rather than being
/// turned down: there is a second word, and the exit, the item or the
/// character that it names is there and fit for the verb.
pub open spec fn succeeds(parts: Seq<Seq<char>>, p: PlayerModel, w: WorldModel) -> bool {
    let here = w.rooms[p.current_room as int].items;
    parts.len() >= 2 && match verb_of(parts) {
        Verb::Go => p.exit_target(w, parts[1]).is_some(),
        Verb::Take => match position(item_names(here), parts[1]) {
            Some(i) => here[i].can_take,
            None => false,
        },
        Verb::Drop => p.carried(parts[1]).is_some(),
        Verb::Talk => match listener(parts, p, w) {
            Some(i) => w.npcs[i].can_speak(),
            None => false,
        },
        Verb::Eat => match p.carried(parts[1]) {
            Some(i) => p.inventory[i].can_eat,
            None => false,
        },
        Verb::Equip => p.worn(parts[1]).is_none() && p.carried(parts[1]).is_some(),
        Verb::Unequip => p.worn(parts[1]).is_some(),
        _ => false,
    }
}

/// A command that is turned down changes nothing: not the player, not the
/// world, no cursor of any character.
pub proof fn lemma_failure_changes_nothing(parts: Seq<Seq<char>>, p: PlayerModel, w: WorldModel)
    requires
        !succeeds(parts, p, w),
    ensures
        run(parts, p, w).player == p,
        run(parts, p, w).world == w,
{
}

/// Talking to a character in the room that has no line to say changes
/// nothing, and the player is told that it has nothing to say.
pub proof fn lemma_talk_to_the_silent(parts: Seq<Seq<char>>, p: PlayerModel, w: WorldModel)
    requires
        verb_of(parts) == Verb::Talk,
        listener(parts, p, w).is_some(),
        !w.npcs[listener(parts, p, w).unwrap()].can_speak(),
    ensures
        run(parts, p, w) == say(p, w, silence()),
{
}

/// In a valid world only numbers that leave their range stand in the way of
/// a command: every command of a player who is inside can be carried out
/// when the health and the attack power that it leaves fit their type. Going
/// and talking leave both as they are, so they can always be carried out.
pub proof fn lemma_ready_in_valid_world(parts: Seq<Seq<char>>, p: PlayerModel, w: WorldModel)
    requires
        w.valid(),
        p.inside(w),
    ensures
        ready(parts, p, w) <==> fits_i32(run(parts, p, w).player.health_points) && fits_i32(
            run(parts, p, w).player.attack_power,
        ),
        verb_of(parts) == Verb::Go || verb_of(parts) == Verb::Talk ==> run(
            parts,
            p,
            w,
        ).player.health_points == p.health_points && run(parts, p, w).player.attack_power
            == p.attack_power,
{
    lemma_valid_world_keeps_player_inside(parts, p, w);
}

} // verus!
