//! The world: rooms joined by labelled exits, the items that lie in them, the
//! characters that live in them, and a bag of named flags.
use super::labels::{labels, lemma_lookup_stored, lemma_stored_new, lookup, stored, LabelMap};
use super::text::{lemma_position, position, position_from, same_text, texts};
use std::collections::HashMap;
use vstd::prelude::*;
use vstd::string::*;

verus! {

/// What an item is, as plain values.
pub struct ItemModel {
    pub name: Seq<char>,
    pub description: Seq<char>,
    pub can_take: bool,
    pub can_eat: bool,
    pub can_equip: bool,
    pub heal_amount: int,
    pub attack_increase_amount: int,
}

/// A thing that lies in a room or is carried. It is found by its name. Eating
/// it changes health by `heal_amount`, which may be negative; wearing it
/// changes attack power by `attack_increase_amount`.
#[derive(Debug)]
pub struct Item {
    pub name: String,
    pub description: String,
    pub can_take: bool,
    pub can_eat: bool,
    pub can_equip: bool,
    pub heal_amount: i32,
    pub attack_increase_amount: i32,
}

impl View for Item {
    type V = ItemModel;

    open spec fn view(&self) -> ItemModel {
        ItemModel {
            name: self.name@,
            description: self.description@,
            can_take: self.can_take,
            can_eat: self.can_eat,
            can_equip: self.can_equip,
            heal_amount: self.heal_amount as int,
            attack_increase_amount: self.attack_increase_amount as int,
        }
    }
}

impl Clone for Item {
    /// A copy that is equal to the item in every field.
    fn clone(&self) -> (copy: Self)
        ensures
            copy@ == self@,
    {
        Item {
            name: self.name.clone(),
            description: self.description.clone(),
            can_take: self.can_take,
            can_eat: self.can_eat,
            can_equip: self.can_equip,
            heal_amount: self.heal_amount,
            attack_increase_amount: self.attack_increase_amount,
        }
    }
}

/// The models of a list of items, in order.
pub open spec fn item_models(items: Seq<Item>) -> Seq<ItemModel> {
    Seq::new(items.len(), |i: int| items[i]@)
}

/// The names of a list of items, in order.
pub open spec fn item_names(items: Seq<ItemModel>) -> Seq<Seq<char>> {
    Seq::new(items.len(), |i: int| items[i].name)
}

/// Looks for the first item called `name`.
pub fn find_item(items: &Vec<Item>, name: &str) -> (at: Option<usize>)
    ensures
        match at {
            Some(i) => i < items.len() && position(item_names(item_models(items@)), name@)
                == Some(i as int),
            None => position(item_names(item_models(items@)), name@).is_none(),
        },
{
    let ghost names = item_names(item_models(items@));
    let mut i: usize = 0;
    while i < items.len()
        invariant
            i <= items.len(),
            names == item_names(item_models(items@)),
            position(names, name@) == position_from(names, name@, i as int),
        decreases items.len() - i,
    {
        if same_text(items[i].name.as_str(), name) {
            return Some(i);
        }
        i = i + 1;
    }
    None
}

/// The names of a list of items.
pub fn names_of_items(items: &Vec<Item>) -> (names: Vec<String>)
    ensures
        texts(names@) == item_names(item_models(items@)),
{
    let mut names: Vec<String> = Vec::new();
    let mut i: usize = 0;
    while i < items.len()
        invariant
            i <= items.len(),
            names.len() == i,
            forall|k: int| 0 <= k < i ==> names@[k]@ == items@[k].name@,
        decreases items.len() - i,
    {
        names.push(items[i].name.clone());
        i = i + 1;
    }
    names
}

/// What a room is, as plain values. An exit is a label and the index of the
/// room it leads to.
pub struct RoomModel {
    pub name: Seq<char>,
    pub description: Seq<char>,
    pub items: Seq<ItemModel>,
    pub exits: Seq<(Seq<char>, usize)>,
}

/// A place. It is known by its index in the world's list of rooms.
#[derive(Debug)]
pub struct Room {
    pub name: String,
    pub description: String,
    pub items: Vec<Item>,
    pub exits: LabelMap<usize>,
}

impl View for Room {
    type V = RoomModel;

    open spec fn view(&self) -> RoomModel {
        RoomModel {
            name: self.name@,
            description: self.description@,
            items: item_models(self.items@),
            exits: self.exits@,
        }
    }
}

impl Clone for Room {
    /// A copy that is equal to the room in every field.
    fn clone(&self) -> (copy: Self)
        ensures
            copy@ == self@,
    {
        let items = self.items.clone();
        assert(item_models(items@) =~= item_models(self.items@));
        let exits = self.exits.clone();
        assert(exits@ =~= self.exits@) by {
            assert(labels(exits@).len() == labels(self.exits@).len());
            assert forall|i: int| 0 <= i < self.exits@.len() implies exits@[i]
                == self.exits@[i] by {
                assert(labels(exits@)[i] == labels(self.exits@)[i]);
            }
        }
        Room { name: self.name.clone(), description: self.description.clone(), items, exits }
    }
}

/// The models of a list of rooms, in order.
pub open spec fn room_models(rooms: Seq<Room>) -> Seq<RoomModel> {
    Seq::new(rooms.len(), |i: int| rooms[i]@)
}

/// What a character is, as plain values.
pub struct NpcModel {
    pub name: Seq<char>,
    pub current_dialogue: Seq<Seq<char>>,
    pub current_room: usize,
    pub all_dialogues: Map<usize, Seq<Seq<char>>>,
    pub dialogue_counter: nat,
    pub health_points: int,
    pub attack_power: int,
    pub hostile: bool,
}

/// What is said for a character that has no line to say.
pub open spec fn silence() -> Seq<char> {
    "They have nothing to say."@
}

impl NpcModel {
    /// Tells whether the cursor points at a line of the script.
    pub open spec fn can_speak(self) -> bool {
        self.dialogue_counter < self.current_dialogue.len()
    }

    /// What the character says next: the line under the cursor, or, where
    /// there is none, that it has nothing to say.
    pub open spec fn line(self) -> Seq<char> {
        if self.can_speak() {
            self.current_dialogue[self.dialogue_counter as int]
        } else {
            silence()
        }
    }

    /// The character after it has spoken: the cursor is one line further,
    /// unless it was on the last line, where it stays.
    pub open spec fn after_speaking(self) -> NpcModel {
        if self.dialogue_counter + 1 < self.current_dialogue.len() {
            NpcModel { dialogue_counter: self.dialogue_counter + 1, ..self }
        } else {
            self
        }
    }

    /// The character after it took up the script it has for `room`, from
    /// the first line. Where it has none for that room, its script is empty.
    pub open spec fn with_script_of(self, room: usize) -> NpcModel {
        if self.all_dialogues.contains_key(room) {
            NpcModel { current_dialogue: self.all_dialogues[room], dialogue_counter: 0, ..self }
        } else {
            NpcModel { current_dialogue: Seq::empty(), dialogue_counter: 0, ..self }
        }
    }

    /// The character after `count` lines spoken.
    pub open spec fn after_lines(self, count: nat) -> NpcModel
        decreases count,
    {
        if count == 0 {
            self
        } else {
            self.after_lines((count - 1) as nat).after_speaking()
        }
    }
}

/// A character of the world, friendly or hostile. It is known by its index in
/// the world's list of characters.
#[derive(Debug)]
pub struct Npc {
    pub name: String,
    pub current_dialogue: Vec<String>,
    pub current_room: usize,
    pub all_dialogues: HashMap<usize, Vec<String>>,
    pub dialogue_counter: usize,
    pub health_points: i32,
    pub attack_power: i32,
    pub hostile: bool,
}

impl View for Npc {
    type V = NpcModel;

    open spec fn view(&self) -> NpcModel {
        NpcModel {
            name: self.name@,
            current_dialogue: texts(self.current_dialogue@),
            current_room: self.current_room,
            all_dialogues: script_models(self.all_dialogues@),
            dialogue_counter: self.dialogue_counter as nat,
            health_points: self.health_points as int,
            attack_power: self.attack_power as int,
            hostile: self.hostile,
        }
    }
}

impl Clone for Npc {
    /// A copy that is equal to the character in every field.
    fn clone(&self) -> (copy: Self)
        ensures
            copy@ == self@,
    {
        let current_dialogue = self.current_dialogue.clone();
        Npc {
            name: self.name.clone(),
            current_dialogue,
            current_room: self.current_room,
            all_dialogues: self.all_dialogues.clone(),
            dialogue_counter: self.dialogue_counter,
            health_points: self.health_points,
            attack_power: self.attack_power,
            hostile: self.hostile,
        }
    }
}

/// The models of a list of characters, in order.
pub open spec fn npc_models(npcs: Seq<Npc>) -> Seq<NpcModel> {
    Seq::new(npcs.len(), |i: int| npcs[i]@)
}

/// The names of a list of characters, in order.
pub open spec fn npc_names(npcs: Seq<NpcModel>) -> Seq<Seq<char>> {
    Seq::new(npcs.len(), |i: int| npcs[i].name)
}

/// The names of the characters that are in `room`, in the order of the list.
pub open spec fn npc_names_in(npcs: Seq<NpcModel>, room: usize) -> Seq<Seq<char>>
    decreases npcs.len(),
{
    if npcs.len() == 0 {
        Seq::empty()
    } else if npcs.last().current_room == room {
        npc_names_in(npcs.drop_last(), room).push(npcs.last().name)
    } else {
        npc_names_in(npcs.drop_last(), room)
    }
}

/// Looks for the first character called `name`.
pub fn find_npc(npcs: &Vec<Npc>, name: &str) -> (at: Option<usize>)
    ensures
        match at {
            Some(i) => i < npcs.len() && position(npc_names(npc_models(npcs@)), name@) == Some(
                i as int,
            ),
            None => position(npc_names(npc_models(npcs@)), name@).is_none(),
        },
{
    let ghost names = npc_names(npc_models(npcs@));
    let mut i: usize = 0;
    while i < npcs.len()
        invariant
            i <= npcs.len(),
            names == npc_names(npc_models(npcs@)),
            position(names, name@) == position_from(names, name@, i as int),
        decreases npcs.len() - i,
    {
        if same_text(npcs[i].name.as_str(), name) {
            return Some(i);
        }
        i = i + 1;
    }
    None
}

/// The names of the characters that are in `room`.
pub fn names_of_npcs_in(npcs: &Vec<Npc>, room: usize) -> (names: Vec<String>)
    ensures
        texts(names@) == npc_names_in(npc_models(npcs@), room),
{
    let ghost all = npc_models(npcs@);
    let mut names: Vec<String> = Vec::new();
    let mut i: usize = 0;
    while i < npcs.len()
        invariant
            i <= npcs.len(),
            all == npc_models(npcs@),
            texts(names@) == npc_names_in(all.take(i as int), room),
        decreases npcs.len() - i,
    {
        assert(all.take(i + 1).drop_last() =~= all.take(i as int));
        if npcs[i].current_room == room {
            let name = npcs[i].name.clone();
            names.push(name);
        }
        i = i + 1;
    }
    assert(all.take(npcs.len() as int) =~= all);
    names
}

impl Npc {
    /// Says the line under the cursor and moves the cursor on. On the last
    /// line the cursor stays, so that line is repeated from then on. A
    /// character without a line under its cursor says that it has nothing to
    /// say, and stays as it is.
    pub fn speak_dialogue(&mut self) -> (line: String)
        ensures
            line@ == old(self)@.line(),
            final(self)@ == old(self)@.after_speaking(),
    {
        if self.dialogue_counter >= self.current_dialogue.len() {
            return String::from_str("They have nothing to say.");
        }
        let line = self.current_dialogue[self.dialogue_counter].clone();
        if self.dialogue_counter < self.current_dialogue.len() - 1 {
            self.dialogue_counter += 1;
        }
        line
    }

    /// Takes up the script that the character has for `room`, from its first
    /// line. Where it has none for that room, its script becomes empty.
    pub fn update_dialogue(&mut self, room: usize)
        ensures
            final(self)@ == old(self)@.with_script_of(room),
    {
        let script = self.all_dialogues.get(&room);
        match script {
            Some(lines) => {
                let copy = lines.clone();
                self.current_dialogue = copy;
            },
            None => {
                self.current_dialogue = Vec::new();
            },
        }
        self.dialogue_counter = 0;
        assert(self@.current_dialogue =~= old(self)@.with_script_of(room).current_dialogue);
    }

    /// Moves the character to `room` and takes up the script it has for it.
    pub fn move_to_room(&mut self, room: usize)
        ensures
            final(self)@ == (NpcModel { current_room: room, ..old(self)@.with_script_of(room) }),
    {
        self.current_room = room;
        self.update_dialogue(room);
    }
}

/// What the world is, as plain values.
pub struct WorldModel {
    pub rooms: Seq<RoomModel>,
    pub npcs: Seq<NpcModel>,
    pub flags: Seq<(Seq<char>, bool)>,
}

impl WorldModel {
    /// Tells whether every exit of every room leads to a room of the world.
    pub open spec fn valid(self) -> bool {
        forall|r: int, e: int|
            0 <= r < self.rooms.len() && 0 <= e < self.rooms[r].exits.len() ==> (
            #[trigger] self.rooms[r].exits[e]).1 < self.rooms.len()
    }

    /// Tells whether `after` has the rooms of this world, each with its
    /// name, its description and its exits. The items in them may differ.
    pub open spec fn same_map(self, after: WorldModel) -> bool {
        &&& after.rooms.len() == self.rooms.len()
        &&& forall|r: int|
            0 <= r < self.rooms.len() ==> {
                &&& (#[trigger] after.rooms[r]).exits == self.rooms[r].exits
                &&& after.rooms[r].name == self.rooms[r].name
                &&& after.rooms[r].description == self.rooms[r].description
            }
    }

    /// The world with `items` lying in room `room`.
    pub open spec fn with_room_items(self, room: int, items: Seq<ItemModel>) -> WorldModel {
        WorldModel {
            rooms: self.rooms.update(room, RoomModel { items, ..self.rooms[room] }),
            ..self
        }
    }

    /// The world with `npc` in place of the character at `index`.
    pub open spec fn with_npc(self, index: int, npc: NpcModel) -> WorldModel {
        WorldModel { npcs: self.npcs.update(index, npc), ..self }
    }

    /// The world without the character at `index`. Those behind it move up by one.
    pub open spec fn without_npc(self, index: int) -> WorldModel {
        WorldModel { npcs: self.npcs.remove(index), ..self }
    }

    /// The value of the flag `key`; a flag that was never set is off.
    pub open spec fn flag(self, key: Seq<char>) -> bool {
        lookup(self.flags, key) == Some(true)
    }
}

/// The rooms, the characters and the flags of one game.
pub struct World {
    pub rooms: Vec<Room>,
    pub npcs: Vec<Npc>,
    pub flags: LabelMap<bool>,
}

impl View for World {
    type V = WorldModel;

    open spec fn view(&self) -> WorldModel {
        WorldModel {
            rooms: room_models(self.rooms@),
            npcs: npc_models(self.npcs@),
            flags: self.flags@,
        }
    }
}

impl World {
    /// A world without rooms, characters or flags.
    pub fn new() -> (world: Self)
        ensures
            world@ == (WorldModel {
                rooms: Seq::empty(),
                npcs: Seq::empty(),
                flags: Seq::empty(),
            }),
    {
        let world = World { rooms: Vec::new(), npcs: Vec::new(), flags: LabelMap::new() };
        assert(world@.rooms =~= Seq::empty());
        assert(world@.npcs =~= Seq::empty());
        world
    }

    /// Sets the flag `key` to `value`.
    pub fn set_flag(&mut self, key: &str, value: bool)
        ensures
            final(self)@ == (WorldModel {
                flags: stored(old(self)@.flags, key@, value),
                ..old(self)@
            }),
    {
        self.flags.insert(key.to_owned(), value);
    }

    /// Reads the flag `key`. A flag that was never set is off.
    pub fn get_flag(&self, key: &str) -> (value: bool)
        ensures
            value == self@.flag(key@),
    {
        match self.flags.get(key) {
            Some(v) => *v,
            None => false,
        }
    }

    /// Adds a room and returns its index. The exits may name rooms that do not
    /// exist yet: nothing is checked here.
    pub fn create_room(
        &mut self,
        name: &str,
        description: &str,
        items: Vec<Item>,
        exits: LabelMap<usize>,
    ) -> (index: usize)
        ensures
            index == old(self)@.rooms.len(),
            final(self)@ == (WorldModel {
                rooms: old(self)@.rooms.push(
                    RoomModel {
                        name: name@,
                        description: description@,
                        items: item_models(items@),
                        exits: exits@,
                    },
                ),
                ..old(self)@
            }),
    {
        let room = Room {
            name: name.to_owned(),
            description: description.to_owned(),
            items,
            exits,
        };
        self.rooms.push(room);
        assert(self@.rooms =~= old(self)@.rooms.push(room@));
        self.rooms.len() - 1
    }

    /// Adds a character and returns its index. Its cursor starts at the first
    /// line of `current_dialogue`.
    pub fn create_npc(
        &mut self,
        name: &str,
        current_dialogue: Vec<String>,
        current_room: usize,
        all_dialogues: HashMap<usize, Vec<String>>,
        hp: i32,
        ap: i32,
        hostility: bool,
    ) -> (index: usize)
        ensures
            index == old(self)@.npcs.len(),
            final(self)@ == (WorldModel {
                npcs: old(self)@.npcs.push(
                    NpcModel {
                        name: name@,
                        current_dialogue: texts(current_dialogue@),
                        current_room,
                        all_dialogues: script_models(all_dialogues@),
                        dialogue_counter: 0,
                        health_points: hp as int,
                        attack_power: ap as int,
                        hostile: hostility,
                    },
                ),
                ..old(self)@
            }),
    {
        let npc = Npc {
            name: name.to_owned(),
            current_dialogue,
            current_room,
            all_dialogues,
            dialogue_counter: 0,
            health_points: hp,
            attack_power: ap,
            hostile: hostility,
        };
        self.npcs.push(npc);
        assert(self@.npcs =~= old(self)@.npcs.push(npc@));
        self.npcs.len() - 1
    }

    /// Tells whether every exit of every room leads to a room of the world.
    pub fn validate(&self) -> (ok: bool)
        ensures
            ok == self@.valid(),
    {
        let count = self.rooms.len();
        let mut r: usize = 0;
        while r < count
            invariant
                r <= count,
                count == self.rooms.len(),
                forall|i: int, e: int|
                    0 <= i < r && 0 <= e < self@.rooms[i].exits.len() ==> (
                    #[trigger] self@.rooms[i].exits[e]).1 < count,
            decreases count - r,
        {
            let exits = &self.rooms[r].exits;
            let mut e: usize = 0;
            while e < exits.len()
                invariant
                    e <= exits@.len(),
                    r < count,
                    count == self.rooms.len(),
                    exits@ == self@.rooms[r as int].exits,
                    forall|k: int| 0 <= k < e ==> (#[trigger] exits@[k]).1 < count,
                decreases exits@.len() - e,
            {
                if *exits.value_at(e) >= count {
                    return false;
                }
                e = e + 1;
            }
            r = r + 1;
        }
        true
    }
}

/// The scripts of a character by room, as plain values.
pub open spec fn script_models(scripts: Map<usize, Vec<String>>) -> Map<usize, Seq<Seq<char>>> {
    Map::new(|room: usize| scripts.contains_key(room), |room: usize| texts(scripts[room]@))
}

/// The rusty key of the starting room. It can be eaten, and it hurts.
pub open spec fn key_model() -> ItemModel {
    ItemModel {
        name: "Key"@,
        description: "A small rusty key."@,
        can_take: true,
        can_eat: true,
        can_equip: false,
        heal_amount: -10,
        attack_increase_amount: 0,
    }
}

/// The broken sword of the maze entrance.
pub open spec fn broken_sword_model() -> ItemModel {
    ItemModel {
        name: "Broken_Sword"@,
        description: "Not much use unless you're out of options."@,
        can_take: true,
        can_eat: false,
        can_equip: true,
        heal_amount: 0,
        attack_increase_amount: 10,
    }
}

/// The healing grass of the maze entrance.
pub open spec fn healing_grass_model() -> ItemModel {
    ItemModel {
        name: "Healing_Grass"@,
        description: "Heals a small amount of health."@,
        can_take: true,
        can_eat: true,
        can_equip: false,
        heal_amount: 20,
        attack_increase_amount: 0,
    }
}

/// The four rooms of the built-in map, for a world that held `base` rooms
/// before. The way back south and west goes by the indices that the new rooms
/// get; the ways forward are fixed numbers, drawn for a world that was empty.
pub open spec fn starting_rooms(base: usize) -> Seq<RoomModel> {
    let entrance = (base + 1) as usize;
    seq![
        RoomModel {
            name: "Starting Room"@,
            description: "You are in the starting room. There's an exit to the north."@,
            items: seq![key_model()],
            exits: seq![("north"@, 1usize)],
        },
        RoomModel {
            name: "Maze Entrance"@,
            description: "You stand at the entrance of a dark maze. Exits lead in all directions."@,
            items: seq![broken_sword_model(), healing_grass_model()],
            exits: seq![("south"@, base), ("north"@, 2usize), ("east"@, 3usize)],
        },
        RoomModel {
            name: "Maze Room 1"@,
            description: "The walls here are identical, and you feel disoriented."@,
            items: Seq::empty(),
            exits: seq![("south"@, entrance)],
        },
        RoomModel {
            name: "Maze Room 2"@,
            description: "A narrow corridor with a faint breeze."@,
            items: Seq::empty(),
            exits: seq![("west"@, entrance)],
        },
    ]
}

/// What Merlin says in room 1.
pub open spec fn merlin_greeting() -> Seq<Seq<char>> {
    seq![
        "Greetings Traveler. I hope you found that key I left in the previous room."@,
        "You will find that you may need it here or there."@,
        "Good luck on your quest, perhaps we shall meet again soon."@,
    ]
}

/// What Merlin says in room 3.
pub open spec fn merlin_farewell() -> Seq<Seq<char>> {
    seq![
        "Hello again traveler."@,
        "Thanks for getting rid of that skeleton in the other room."@,
        "I must be going soon. Take care."@,
    ]
}

/// The two characters of the built-in cast: Merlin, who talks, and the
/// skeleton, which fights and has nothing to say.
pub open spec fn starting_npcs() -> Seq<NpcModel> {
    seq![
        NpcModel {
            name: "Merlin"@,
            current_dialogue: merlin_greeting(),
            current_room: 1,
            all_dialogues: Map::empty().insert(1usize, merlin_greeting()).insert(
                3usize,
                merlin_farewell(),
            ),
            dialogue_counter: 0,
            health_points: 20,
            attack_power: 20,
            hostile: false,
        },
        NpcModel {
            name: "Skeleton"@,
            current_dialogue: Seq::empty(),
            current_room: 2,
            all_dialogues: Map::empty(),
            dialogue_counter: 0,
            health_points: 50,
            attack_power: 10,
            hostile: true,
        },
    ]
}

fn one_exit(label: &str, target: usize) -> (exits: LabelMap<usize>)
    ensures
        exits@ == seq![(label@, target)],
{
    let mut exits: LabelMap<usize> = LabelMap::new();
    proof {
        lemma_stored_new(exits@, label@, target);
    }
    exits.insert(label.to_owned(), target);
    exits
}

fn entrance_exits(back: usize) -> (exits: LabelMap<usize>)
    ensures
        exits@ == seq![("south"@, back), ("north"@, 2usize), ("east"@, 3usize)],
{
    let mut exits = one_exit("south", back);
    proof {
        reveal_strlit("south");
        reveal_strlit("north");
        reveal_strlit("east");
        assert("south"@[0] != "north"@[0]);
        assert("south"@.len() != "east"@.len());
        lemma_stored_new(exits@, "north"@, 2usize);
    }
    exits.insert(String::from_str("north"), 2);
    proof {
        lemma_stored_new(exits@, "east"@, 3usize);
    }
    exits.insert(String::from_str("east"), 3);
    exits
}

fn key_item() -> (item: Item)
    ensures
        item@ == key_model(),
{
    Item {
        name: String::from_str("Key"),
        description: String::from_str("A small rusty key."),
        can_take: true,
        can_eat: true,
        can_equip: false,
        heal_amount: -10,
        attack_increase_amount: 0,
    }
}

fn broken_sword() -> (item: Item)
    ensures
        item@ == broken_sword_model(),
{
    Item {
        name: String::from_str("Broken_Sword"),
        description: String::from_str("Not much use unless you're out of options."),
        can_take: true,
        can_eat: false,
        can_equip: true,
        heal_amount: 0,
        attack_increase_amount: 10,
    }
}

fn healing_grass() -> (item: Item)
    ensures
        item@ == healing_grass_model(),
{
    Item {
        name: String::from_str("Healing_Grass"),
        description: String::from_str("Heals a small amount of health."),
        can_take: true,
        can_eat: true,
        can_equip: false,
        heal_amount: 20,
        attack_increase_amount: 0,
    }
}

fn three_lines(first: &str, second: &str, third: &str) -> (lines: Vec<String>)
    ensures
        texts(lines@) == seq![first@, second@, third@],
{
    let mut lines: Vec<String> = Vec::new();
    lines.push(first.to_owned());
    lines.push(second.to_owned());
    lines.push(third.to_owned());
    lines
}

impl World {
    /// Adds the built-in cast to the world: Merlin in room 1 and the skeleton
    /// in room 2.
    pub fn init_npcs(&mut self)
        ensures
            final(self)@ == (WorldModel {
                npcs: old(self)@.npcs + starting_npcs(),
                ..old(self)@
            }),
    {
        let greeting = three_lines(
            "Greetings Traveler. I hope you found that key I left in the previous room.",
            "You will find that you may need it here or there.",
            "Good luck on your quest, perhaps we shall meet again soon.",
        );
        let farewell = three_lines(
            "Hello again traveler.",
            "Thanks for getting rid of that skeleton in the other room.",
            "I must be going soon. Take care.",
        );
        let opening = greeting.clone();
        let mut merlin_dialogues: HashMap<usize, Vec<String>> = HashMap::new();
        merlin_dialogues.insert(1, greeting);
        merlin_dialogues.insert(3, farewell);
        assert(script_models(merlin_dialogues@) =~= Map::empty().insert(
            1usize,
            merlin_greeting(),
        ).insert(3usize, merlin_farewell()));
        self.create_npc("Merlin", opening, 1, merlin_dialogues, 20, 20, false);
        let silent: HashMap<usize, Vec<String>> = HashMap::new();
        assert(script_models(silent@) =~= Map::empty());
        let nothing: Vec<String> = Vec::new();
        assert(texts(nothing@) =~= Seq::empty());
        self.create_npc("Skeleton", nothing, 2, silent, 50, 10, true);
        assert(self@.npcs =~= old(self)@.npcs + starting_npcs());
    }

    /// Adds the four rooms of the built-in map to the world. In a world that
    /// was empty every exit of the map leads to one of the four rooms.
    pub fn init_rooms(&mut self)
        ensures
            final(self)@ == (WorldModel {
                rooms: old(self)@.rooms + starting_rooms(old(self).rooms.len()),
                ..old(self)@
            }),
            old(self)@.rooms.len() == 0 ==> final(self)@.valid(),
    {
        let mut start_items: Vec<Item> = Vec::new();
        start_items.push(key_item());
        assert(item_models(start_items@) =~= seq![key_model()]);
        let room1 = self.create_room(
            "Starting Room",
            "You are in the starting room. There's an exit to the north.",
            start_items,
            one_exit("north", 1),
        );
        let mut entrance_items: Vec<Item> = Vec::new();
        entrance_items.push(broken_sword());
        entrance_items.push(healing_grass());
        assert(item_models(entrance_items@) =~= seq![broken_sword_model(), healing_grass_model()]);
        let room2 = self.create_room(
            "Maze Entrance",
            "You stand at the entrance of a dark maze. Exits lead in all directions.",
            entrance_items,
            entrance_exits(room1),
        );
        let no_items: Vec<Item> = Vec::new();
        assert(item_models(no_items@) =~= Seq::empty());
        self.create_room(
            "Maze Room 1",
            "The walls here are identical, and you feel disoriented.",
            no_items,
            one_exit("south", room2),
        );
        let no_items: Vec<Item> = Vec::new();
        self.create_room(
            "Maze Room 2",
            "A narrow corridor with a faint breeze.",
            no_items,
            one_exit("west", room2),
        );
        assert(self@.rooms =~= old(self)@.rooms + starting_rooms(old(self).rooms.len()));
        proof {
            if old(self)@.rooms.len() == 0 {
                lemma_starting_rooms_valid(self@);
            }
        }
    }
}

/// A world whose rooms are the four of the built-in map, and no others, is
/// valid: every exit of the map leads to one of the four.
pub proof fn lemma_starting_rooms_valid(w: WorldModel)
    requires
        w.rooms == starting_rooms(0),
    ensures
        w.valid(),
{
    assert forall|r: int, e: int|
        0 <= r < w.rooms.len() && 0 <= e < w.rooms[r].exits.len() implies (
    #[trigger] w.rooms[r].exits[e]).1 < w.rooms.len() by {
        let exits = w.rooms[r].exits;
        if r == 0 {
            assert(exits[e] == ("north"@, 1usize));
        } else if r == 1 {
            assert(exits[e].1 == 0usize || exits[e].1 == 2usize || exits[e].1 == 3usize);
        } else if r == 2 {
            assert(exits[e] == ("south"@, 1usize));
        } else {
            assert(exits[e] == ("west"@, 1usize));
        }
    }
}

/// However often a character speaks, its cursor stays on a line of its
/// script: it moves on by one line at a time, and stays on the last.
pub proof fn lemma_cursor_after_lines(npc: NpcModel, count: nat)
    requires
        npc.can_speak(),
    ensures
        npc.after_lines(count).can_speak(),
        npc.after_lines(count) == (NpcModel {
            dialogue_counter: if npc.dialogue_counter + count < npc.current_dialogue.len() {
                npc.dialogue_counter + count
            } else {
                (npc.current_dialogue.len() - 1) as nat
            },
            ..npc
        }),
    decreases count,
{
    if count > 0 {
        lemma_cursor_after_lines(npc, (count - 1) as nat);
    }
}

/// A character that starts at the first of its lines says them in order, one
/// on each call, and from the last line on says that line again and again.
pub proof fn lemma_lines_in_order(npc: NpcModel, count: nat)
    requires
        npc.dialogue_counter == 0,
        npc.current_dialogue.len() > 0,
    ensures
        npc.after_lines(count).can_speak(),
        npc.after_lines(count).line() == if count < npc.current_dialogue.len() {
            npc.current_dialogue[count as int]
        } else {
            npc.current_dialogue.last()
        },
{
    lemma_cursor_after_lines(npc, count);
}

/// After a flag is set it reads as it was set, and every other flag reads as before.
pub proof fn lemma_flag_after_set(w: WorldModel, key: Seq<char>, value: bool, other: Seq<char>)
    ensures
        (WorldModel { flags: stored(w.flags, key, value), ..w }).flag(other) == if other == key {
            value
        } else {
            w.flag(other)
        },
{
    lemma_lookup_stored(w.flags, key, value, other);
}

/// A valid world stays valid when a room is added whose exits lead to rooms
/// of the world as it is then.
pub proof fn lemma_room_added_valid(w: WorldModel, room: RoomModel)
    requires
        w.valid(),
        forall|e: int| 0 <= e < room.exits.len() ==> (#[trigger] room.exits[e]).1 <= w.rooms.len(),
    ensures
        (WorldModel { rooms: w.rooms.push(room), ..w }).valid(),
{
    let after = WorldModel { rooms: w.rooms.push(room), ..w };
    assert forall|r: int, e: int|
        0 <= r < after.rooms.len() && 0 <= e < after.rooms[r].exits.len() implies (
    #[trigger] after.rooms[r].exits[e]).1 < after.rooms.len() by {
        if r < w.rooms.len() {
            assert(after.rooms[r] == w.rooms[r]);
        }
    }
}

/// In a valid world every exit that can be looked up leads to a room of the world.
pub proof fn lemma_valid_exit_inside(w: WorldModel, room: int, direction: Seq<char>)
    requires
        w.valid(),
        0 <= room < w.rooms.len(),
    ensures
        match lookup(w.rooms[room].exits, direction) {
            Some(target) => target < w.rooms.len(),
            None => true,
        },
{
    let exits = w.rooms[room].exits;
    lemma_position(labels(exits), direction);
    match position(labels(exits), direction) {
        Some(i) => {
            assert(exits[i].1 < w.rooms.len());
        },
        None => {},
    }
}

/// Changing the items of a room, or a character, leaves a valid world valid.
pub proof fn lemma_same_exits_valid(before: WorldModel, after: WorldModel)
    requires
        before.valid(),
        before.same_map(after),
    ensures
        after.valid(),
{
    assert forall|r: int, e: int|
        0 <= r < after.rooms.len() && 0 <= e < after.rooms[r].exits.len() implies (
    #[trigger] after.rooms[r].exits[e]).1 < after.rooms.len() by {
        assert(after.rooms[r].exits == before.rooms[r].exits);
    }
}

} // verus!
