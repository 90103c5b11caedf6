//! Turn-based combat between the player and one character of the world.
//!
//! The machine never reads or prints. The front end shows the prompt, hands
//! the line that was typed to `feed`, prints the lines that come back, and
//! stops when there is a result.
use super::labels::distinct;
use super::player::{fits_i32, Player, PlayerModel};
use super::text::{
    decimal, decimal_string, lemma_position, lowercase, lowercased, natural_string, parse_number,
    same_text, texts, trim, trimmed, unsigned_number,
};
use super::world::{
    item_models, item_names, lemma_same_exits_valid, Item, ItemModel, NpcModel, World, WorldModel,
};
use vstd::prelude::*;
use vstd::string::*;

verus! {

/// What the player can do on their turn.
#[derive(Debug, Clone, Copy, PartialEq, Eq, Structural)]
pub enum CombatAction {
    /// Strike the character.
    Attack,
    /// Eat something from the inventory.
    Eat,
    /// Use a skill. There are none yet.
    Skill,
    /// Leave the fight.
    Retreat,
}

/// Whose turn it is, or how the fight ended.
#[derive(Debug, Clone, Copy, PartialEq, Eq, Structural)]
pub enum CombatState {
    /// The machine waits for the player.
    PlayerTurn,
    /// The character strikes. The machine passes through this state within a
    /// step and never waits in it.
    NPCTurn,
    /// The player's health fell to 0 or less.
    Defeat,
    /// The character's health fell to 0 or less.
    Victory,
    /// The player left the fight.
    Fled,
}

/// What was typed when the machine asked what to eat.
#[derive(Debug, Clone, Copy, PartialEq, Eq, Structural)]
pub enum FoodChoice {
    /// The word `cancel`.
    Cancel,
    /// A number; the first entry of the menu is number 1.
    Number(usize),
    /// Anything else.
    Invalid,
}

/// What the player typed, as the machine understands it.
#[derive(Debug, Clone, Copy, PartialEq, Eq, Structural)]
pub enum CombatEvent {
    /// An action, typed when the machine asked for one.
    Chosen(CombatAction),
    /// Something that names no action, typed when the machine asked for one.
    Unclear,
    /// What was typed when the machine asked what to eat.
    Food(FoodChoice),
}

/// What a fight is, as plain values.
pub struct CombatModel {
    pub state: CombatState,
    pub npc_index: usize,
    pub turn_count: nat,
    pub choosing_food: bool,
}

/// A fight against the character at `npc_index`. While `choosing_food` is
/// set, the next line typed picks from the menu of things to eat; otherwise
/// it names an action.
#[derive(Debug, Clone, Copy)]
pub struct Combat {
    pub state: CombatState,
    pub npc_index: usize,
    pub turn_count: u32,
    pub choosing_food: bool,
}

impl View for Combat {
    type V = CombatModel;

    open spec fn view(&self) -> CombatModel {
        CombatModel {
            state: self.state,
            npc_index: self.npc_index,
            turn_count: self.turn_count as nat,
            choosing_food: self.choosing_food,
        }
    }
}

/// Where a step of the fight leads: the fight, the player and the world
/// after it, the lines to show, and the closing message once the fight is over.
pub struct Round {
    pub combat: CombatModel,
    pub player: PlayerModel,
    pub world: WorldModel,
    pub lines: Seq<Seq<char>>,
    pub result: Option<Seq<char>>,
}

/// The action that a word names: its first letter or the whole word, in
/// lower case.
pub open spec fn action_of_word(word: Seq<char>) -> Option<CombatAction> {
    if word == "a"@ || word == "attack"@ {
        Some(CombatAction::Attack)
    } else if word == "e"@ || word == "eat"@ {
        Some(CombatAction::Eat)
    } else if word == "s"@ || word == "skill"@ {
        Some(CombatAction::Skill)
    } else if word == "r"@ || word == "retreat"@ {
        Some(CombatAction::Retreat)
    } else {
        None
    }
}

/// The action that a line names, whatever its case and the white space
/// around it.
pub open spec fn action_of(input: Seq<char>) -> Option<CombatAction> {
    action_of_word(lowercased(trimmed(input)))
}

/// The choice of food that a line makes, whatever the white space around it.
pub open spec fn food_choice_of(input: Seq<char>) -> FoodChoice {
    if trimmed(input) == "cancel"@ {
        FoodChoice::Cancel
    } else {
        match unsigned_number(trimmed(input)) {
            Some(v) => if v <= usize::MAX {
                FoodChoice::Number(v as usize)
            } else {
                FoodChoice::Invalid
            },
            None => FoodChoice::Invalid,
        }
    }
}

/// How the machine understands a line.
pub open spec fn event_of(c: CombatModel, input: Seq<char>) -> CombatEvent {
    if c.choosing_food {
        CombatEvent::Food(food_choice_of(input))
    } else {
        match action_of(input) {
            Some(action) => CombatEvent::Chosen(action),
            None => CombatEvent::Unclear,
        }
    }
}

/// The items of a list that can be eaten, in the order of the list.
pub open spec fn edible(items: Seq<ItemModel>) -> Seq<ItemModel>
    decreases items.len(),
{
    if items.len() == 0 {
        Seq::empty()
    } else if items.last().can_eat {
        edible(items.drop_last()).push(items.last())
    } else {
        edible(items.drop_last())
    }
}

/// The line of the menu for the item at place `k` of the edible items.
pub open spec fn menu_line(k: int, item: ItemModel) -> Seq<char> {
    "  "@ + decimal(k + 1) + ": "@ + item.name + " (heals "@ + decimal(item.heal_amount) + ")"@
}

/// The menu of things to eat: a heading, then one numbered line for each item.
pub open spec fn menu(food: Seq<ItemModel>) -> Seq<Seq<char>> {
    seq!["Edible items:"@] + Seq::new(food.len(), |k: int| menu_line(k, food[k]))
}

/// What is said after a meal.
pub open spec fn meal_line(item: ItemModel) -> Seq<char> {
    if item.heal_amount >= 0 {
        "You ate "@ + item.name + " and gained "@ + decimal(item.heal_amount) + " HP!"@
    } else {
        "You ate "@ + item.name + " and lost "@ + decimal(-item.heal_amount) + " HP!"@
    }
}

/// How a choice of food ends: the player after it, what is said, and whether
/// the player's turn is used up.
pub struct Meal {
    pub player: PlayerModel,
    pub lines: Seq<Seq<char>>,
    pub consumed: bool,
}

/// What a choice of food does. A number picks from the edible items of the
/// inventory, counted from 1: its heal amount is applied, and the first
/// carried item of its name leaves the inventory. `cancel` and a choice that
/// picks nothing leave the player as they are and do not use up the turn.
pub open spec fn meal(p: PlayerModel, choice: FoodChoice) -> Meal {
    let food = edible(p.inventory);
    match choice {
        FoodChoice::Cancel => Meal { player: p, lines: Seq::empty(), consumed: false },
        FoodChoice::Number(n) => if 1 <= n <= food.len() {
            Meal {
                player: p.healed(food[n - 1].heal_amount).without_item(food[n - 1].name),
                lines: seq![meal_line(food[n - 1])],
                consumed: true,
            }
        } else {
            Meal { player: p, lines: seq!["Invalid choice!"@], consumed: false }
        },
        FoodChoice::Invalid => Meal { player: p, lines: seq!["Invalid choice!"@], consumed: false },
    }
}

/// The three lines that show the health of both sides after a turn.
pub open spec fn status_lines(player_health: int, foe_health: int) -> Seq<Seq<char>> {
    seq![
        "\n--- Status ---"@,
        "Your HP: "@ + decimal(player_health) + " | Enemy HP: "@ + decimal(foe_health),
        "--------------\n"@,
    ]
}

/// The turn of the character: it takes its attack power off the player's
/// health. A player whose health is then 0 or less is defeated; otherwise
/// the round is counted and it is the player's turn again.
pub open spec fn counter(c: CombatModel, p: PlayerModel, w: WorldModel) -> Round {
    let foe = w.npcs[c.npc_index as int];
    let hurt = p.healed(-foe.attack_power);
    let said = seq![foe.name + " attacks you for "@ + decimal(foe.attack_power) + " damage!"@];
    if hurt.health_points <= 0 {
        Round {
            combat: CombatModel { state: CombatState::Defeat, ..c },
            player: hurt,
            world: w,
            lines: said + seq!["\n=== DEFEAT ==="@, "You have been defeated..."@],
            result: Some("GAME OVER - You died in combat!"@),
        }
    } else {
        Round {
            combat: CombatModel {
                state: CombatState::PlayerTurn,
                turn_count: c.turn_count + 1,
                ..c
            },
            player: hurt,
            world: w,
            lines: said + status_lines(hurt.health_points, foe.health_points),
            result: None,
        }
    }
}

/// A round that says `lines` first.
pub open spec fn after_lines(lines: Seq<Seq<char>>, round: Round) -> Round {
    Round { lines: lines + round.lines, ..round }
}

/// The player's turn with `action`, and what follows it until the machine
/// needs the player again or the fight is over.
///
/// An attack takes the player's attack power off the character's health. A
/// character whose health is then 0 or less is beaten and leaves the world,
/// without striking back. After an attack that it survives, and after a
/// meal, the character has its turn. A retreat ends the fight at once and
/// leaves everything as it is. A skill does nothing: there are none yet.
pub open spec fn fight(c: CombatModel, action: CombatAction, p: PlayerModel, w: WorldModel)
    -> Round {
    let foe = w.npcs[c.npc_index as int];
    match action {
        CombatAction::Attack => {
            let struck = NpcModel { health_points: foe.health_points - p.attack_power, ..foe };
            let said = seq!["You attack for "@ + decimal(p.attack_power) + " damage!"@];
            if struck.health_points <= 0 {
                Round {
                    combat: CombatModel { state: CombatState::Victory, ..c },
                    player: p,
                    world: w.without_npc(c.npc_index as int),
                    lines: said + seq![
                        "\n=== VICTORY! ==="@,
                        "You defeated the "@ + foe.name + "!"@,
                    ],
                    result: Some("You emerge victorious from combat!"@),
                }
            } else {
                after_lines(
                    said + status_lines(p.health_points, struck.health_points),
                    counter(c, p, w.with_npc(c.npc_index as int, struck)),
                )
            }
        },
        CombatAction::Eat => after_lines(
            status_lines(p.health_points, foe.health_points),
            counter(c, p, w),
        ),
        CombatAction::Skill => Round {
            combat: c,
            player: p,
            world: w,
            lines: seq!["You don't know any skills yet!"@],
            result: None,
        },
        CombatAction::Retreat => Round {
            combat: CombatModel { state: CombatState::Fled, ..c },
            player: p,
            world: w,
            lines: seq!["\n=== RETREAT ==="@, "You successfully fled from combat!"@],
            result: Some("You escaped from the fight."@),
        },
    }
}

/// What the machine does with what the player typed.
///
/// At the action prompt, `eat` shows the menu and asks for a choice, or says
/// that there is nothing to eat; the other actions are carried out; anything
/// else is turned down. At the food prompt, a meal uses up the player's turn,
/// and any other choice leads back to the action prompt.
pub open spec fn respond(c: CombatModel, event: CombatEvent, p: PlayerModel, w: WorldModel)
    -> Round {
    match event {
        CombatEvent::Unclear => Round {
            combat: c,
            player: p,
            world: w,
            lines: seq!["Invalid action! Please choose A, E, S, or R."@],
            result: None,
        },
        CombatEvent::Chosen(CombatAction::Eat) => if edible(p.inventory).len() == 0 {
            Round {
                combat: c,
                player: p,
                world: w,
                lines: seq!["You have no edible items!"@],
                result: None,
            }
        } else {
            Round {
                combat: CombatModel { choosing_food: true, ..c },
                player: p,
                world: w,
                lines: menu(edible(p.inventory)),
                result: None,
            }
        },
        CombatEvent::Chosen(action) => fight(c, action, p, w),
        CombatEvent::Food(choice) => {
            let back = CombatModel { choosing_food: false, ..c };
            let eaten = meal(p, choice);
            if eaten.consumed {
                after_lines(eaten.lines, fight(back, CombatAction::Eat, eaten.player, w))
            } else {
                Round {
                    combat: back,
                    player: p,
                    world: w,
                    lines: eaten.lines,
                    result: None,
                }
            }
        },
    }
}

/// Tells whether the machine can take `event`: the fight is on and it is the
/// player's turn, the character is in the world, the event answers the
/// prompt that is open, and every number that the step computes fits its type.
pub open spec fn accepts(c: CombatModel, event: CombatEvent, p: PlayerModel, w: WorldModel)
    -> bool {
    &&& c.state == CombatState::PlayerTurn
    &&& c.npc_index < w.npcs.len()
    &&& c.choosing_food <==> event is Food
    &&& event == CombatEvent::Chosen(CombatAction::Attack) ==> fits_i32(
        w.npcs[c.npc_index as int].health_points - p.attack_power,
    )
    &&& event matches CombatEvent::Food(choice) ==> fits_i32(meal(p, choice).player.health_points)
    &&& fits_i32(respond(c, event, p, w).player.health_points)
    &&& respond(c, event, p, w).combat.turn_count <= u32::MAX
}

/// The lines that open a fight.
pub open spec fn banner(p: PlayerModel, foe: NpcModel) -> Seq<Seq<char>> {
    seq![
        "\n=== COMBAT INITIATED ==="@,
        "You are fighting: "@ + foe.name,
        "Enemy HP: "@ + decimal(foe.health_points) + " | Enemy AP: "@ + decimal(foe.attack_power),
        "Your HP: "@ + decimal(p.health_points) + " | Your AP: "@ + decimal(p.attack_power),
        "========================\n"@,
    ]
}

/// What the machine asks next: for an action, or for something to eat.
/// A fight that is over asks nothing.
pub open spec fn prompt_of(c: CombatModel) -> Option<Seq<char>> {
    if c.state != CombatState::PlayerTurn {
        None
    } else if c.choosing_food {
        Some("Choose item to eat (number) or 'cancel': "@)
    } else {
        Some("Choose action: [A]ttack, [E]at, [S]kill, [R]etreat > "@)
    }
}

/// The view of a text that may be missing.
pub open spec fn text_of(text: Option<String>) -> Option<Seq<char>> {
    match text {
        Some(t) => Some(t@),
        None => None,
    }
}

/// What the machine hands back after a step: the lines to show, and the
/// closing message once the fight is over.
#[derive(Debug)]
pub struct CombatReply {
    pub lines: Vec<String>,
    pub result: Option<String>,
}

fn emit(lines: &mut Vec<String>, line: String)
    ensures
        texts(final(lines)@) == texts(old(lines)@).push(line@),
{
    lines.push(line);
}

fn emit_str(lines: &mut Vec<String>, line: &str)
    ensures
        texts(final(lines)@) == texts(old(lines)@).push(line@),
{
    emit(lines, String::from_str(line));
}

/// Reads the action that a word names. The word is taken as it is.
pub fn action_from_word(word: &str) -> (action: Option<CombatAction>)
    ensures
        action == action_of_word(word@),
{
    if same_text(word, "a") || same_text(word, "attack") {
        Some(CombatAction::Attack)
    } else if same_text(word, "e") || same_text(word, "eat") {
        Some(CombatAction::Eat)
    } else if same_text(word, "s") || same_text(word, "skill") {
        Some(CombatAction::Skill)
    } else if same_text(word, "r") || same_text(word, "retreat") {
        Some(CombatAction::Retreat)
    } else {
        None
    }
}

/// Reads the action that a line names, whatever its case and the white
/// space around it.
pub fn get_player_action(input: &str) -> (action: Option<CombatAction>)
    ensures
        action == action_of(input@),
{
    let word = lowercase(trim(input));
    action_from_word(word.as_str())
}

/// Reads the choice of food that a line makes.
pub fn parse_food_choice(input: &str) -> (choice: FoodChoice)
    ensures
        choice == food_choice_of(input@),
{
    let word = trim(input);
    if same_text(word, "cancel") {
        FoodChoice::Cancel
    } else {
        match parse_number(word) {
            Some(n) => FoodChoice::Number(n),
            None => FoodChoice::Invalid,
        }
    }
}

/// Copies of the items of `inventory` that can be eaten, in order.
pub fn edible_items(inventory: &Vec<Item>) -> (food: Vec<Item>)
    ensures
        item_models(food@) == edible(item_models(inventory@)),
{
    let ghost all = item_models(inventory@);
    let mut food: Vec<Item> = Vec::new();
    let mut i: usize = 0;
    while i < inventory.len()
        invariant
            i <= inventory.len(),
            all == item_models(inventory@),
            item_models(food@) == edible(all.take(i as int)),
        decreases inventory.len() - i,
    {
        assert(all.take(i + 1).drop_last() =~= all.take(i as int));
        if inventory[i].can_eat {
            let item = inventory[i].clone();
            food.push(item);
        }
        i = i + 1;
    }
    assert(all.take(inventory.len() as int) =~= all);
    food
}

fn emit_menu(lines: &mut Vec<String>, food: &Vec<Item>)
    ensures
        texts(final(lines)@) == texts(old(lines)@) + menu(item_models(food@)),
{
    let ghost before = texts(lines@);
    let ghost entries = Seq::new(
        food.len() as nat,
        |k: int| menu_line(k, item_models(food@)[k]),
    );
    emit_str(lines, "Edible items:");
    let mut k: usize = 0;
    while k < food.len()
        invariant
            k <= food.len(),
            entries == Seq::new(food.len() as nat, |k: int| menu_line(k, item_models(food@)[k])),
            texts(lines@) == before + seq!["Edible items:"@] + entries.take(k as int),
        decreases food.len() - k,
    {
        let number = natural_string((k + 1) as u64);
        let heal = decimal_string(food[k].heal_amount as i64);
        let mut line = String::from_str("  ");
        line.append(number.as_str());
        line.append(": ");
        line.append(food[k].name.as_str());
        line.append(" (heals ");
        line.append(heal.as_str());
        line.append(")");
        emit(lines, line);
        k = k + 1;
    }
}

fn emit_status(lines: &mut Vec<String>, player_health: i32, foe_health: i32)
    ensures
        texts(final(lines)@) == texts(old(lines)@) + status_lines(
            player_health as int,
            foe_health as int,
        ),
{
    let ours = decimal_string(player_health as i64);
    let theirs = decimal_string(foe_health as i64);
    emit_str(lines, "\n--- Status ---");
    let mut line = String::from_str("Your HP: ");
    line.append(ours.as_str());
    line.append(" | Enemy HP: ");
    line.append(theirs.as_str());
    emit(lines, line);
    emit_str(lines, "--------------\n");
}

impl Combat {
    /// A fight against the character at `npc_index`, at the player's first turn.
    pub fn new(npc_index: usize) -> (combat: Self)
        ensures
            combat@ == (CombatModel {
                state: CombatState::PlayerTurn,
                npc_index,
                turn_count: 0,
                choosing_food: false,
            }),
    {
        Combat { state: CombatState::PlayerTurn, npc_index, turn_count: 0, choosing_food: false }
    }

    /// Opens a fight against the character at `npc_index`, and returns the
    /// lines that announce it.
    pub fn start_combat(player: &Player, world: &World, npc_index: usize) -> (opening: (
        Combat,
        Vec<String>,
    ))
        requires
            npc_index < world@.npcs.len(),
        ensures
            opening.0@ == (CombatModel {
                state: CombatState::PlayerTurn,
                npc_index,
                turn_count: 0,
                choosing_food: false,
            }),
            texts(opening.1@) == banner(player@, world@.npcs[npc_index as int]),
    {
        let npc = &world.npcs[npc_index];
        let mut lines: Vec<String> = Vec::new();
        emit_str(&mut lines, "\n=== COMBAT INITIATED ===");
        let mut line = String::from_str("You are fighting: ");
        line.append(npc.name.as_str());
        emit(&mut lines, line);
        let mut line = String::from_str("Enemy HP: ");
        line.append(decimal_string(npc.health_points as i64).as_str());
        line.append(" | Enemy AP: ");
        line.append(decimal_string(npc.attack_power as i64).as_str());
        emit(&mut lines, line);
        let mut line = String::from_str("Your HP: ");
        line.append(decimal_string(player.health_points as i64).as_str());
        line.append(" | Your AP: ");
        line.append(decimal_string(player.attack_power as i64).as_str());
        emit(&mut lines, line);
        emit_str(&mut lines, "========================\n");
        (Combat::new(npc_index), lines)
    }

    /// What to ask the player next. A fight that is over asks nothing.
    pub fn prompt(&self) -> (text: Option<String>)
        ensures
            text_of(text) == prompt_of(self@),
    {
        match self.state {
            CombatState::PlayerTurn => {
                if self.choosing_food {
                    Some(String::from_str("Choose item to eat (number) or 'cancel': "))
                } else {
                    Some(String::from_str("Choose action: [A]ttack, [E]at, [S]kill, [R]etreat > "))
                }
            },
            _ => None,
        }
    }

    /// Reads a line as an answer to the prompt that is open.
    pub fn read_event(&self, input: &str) -> (event: CombatEvent)
        ensures
            event == event_of(self@, input@),
    {
        if self.choosing_food {
            CombatEvent::Food(parse_food_choice(input))
        } else {
            match get_player_action(input) {
                Some(action) => CombatEvent::Chosen(action),
                None => CombatEvent::Unclear,
            }
        }
    }

    /// Carries out a choice of food, adds what is said to `lines`, and tells
    /// whether the player's turn is used up.
    pub fn handle_eat_action(player: &mut Player, choice: FoodChoice, lines: &mut Vec<String>) -> (consumed:
        bool)
        requires
            fits_i32(meal(old(player)@, choice).player.health_points),
        ensures
            final(player)@ == meal(old(player)@, choice).player,
            texts(final(lines)@) == texts(old(lines)@) + meal(old(player)@, choice).lines,
            consumed == meal(old(player)@, choice).consumed,
    {
        match choice {
            FoodChoice::Cancel => false,
            FoodChoice::Number(n) => {
                let food = edible_items(&player.inventory);
                if n > 0 && n <= food.len() {
                    let item = &food[n - 1];
                    let heal = item.heal_amount;
                    player.health_points = player.health_points + heal;
                    player.remove_item(item.name.as_str());
                    let mut line = String::from_str("You ate ");
                    line.append(item.name.as_str());
                    if heal >= 0 {
                        line.append(" and gained ");
                        line.append(decimal_string(heal as i64).as_str());
                    } else {
                        line.append(" and lost ");
                        line.append(decimal_string(-(heal as i64)).as_str());
                    }
                    line.append(" HP!");
                    emit(lines, line);
                    true
                } else {
                    emit_str(lines, "Invalid choice!");
                    false
                }
            },
            FoodChoice::Invalid => {
                emit_str(lines, "Invalid choice!");
                false
            },
        }
    }

    /// The turn of the character. Adds what is said to `lines`, and returns
    /// the closing message where the player is defeated.
    pub fn npc_turn(&mut self, player: &mut Player, world: &World, lines: &mut Vec<String>) -> (result:
        Option<String>)
        requires
            old(self).npc_index < world@.npcs.len(),
            fits_i32(counter(old(self)@, old(player)@, world@).player.health_points),
            counter(old(self)@, old(player)@, world@).combat.turn_count <= u32::MAX,
        ensures
            final(self)@ == counter(old(self)@, old(player)@, world@).combat,
            final(player)@ == counter(old(self)@, old(player)@, world@).player,
            texts(final(lines)@) == texts(old(lines)@) + counter(
                old(self)@,
                old(player)@,
                world@,
            ).lines,
            text_of(result) == counter(old(self)@, old(player)@, world@).result,
    {
        let npc = &world.npcs[self.npc_index];
        let damage = npc.attack_power;
        player.health_points = player.health_points - damage;
        let mut line = npc.name.clone();
        line.append(" attacks you for ");
        line.append(decimal_string(damage as i64).as_str());
        line.append(" damage!");
        emit(lines, line);
        if player.health_points <= 0 {
            self.state = CombatState::Defeat;
            emit_str(lines, "\n=== DEFEAT ===");
            emit_str(lines, "You have been defeated...");
            Some(String::from_str("GAME OVER - You died in combat!"))
        } else {
            self.state = CombatState::PlayerTurn;
            self.turn_count = self.turn_count + 1;
            emit_status(lines, player.health_points, npc.health_points);
            None
        }
    }
}

impl Combat {
    /// The player's turn with `action`, and what follows it until the
    /// machine needs the player again or the fight is over. Adds what is said
    /// to `lines`, and returns the closing message once the fight is over.
    pub fn combat_loop(
        &mut self,
        action: CombatAction,
        player: &mut Player,
        world: &mut World,
        lines: &mut Vec<String>,
    ) -> (result: Option<String>)
        requires
            old(self).npc_index < old(world)@.npcs.len(),
            action == CombatAction::Attack ==> fits_i32(
                old(world)@.npcs[old(self).npc_index as int].health_points - old(
                    player,
                )@.attack_power,
            ),
            fits_i32(fight(old(self)@, action, old(player)@, old(world)@).player.health_points),
            fight(old(self)@, action, old(player)@, old(world)@).combat.turn_count <= u32::MAX,
        ensures
            final(self)@ == fight(old(self)@, action, old(player)@, old(world)@).combat,
            final(player)@ == fight(old(self)@, action, old(player)@, old(world)@).player,
            final(world)@ == fight(old(self)@, action, old(player)@, old(world)@).world,
            texts(final(lines)@) == texts(old(lines)@) + fight(
                old(self)@,
                action,
                old(player)@,
                old(world)@,
            ).lines,
            text_of(result) == fight(old(self)@, action, old(player)@, old(world)@).result,
    {
        let ghost foe = world@.npcs[self.npc_index as int];
        match action {
            CombatAction::Attack => {
                let damage = player.attack_power;
                let index = self.npc_index;
                world.npcs[index].health_points = world.npcs[index].health_points - damage;
                let ghost struck = NpcModel { health_points: foe.health_points - damage, ..foe };
                assert(world@.npcs =~= old(world)@.npcs.update(index as int, struck));
                let mut line = String::from_str("You attack for ");
                line.append(decimal_string(damage as i64).as_str());
                line.append(" damage!");
                emit(lines, line);
                if world.npcs[index].health_points <= 0 {
                    self.state = CombatState::Victory;
                    emit_str(lines, "\n=== VICTORY! ===");
                    let mut line = String::from_str("You defeated the ");
                    line.append(world.npcs[index].name.as_str());
                    line.append("!");
                    emit(lines, line);
                    world.npcs.remove(index);
                    assert(world@.npcs =~= old(world)@.npcs.remove(index as int));
                    Some(String::from_str("You emerge victorious from combat!"))
                } else {
                    self.state = CombatState::NPCTurn;
                    emit_status(lines, player.health_points, world.npcs[index].health_points);
                    self.npc_turn(player, world, lines)
                }
            },
            CombatAction::Eat => {
                self.state = CombatState::NPCTurn;
                emit_status(lines, player.health_points, world.npcs[self.npc_index].health_points);
                self.npc_turn(player, world, lines)
            },
            CombatAction::Skill => {
                emit_str(lines, "You don't know any skills yet!");
                None
            },
            CombatAction::Retreat => {
                self.state = CombatState::Fled;
                emit_str(lines, "\n=== RETREAT ===");
                emit_str(lines, "You successfully fled from combat!");
                Some(String::from_str("You escaped from the fight."))
            },
        }
    }

    /// Takes what the player typed and carries the fight on until the
    /// machine needs the player again or the fight is over.
    pub fn advance(&mut self, event: CombatEvent, player: &mut Player, world: &mut World) -> (reply:
        CombatReply)
        requires
            accepts(old(self)@, event, old(player)@, old(world)@),
        ensures
            final(self)@ == respond(old(self)@, event, old(player)@, old(world)@).combat,
            final(player)@ == respond(old(self)@, event, old(player)@, old(world)@).player,
            final(world)@ == respond(old(self)@, event, old(player)@, old(world)@).world,
            texts(reply.lines@) == respond(old(self)@, event, old(player)@, old(world)@).lines,
            text_of(reply.result) == respond(old(self)@, event, old(player)@, old(world)@).result,
            final(world)@.rooms == old(world)@.rooms,
            final(player)@.current_room == old(player)@.current_room,
            old(world)@.valid() ==> final(world)@.valid(),
    {
        proof {
            if world@.valid() {
                lemma_respond_keeps_world_valid(self@, event, player@, world@);
            }
        }
        let mut lines: Vec<String> = Vec::new();
        let result = match event {
            CombatEvent::Unclear => {
                emit_str(&mut lines, "Invalid action! Please choose A, E, S, or R.");
                None
            },
            CombatEvent::Chosen(CombatAction::Eat) => {
                let food = edible_items(&player.inventory);
                if food.len() == 0 {
                    emit_str(&mut lines, "You have no edible items!");
                } else {
                    emit_menu(&mut lines, &food);
                    self.choosing_food = true;
                }
                None
            },
            CombatEvent::Chosen(action) => self.combat_loop(action, player, world, &mut lines),
            CombatEvent::Food(choice) => {
                self.choosing_food = false;
                if Combat::handle_eat_action(player, choice, &mut lines) {
                    self.combat_loop(CombatAction::Eat, player, world, &mut lines)
                } else {
                    None
                }
            },
        };
        CombatReply { lines, result }
    }

    /// Tells whether the machine can take `event`.
    pub fn can_advance(&self, event: CombatEvent, player: &Player, world: &World) -> (ok: bool)
        ensures
            ok == accepts(self@, event, player@, world@),
    {
        match self.state {
            CombatState::PlayerTurn => {},
            _ => {
                return false;
            },
        }
        if self.npc_index >= world.npcs.len() {
            return false;
        }
        let foe = &world.npcs[self.npc_index];
        let next_round = self.turn_count < u32::MAX;
        match event {
            CombatEvent::Unclear => !self.choosing_food,
            CombatEvent::Chosen(CombatAction::Attack) => {
                if self.choosing_food {
                    false
                } else {
                    let foe_health: i64 = foe.health_points as i64 - player.attack_power as i64;
                    let health: i64 = player.health_points as i64 - foe.attack_power as i64;
                    if foe_health < -2147483648 || foe_health > 2147483647 {
                        false
                    } else if foe_health <= 0 {
                        true
                    } else {
                        -2147483648 <= health && health <= 2147483647 && (health <= 0
                            || next_round)
                    }
                }
            },
            CombatEvent::Chosen(_) => !self.choosing_food,
            CombatEvent::Food(choice) => {
                if !self.choosing_food {
                    false
                } else {
                    match choice {
                        FoodChoice::Number(n) => {
                            let food = edible_items(&player.inventory);
                            if n > 0 && n <= food.len() {
                                let fed: i64 = player.health_points as i64 + food[n
                                    - 1].heal_amount as i64;
                                let health: i64 = fed - foe.attack_power as i64;
                                -2147483648 <= fed && fed <= 2147483647 && -2147483648 <= health
                                    && health <= 2147483647 && (health <= 0 || next_round)
                            } else {
                                true
                            }
                        },
                        _ => true,
                    }
                }
            },
        }
    }

    /// Takes a line that the player typed. Where the machine can take it, the
    /// fight is carried on and the reply says what to show. Where it cannot,
    /// nothing changes and there is no reply.
    pub fn feed(&mut self, input: &str, player: &mut Player, world: &mut World) -> (reply: Option<
        CombatReply,
    >)
        ensures
            match reply {
                Some(r) => {
                    let event = event_of(old(self)@, input@);
                    &&& accepts(old(self)@, event, old(player)@, old(world)@)
                    &&& final(self)@ == respond(old(self)@, event, old(player)@, old(world)@).combat
                    &&& final(player)@ == respond(
                        old(self)@,
                        event,
                        old(player)@,
                        old(world)@,
                    ).player
                    &&& final(world)@ == respond(old(self)@, event, old(player)@, old(world)@).world
                    &&& texts(r.lines@) == respond(
                        old(self)@,
                        event,
                        old(player)@,
                        old(world)@,
                    ).lines
                    &&& text_of(r.result) == respond(
                        old(self)@,
                        event,
                        old(player)@,
                        old(world)@,
                    ).result
                },
                None => {
                    &&& !accepts(
                        old(self)@,
                        event_of(old(self)@, input@),
                        old(player)@,
                        old(world)@,
                    )
                    &&& final(self)@ == old(self)@
                    &&& final(player)@ == old(player)@
                    &&& final(world)@ == old(world)@
                },
            },
            final(world)@.rooms == old(world)@.rooms,
            final(player)@.current_room == old(player)@.current_room,
            old(world)@.valid() ==> final(world)@.valid(),
    {
        let event = self.read_event(input);
        if self.can_advance(event, player, world) {
            Some(self.advance(event, player, world))
        } else {
            None
        }
    }
}

/// A retreat ends the fight at once. The character keeps its health and its
/// place, and the player and the rest of the world stay as they are.
pub proof fn lemma_retreat_changes_nothing(c: CombatModel, p: PlayerModel, w: WorldModel)
    ensures
        respond(c, CombatEvent::Chosen(CombatAction::Retreat), p, w).combat == (CombatModel {
            state: CombatState::Fled,
            ..c
        }),
        respond(c, CombatEvent::Chosen(CombatAction::Retreat), p, w).player == p,
        respond(c, CombatEvent::Chosen(CombatAction::Retreat), p, w).world == w,
        respond(c, CombatEvent::Chosen(CombatAction::Retreat), p, w).result == Some(
            "You escaped from the fight."@,
        ),
{
}

/// An attack that brings the character's health to 0 or less wins the fight:
/// the character leaves the world, those behind it move up by one, and the
/// player is not struck.
pub proof fn lemma_winning_attack(c: CombatModel, p: PlayerModel, w: WorldModel)
    requires
        0 <= c.npc_index < w.npcs.len(),
        w.npcs[c.npc_index as int].health_points - p.attack_power <= 0,
    ensures
        fight(c, CombatAction::Attack, p, w).combat.state == CombatState::Victory,
        fight(c, CombatAction::Attack, p, w).player == p,
        fight(c, CombatAction::Attack, p, w).world.npcs == w.npcs.remove(c.npc_index as int),
        fight(c, CombatAction::Attack, p, w).world.npcs.len() == w.npcs.len() - 1,
        fight(c, CombatAction::Attack, p, w).result.is_some(),
{
}

/// An attack that the character survives takes the player's attack power
/// off its health, and the character strikes back: the player loses its
/// attack power in health. A player left with 0 or less is defeated;
/// otherwise one more round is counted and the fight goes on.
pub proof fn lemma_surviving_attack(c: CombatModel, p: PlayerModel, w: WorldModel)
    requires
        0 <= c.npc_index < w.npcs.len(),
        w.npcs[c.npc_index as int].health_points - p.attack_power > 0,
    ensures
        ({
            let foe = w.npcs[c.npc_index as int];
            let round = fight(c, CombatAction::Attack, p, w);
            &&& round.world.npcs.len() == w.npcs.len()
            &&& round.world.npcs[c.npc_index as int].health_points == foe.health_points
                - p.attack_power
            &&& round.player.health_points == p.health_points - foe.attack_power
            &&& if p.health_points - foe.attack_power <= 0 {
                round.combat.state == CombatState::Defeat && round.result.is_some()
            } else {
                &&& round.combat.state == CombatState::PlayerTurn
                &&& round.combat.turn_count == c.turn_count + 1
                &&& round.result.is_none()
            }
        }),
{
}

/// The fight is over exactly when there is a closing message, and it goes
/// on exactly when it is the player's turn again.
pub proof fn lemma_result_when_over(
    c: CombatModel,
    event: CombatEvent,
    p: PlayerModel,
    w: WorldModel,
)
    requires
        c.state == CombatState::PlayerTurn,
    ensures
        respond(c, event, p, w).result.is_none() <==> respond(c, event, p, w).combat.state
            == CombatState::PlayerTurn,
        respond(c, event, p, w).combat.state != CombatState::NPCTurn,
{
}

/// A skill, a line that names no action, and a choice of food that picks
/// nothing do not use up the player's turn: nothing changes but the prompt.
pub proof fn lemma_turn_not_used(c: CombatModel, event: CombatEvent, p: PlayerModel, w: WorldModel)
    requires
        event == CombatEvent::Chosen(CombatAction::Skill) || event == CombatEvent::Unclear || (
        event matches CombatEvent::Food(choice) && !meal(p, choice).consumed),
    ensures
        respond(c, event, p, w).player == p,
        respond(c, event, p, w).world == w,
        respond(c, event, p, w).combat.state == c.state,
        respond(c, event, p, w).combat.turn_count == c.turn_count,
        respond(c, event, p, w).result.is_none(),
{
}

/// A meal uses up the turn, changes the health by exactly the heal amount of
/// the item that was picked, and takes exactly one item out of the
/// inventory: the first of that name, which is the item itself where no two
/// carried items share a name. The rest of the inventory keeps its order, and
/// nothing else about the player changes.
pub proof fn lemma_meal_effect(p: PlayerModel, n: usize)
    requires
        1 <= n <= edible(p.inventory).len(),
    ensures
        ({
            let item = edible(p.inventory)[n - 1];
            let after = meal(p, FoodChoice::Number(n)).player;
            &&& meal(p, FoodChoice::Number(n)).consumed
            &&& p.carried(item.name).is_some()
            &&& after.health_points == p.health_points + item.heal_amount
            &&& after.inventory == p.inventory.remove(p.carried(item.name).unwrap())
            &&& after.inventory.len() == p.inventory.len() - 1
            &&& distinct(item_names(p.inventory)) ==> p.inventory[p.carried(
                item.name,
            ).unwrap()] == item
            &&& after.equipment == p.equipment
            &&& after.attack_power == p.attack_power
            &&& after.current_room == p.current_room
        }),
{
    let item = edible(p.inventory)[n - 1];
    lemma_edible_carried(p.inventory, n - 1);
    let i = choose|i: int| 0 <= i < p.inventory.len() && p.inventory[i] == item;
    assert(item_names(p.inventory)[i] == item.name);
    lemma_position(item_names(p.inventory), item.name);
}

/// Every edible item is an item of the list it was picked from.
pub proof fn lemma_edible_carried(items: Seq<ItemModel>, k: int)
    requires
        0 <= k < edible(items).len(),
    ensures
        exists|i: int| 0 <= i < items.len() && items[i] == edible(items)[k],
    decreases items.len(),
{
    if items.len() > 0 {
        let rest = items.drop_last();
        if !(items.last().can_eat && k == edible(rest).len()) {
            lemma_edible_carried(rest, k);
        }
    }
}

/// A fight touches no exit: a valid world stays valid.
pub proof fn lemma_respond_keeps_world_valid(
    c: CombatModel,
    event: CombatEvent,
    p: PlayerModel,
    w: WorldModel,
)
    requires
        w.valid(),
    ensures
        respond(c, event, p, w).world.valid(),
{
    let after = respond(c, event, p, w).world;
    assert(after.rooms == w.rooms);
    lemma_same_exits_valid(w, after);
}

} // verus!
