//! The player: where they stand, what they carry and wear, and their health
//! and attack power.
use super::labels::lookup;
use super::text::{lemma_position, lemma_position_is, position};
use super::world::{find_item, item_models, item_names, Item, ItemModel, World, WorldModel};
use vstd::prelude::*;
use vstd::string::*;

verus! {

/// The health a player starts with.
pub const STARTING_HEALTH: i32 = 100;

/// The attack power of a player who wears nothing.
pub const BASE_ATTACK: i32 = 10;

/// Tells whether `n` can be held in an `i32`.
pub open spec fn fits_i32(n: int) -> bool {
    i32::MIN <= n <= i32::MAX
}

/// The sum of the attack bonuses of a list of items.
pub open spec fn bonus_total(items: Seq<ItemModel>) -> int
    decreases items.len(),
{
    if items.len() == 0 {
        0
    } else {
        bonus_total(items.drop_last()) + items.last().attack_increase_amount
    }
}

/// What a player is, as plain values.
pub struct PlayerModel {
    pub current_room: usize,
    pub inventory: Seq<ItemModel>,
    pub health_points: int,
    pub attack_power: int,
    pub equipment: Seq<ItemModel>,
}

impl PlayerModel {
    /// The player after picking `item` up: it goes to the end of the inventory.
    pub open spec fn holding(self, item: ItemModel) -> PlayerModel {
        PlayerModel { inventory: self.inventory.push(item), ..self }
    }

    /// The player after putting `item` on: it goes to the end of the
    /// equipment, and its bonus is added to the attack power.
    pub open spec fn wearing(self, item: ItemModel) -> PlayerModel {
        PlayerModel {
            equipment: self.equipment.push(item),
            attack_power: self.attack_power + item.attack_increase_amount,
            ..self
        }
    }

    /// Where the first item called `name` is in the inventory.
    pub open spec fn carried(self, name: Seq<char>) -> Option<int> {
        position(item_names(self.inventory), name)
    }

    /// Where the first item called `name` is in the equipment.
    pub open spec fn worn(self, name: Seq<char>) -> Option<int> {
        position(item_names(self.equipment), name)
    }

    /// The player without the first item called `name` in the inventory.
    pub open spec fn without_item(self, name: Seq<char>) -> PlayerModel {
        match self.carried(name) {
            Some(i) => PlayerModel { inventory: self.inventory.remove(i), ..self },
            None => self,
        }
    }

    /// The player without the first item called `name` in the equipment, and
    /// without its bonus.
    pub open spec fn without_gear(self, name: Seq<char>) -> PlayerModel {
        match self.worn(name) {
            Some(i) => PlayerModel {
                equipment: self.equipment.remove(i),
                attack_power: self.attack_power - self.equipment[i].attack_increase_amount,
                ..self
            },
            None => self,
        }
    }

    /// The player after a change of `amount` in health.
    pub open spec fn healed(self, amount: int) -> PlayerModel {
        PlayerModel { health_points: self.health_points + amount, ..self }
    }

    /// Tells whether the attack power is the base plus the bonuses of what is worn.
    pub open spec fn consistent(self) -> bool {
        self.attack_power == BASE_ATTACK + bonus_total(self.equipment)
    }

    /// Where the exit `direction` of the player's room leads, if the room has
    /// such an exit.
    pub open spec fn exit_target(self, world: WorldModel, direction: Seq<char>) -> Option<usize> {
        lookup(world.rooms[self.current_room as int].exits, direction)
    }

    /// Tells whether the player stands in a room of `world`.
    pub open spec fn inside(self, world: WorldModel) -> bool {
        self.current_room < world.rooms.len()
    }
}

/// Why a move failed.
#[derive(Debug, PartialEq, Eq, Structural, Clone, Copy)]
pub enum Error {
    /// The room has no exit under that label.
    NoSuchExit,
}

impl Error {
    /// What the player is told.
    pub fn message(&self) -> (text: String)
        ensures
            text@ == "You can't go that way."@,
    {
        String::from_str("You can't go that way.")
    }
}

/// The one who plays.
#[derive(Debug)]
pub struct Player {
    pub current_room: usize,
    pub inventory: Vec<Item>,
    pub health_points: i32,
    pub attack_power: i32,
    pub equipment: Vec<Item>,
}

impl View for Player {
    type V = PlayerModel;

    open spec fn view(&self) -> PlayerModel {
        PlayerModel {
            current_room: self.current_room,
            inventory: item_models(self.inventory@),
            health_points: self.health_points as int,
            attack_power: self.attack_power as int,
            equipment: item_models(self.equipment@),
        }
    }
}

impl Clone for Player {
    /// A copy that is equal to the player in every field.
    fn clone(&self) -> (copy: Self)
        ensures
            copy@ == self@,
    {
        let inventory = self.inventory.clone();
        assert(item_models(inventory@) =~= item_models(self.inventory@));
        let equipment = self.equipment.clone();
        assert(item_models(equipment@) =~= item_models(self.equipment@));
        Player {
            current_room: self.current_room,
            inventory,
            health_points: self.health_points,
            attack_power: self.attack_power,
            equipment,
        }
    }
}

impl Player {
    /// A player in `starting_room`, with empty hands, full health and the
    /// base attack power.
    pub fn new(starting_room: usize) -> (player: Self)
        ensures
            player@ == (PlayerModel {
                current_room: starting_room,
                inventory: Seq::empty(),
                health_points: STARTING_HEALTH as int,
                attack_power: BASE_ATTACK as int,
                equipment: Seq::empty(),
            }),
            player@.consistent(),
    {
        let player = Player {
            current_room: starting_room,
            inventory: Vec::new(),
            health_points: STARTING_HEALTH,
            attack_power: BASE_ATTACK,
            equipment: Vec::new(),
        };
        assert(player@.inventory =~= Seq::empty());
        player
    }

    /// Puts `item` on and adds its bonus to the attack power.
    pub fn equip_item(&mut self, item: Item)
        requires
            fits_i32(old(self)@.attack_power + item@.attack_increase_amount),
        ensures
            final(self)@ == old(self)@.wearing(item@),
    {
        self.attack_power = self.attack_power + item.attack_increase_amount;
        self.equipment.push(item);
        assert(self@.equipment =~= old(self)@.equipment.push(item@));
    }

    /// Adds `item` to the inventory.
    pub fn take_item(&mut self, item: Item)
        ensures
            final(self)@ == old(self)@.holding(item@),
    {
        self.inventory.push(item);
        assert(self@.inventory =~= old(self)@.inventory.push(item@));
    }

    /// Takes off the first worn item called `name`, takes its bonus away from
    /// the attack power, and hands the item back.
    pub fn unequip_item(&mut self, item_name: &str) -> (taken: Option<Item>)
        requires
            fits_i32(old(self)@.without_gear(item_name@).attack_power),
        ensures
            final(self)@ == old(self)@.without_gear(item_name@),
            match taken {
                Some(item) => old(self)@.worn(item_name@).is_some() && item@ == old(
                    self,
                )@.equipment[old(self)@.worn(item_name@).unwrap()],
                None => old(self)@.worn(item_name@).is_none(),
            },
    {
        match find_item(&self.equipment, item_name) {
            Some(index) => {
                let item = self.equipment.remove(index);
                self.attack_power = self.attack_power - item.attack_increase_amount;
                assert(self@.equipment =~= old(self)@.equipment.remove(index as int));
                Some(item)
            },
            None => None,
        }
    }

    /// Takes the first carried item called `name` out of the inventory and
    /// hands it back.
    pub fn remove_item(&mut self, item_name: &str) -> (taken: Option<Item>)
        ensures
            final(self)@ == old(self)@.without_item(item_name@),
            match taken {
                Some(item) => old(self)@.carried(item_name@).is_some() && item@ == old(
                    self,
                )@.inventory[old(self)@.carried(item_name@).unwrap()],
                None => old(self)@.carried(item_name@).is_none(),
            },
    {
        match find_item(&self.inventory, item_name) {
            Some(index) => {
                let item = self.inventory.remove(index);
                assert(self@.inventory =~= old(self)@.inventory.remove(index as int));
                Some(item)
            },
            None => None,
        }
    }

    /// Walks through the exit `direction` of the room the player stands in.
    /// Where the room has no such exit the player stays. The target is not
    /// checked: in a world that is not valid the player may end up outside it.
    pub fn move_room(&mut self, direction: &str, world: &World) -> (moved: Result<(), Error>)
        requires
            old(self)@.inside(world@),
        ensures
            match old(self)@.exit_target(world@, direction@) {
                Some(target) => moved == Ok::<(), Error>(()) && final(self)@ == (PlayerModel {
                    current_room: target,
                    ..old(self)@
                }),
                None => moved == Err::<(), Error>(Error::NoSuchExit) && final(self)@ == old(
                    self,
                )@,
            },
    {
        let current_room = &world.rooms[self.current_room];
        match current_room.exits.get(direction) {
            Some(next_room_index) => {
                self.current_room = *next_room_index;
                Ok(())
            },
            None => Err(Error::NoSuchExit),
        }
    }
}

/// Putting an item on adds its bonus to the total.
pub proof fn lemma_bonus_total_push(items: Seq<ItemModel>, item: ItemModel)
    ensures
        bonus_total(items.push(item)) == bonus_total(items) + item.attack_increase_amount,
{
    assert(items.push(item).drop_last() =~= items);
}

/// Taking an item off takes its bonus off the total.
pub proof fn lemma_bonus_total_remove(items: Seq<ItemModel>, i: int)
    requires
        0 <= i < items.len(),
    ensures
        bonus_total(items.remove(i)) == bonus_total(items) - items[i].attack_increase_amount,
    decreases items.len(),
{
    if i == items.len() - 1 {
        assert(items.remove(i) =~= items.drop_last());
    } else {
        lemma_bonus_total_remove(items.drop_last(), i);
        assert(items.remove(i).drop_last() =~= items.drop_last().remove(i));
    }
}

/// Putting an item on keeps the attack power equal to the base plus the
/// bonuses of what is worn.
pub proof fn lemma_wearing_consistent(p: PlayerModel, item: ItemModel)
    requires
        p.consistent(),
    ensures
        p.wearing(item).consistent(),
{
    lemma_bonus_total_push(p.equipment, item);
}

/// Taking an item off keeps the attack power equal to the base plus the
/// bonuses of what is worn.
pub proof fn lemma_without_gear_consistent(p: PlayerModel, name: Seq<char>)
    requires
        p.consistent(),
    ensures
        p.without_gear(name).consistent(),
{
    lemma_position(item_names(p.equipment), name);
    match p.worn(name) {
        Some(i) => {
            lemma_bonus_total_remove(p.equipment, i);
        },
        None => {},
    }
}

/// Putting an item on and taking it off again restores the player, attack
/// power included, when nothing of that name was worn before.
pub proof fn lemma_wear_then_take_off(p: PlayerModel, item: ItemModel)
    requires
        p.worn(item.name).is_none(),
    ensures
        p.wearing(item).without_gear(item.name) == p,
{
    let before = item_names(p.equipment);
    let after = item_names(p.wearing(item).equipment);
    lemma_position(before, item.name);
    assert(after =~= before.push(item.name));
    lemma_position_is(after, item.name, before.len() as int);
    assert(p.equipment.push(item).remove(p.equipment.len() as int) =~= p.equipment);
}

/// Picking an item up and taking it out again restores the player when
/// nothing of that name was carried before.
pub proof fn lemma_hold_then_remove(p: PlayerModel, item: ItemModel)
    requires
        p.carried(item.name).is_none(),
    ensures
        p.holding(item).without_item(item.name) == p,
{
    let before = item_names(p.inventory);
    let after = item_names(p.holding(item).inventory);
    lemma_position(before, item.name);
    assert(after =~= before.push(item.name));
    lemma_position_is(after, item.name, before.len() as int);
    assert(p.inventory.push(item).remove(p.inventory.len() as int) =~= p.inventory);
}

} // verus!
