//! Menu and tooltip queries: what the player carries, what a menu selection
//! means, and which names stand on a cell. Drawing them is the host's
//! concern; the decisions live here.

use vstd::prelude::*;
use crate::state::MenuCommand;
use crate::world::World;

verus! {

/// The host's answer after showing an item menu.
#[derive(Clone, Copy, PartialEq, Eq, Structural, Debug)]
pub enum ItemMenuResult {
    /// The menu was closed without choosing.
    Cancel,
    /// Nothing was chosen this tick; the menu stays open.
    NoResponse,
    /// The listed entity was chosen.
    Selected(usize),
}

/// Entity `e` is shown in the player's inventory: carried by the player and
/// named.
pub open spec fn in_player_inventory(w: World, e: int) -> bool {
    &&& 0 <= e < w.num_entities()
    &&& w.backpacks@[e] is Some
    &&& w.backpacks@[e]->Some_0.owner == w.player_entity
    &&& w.names@[e] is Some
}

/// The player's inventory among entities `0..n`, in ascending handle order.
pub open spec fn inventory_list(w: World, n: int) -> Seq<usize>
    decreases n,
{
    if n <= 0 {
        Seq::empty()
    } else {
        let rest = inventory_list(w, n - 1);
        if in_player_inventory(w, n - 1) {
            rest.push((n - 1) as usize)
        } else {
            rest
        }
    }
}

/// What an item menu answers for a given command over the current
/// inventory: closing cancels, a listed index selects its entity, anything
/// else waits.
pub open spec fn menu_outcome(w: World, cmd: MenuCommand) -> ItemMenuResult {
    let inv = inventory_list(w, w.num_entities());
    match cmd {
        MenuCommand::Exit => ItemMenuResult::Cancel,
        MenuCommand::Nothing => ItemMenuResult::NoResponse,
        MenuCommand::Choose { index } => {
            if 0 <= index && (index as int) < inv.len() {
                ItemMenuResult::Selected(inv[index as int])
            } else {
                ItemMenuResult::NoResponse
            }
        },
    }
}

/// Every inventory entry is a real slot and really in the inventory.
pub proof fn lemma_inventory_list_entries(w: World, n: int)
    requires
        0 <= n <= w.num_entities(),
        n <= usize::MAX,
    ensures
        forall|j: int|
            0 <= j < inventory_list(w, n).len() ==> in_player_inventory(
                w,
                #[trigger] inventory_list(w, n)[j] as int,
            ) && (inventory_list(w, n)[j] as int) < n,
    decreases n,
{
    if n > 0 {
        lemma_inventory_list_entries(w, n - 1);
        let rest = inventory_list(w, n - 1);
        let cur = inventory_list(w, n);
        assert(cur == if in_player_inventory(w, n - 1) {
            rest.push((n - 1) as usize)
        } else {
            rest
        });
        assert forall|j: int|
            0 <= j < cur.len() implies in_player_inventory(w, #[trigger] cur[j] as int) && (
        cur[j] as int) < n by {
            if in_player_inventory(w, n - 1) {
                if j < cur.len() - 1 {
                    assert(cur[j] == rest[j]);
                } else {
                    assert(cur[j] == (n - 1) as usize);
                }
            } else {
                assert(cur[j] == rest[j]);
            }
        }
    }
}

/// The entities the player carries, each with a name, in ascending handle
/// order.
pub fn player_inventory(world: &World) -> (r: Vec<usize>)
    requires
        world.wf(),
    ensures
        r@ == inventory_list(*world, world.num_entities()),
        forall|j: int|
            0 <= j < r@.len() ==> in_player_inventory(*world, #[trigger] r@[j] as int),
{
    let n: usize = world.alive.len();
    let mut r: Vec<usize> = Vec::new();
    let mut e: usize = 0;
    while e < n
        invariant
            e <= n,
            n == world.num_entities(),
            world.wf(),
            r@ == inventory_list(*world, e as int),
        decreases n - e,
    {
        let carried = match &world.backpacks[e] {
            Some(b) => b.owner == world.player_entity,
            None => false,
        };
        if carried && world.names[e].is_some() {
            r.push(e);
        }
        e += 1;
    }
    proof {
        lemma_inventory_list_entries(*world, n as int);
    }
    r
}

/// Interpret one command against the player's inventory menu.
fn menu_interact(world: &World, cmd: MenuCommand) -> (r: ItemMenuResult)
    requires
        world.wf(),
    ensures
        r == menu_outcome(*world, cmd),
{
    let inv = player_inventory(world);
    match cmd {
        MenuCommand::Exit => ItemMenuResult::Cancel,
        MenuCommand::Nothing => ItemMenuResult::NoResponse,
        MenuCommand::Choose { index } => {
            if index >= 0 && (index as usize) < inv.len() {
                ItemMenuResult::Selected(inv[index as usize])
            } else {
                ItemMenuResult::NoResponse
            }
        },
    }
}

/// The inventory menu: interpret one command against what the player
/// carries.
pub fn show_inventory(world: &World, cmd: MenuCommand) -> (r: ItemMenuResult)
    requires
        world.wf(),
    ensures
        r == menu_outcome(*world, cmd),
{
    menu_interact(world, cmd)
}

/// The drop-item menu: the same list and interpretation as the inventory
/// menu; only what the controller does with the selection differs.
pub fn drop_item_menu(world: &World, cmd: MenuCommand) -> (r: ItemMenuResult)
    requires
        world.wf(),
    ensures
        r == menu_outcome(*world, cmd),
{
    menu_interact(world, cmd)
}

/// The names standing on cell `(x, y)` among entities `0..n`, in ascending
/// handle order.
pub open spec fn names_at_list(w: World, x: int, y: int, n: int) -> Seq<String>
    decreases n,
{
    if n <= 0 {
        Seq::empty()
    } else {
        let rest = names_at_list(w, x, y, n - 1);
        let e = n - 1;
        if w.names@[e] is Some && w.positions@[e] is Some && w.positions@[e]->Some_0.x == x
            && w.positions@[e]->Some_0.y == y {
            rest.push(w.names@[e]->Some_0.name)
        } else {
            rest
        }
    }
}

/// The display names of every named entity standing on `(x, y)`; the host's
/// tooltip renderer consumes this.
pub fn names_at(world: &World, x: i32, y: i32) -> (r: Vec<String>)
    requires
        world.wf(),
    ensures
        r@ == names_at_list(*world, x as int, y as int, world.num_entities()),
{
    let n: usize = world.alive.len();
    let mut r: Vec<String> = Vec::new();
    let mut e: usize = 0;
    while e < n
        invariant
            e <= n,
            n == world.num_entities(),
            world.wf(),
            r@ == names_at_list(*world, x as int, y as int, e as int),
        decreases n - e,
    {
        let here = match world.positions[e] {
            Some(p) => p.x == x && p.y == y,
            None => false,
        };
        if here {
            match &world.names[e] {
                Some(nm) => {
                    r.push(nm.name.clone());
                },
                None => {},
            }
        }
        e += 1;
    }
    r
}

} // verus!
