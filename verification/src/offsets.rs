//! The fixed image-relative offsets the engine is configured with. Every
//! absolute address is `module_base + offset`; this table is owned by the
//! target-binary version and changes with it.

use vstd::prelude::*;

verus! {

/// In-game faction identifier string.
pub const FACTION_STRING: u64 = 0x16C2F68;

/// The game-world object.
pub const GAME_WORLD_OFFSET: u64 = 0x2133040;

/// The engine's pause routine.
pub const SET_PAUSED: u64 = 0x7876A0;

/// Hook site inside the character-update routine.
pub const CHAR_UPDATE_HOOK: u64 = 0x65F6C7;

/// Hook site inside the building-update routine.
pub const BUILDING_UPDATE_HOOK: u64 = 0x9FAA57;

/// Handle consumed by the item-spawning routine.
pub const ITEM_SPAWNING_HAND: u64 = 0x1E395F8;

/// First argument of the item-spawning routine.
pub const ITEM_SPAWNING_MAGIC: u64 = 0x21334E0;

/// The item-spawning routine.
pub const SPAWN_ITEM_FUNC: u64 = 0x2E41F;

/// Inventory-section lookup by name.
pub const GET_SECTION_FROM_INV_BY_NAME: u64 = 0x4FE3F;

/// The main game-data manager: the word the heap scan looks for.
pub const GAME_DATA_MANAGER_MAIN: u64 = 0x2133060;

/// The foliage game-data manager.
pub const GAME_DATA_MANAGER_FOLIAGE: u64 = 0x21331E0;

/// The squads game-data manager.
pub const GAME_DATA_MANAGER_SQUADS: u64 = 0x2133360;

/// Hook site of the squad-spawning check bypass.
pub const SPAWN_SQUAD_BYPASS: u64 = 0x4FF47C;

/// Hook site of the squad-spawning injection.
pub const SPAWN_SQUAD_FUNC_CALL: u64 = 0x4FFA88;

/// Handle consumed by the squad-spawning routine.
pub const SQUAD_SPAWNING_HAND: u64 = 0x21334E0;

/// Offset of the manager back-pointer inside a game-data object: a heap
/// scan hit for a manager address sits this far into the owning object.
pub const GAME_DATA_MANAGER_FIELD: u64 = 0x10;

} // verus!
