//! Weapons and what the player has equipped.

use vstd::prelude::*;

verus! {

#[derive(Clone, Copy, Debug, PartialEq, Eq, Structural)]
pub enum WeaponKind {
    Melee,
    Ranged,
}

/// What a weapon does: damage in thousandths of a hit point, cooldown and
/// projectile lifetime in microseconds, projectile speed in thousandths of
/// a world unit per second, melee range and width in thousandths of a world
/// unit.
#[derive(Clone, Copy, Debug, PartialEq, Eq, Structural)]
pub struct WeaponDef {
    pub kind: WeaponKind,
    pub damage: u32,
    pub cooldown: u32,
    pub projectile_speed: u32,
    pub projectile_lifetime: u32,
    pub melee_range: u32,
    pub melee_width: u32,
}

/// The weapon values that an attack reads, copied from the equipped weapon.
#[derive(Clone, Copy, Debug, PartialEq, Eq, Structural)]
pub struct EquipmentSet {
    pub weapon_kind: WeaponKind,
    pub weapon_damage: u32,
    pub weapon_attack_cooldown: u32,
    pub weapon_projectile_speed: u32,
    pub weapon_projectile_lifetime: u32,
    pub melee_range: u32,
    pub melee_width: u32,
}

#[derive(Clone, Copy, Debug, PartialEq, Eq, Hash, Structural)]
pub enum ItemId {
    RustySword,
    MagicWand,
    HunterBow,
}

/// The weapon that `id` names.
pub open spec fn weapon_of(id: ItemId) -> WeaponDef {
    match id {
        ItemId::RustySword => WeaponDef {
            kind: WeaponKind::Melee,
            damage: 20_000,
            cooldown: 600_000,
            projectile_speed: 400_000,
            projectile_lifetime: 1_000_000,
            melee_range: 80_000,
            melee_width: 40_000,
        },
        ItemId::MagicWand => WeaponDef {
            kind: WeaponKind::Ranged,
            damage: 14_000,
            cooldown: 350_000,
            projectile_speed: 520_000,
            projectile_lifetime: 1_200_000,
            melee_range: 60_000,
            melee_width: 30_000,
        },
        ItemId::HunterBow => WeaponDef {
            kind: WeaponKind::Ranged,
            damage: 18_000,
            cooldown: 550_000,
            projectile_speed: 650_000,
            projectile_lifetime: 1_000_000,
            melee_range: 60_000,
            melee_width: 30_000,
        },
    }
}

/// The equipment that a weapon gives.
pub open spec fn equipment_of(def: WeaponDef) -> EquipmentSet {
    EquipmentSet {
        weapon_kind: def.kind,
        weapon_damage: def.damage,
        weapon_attack_cooldown: def.cooldown,
        weapon_projectile_speed: def.projectile_speed,
        weapon_projectile_lifetime: def.projectile_lifetime,
        melee_range: def.melee_range,
        melee_width: def.melee_width,
    }
}

impl Default for ItemId {
    fn default() -> (id: ItemId)
        ensures
            id == ItemId::RustySword,
    {
        ItemId::RustySword
    }
}

impl ItemId {
    pub fn display_name(self) -> (name: &'static str)
        ensures
            name@ == (match self {
                ItemId::RustySword => "生锈短剑"@,
                ItemId::MagicWand => "法杖"@,
                ItemId::HunterBow => "猎弓"@,
            }),
    {
        match self {
            ItemId::RustySword => "生锈短剑",
            ItemId::MagicWand => "法杖",
            ItemId::HunterBow => "猎弓",
        }
    }

    pub fn icon_path(self) -> (path: &'static str)
        ensures
            path@ == (match self {
                ItemId::RustySword => "items/rusty_sword.png"@,
                ItemId::MagicWand => "items/magic_wand.png"@,
                ItemId::HunterBow => "items/hunter_bow.png"@,
            }),
    {
        match self {
            ItemId::RustySword => "items/rusty_sword.png",
            ItemId::MagicWand => "items/magic_wand.png",
            ItemId::HunterBow => "items/hunter_bow.png",
        }
    }
}

/// The weapons of the game, by item.
#[derive(Clone, Copy, Debug)]
pub struct ItemDatabase {
    rusty_sword: WeaponDef,
    magic_wand: WeaponDef,
    hunter_bow: WeaponDef,
}

impl ItemDatabase {
    /// The weapon that the database holds for `id`.
    pub closed spec fn entry(self, id: ItemId) -> WeaponDef {
        match id {
            ItemId::RustySword => self.rusty_sword,
            ItemId::MagicWand => self.magic_wand,
            ItemId::HunterBow => self.hunter_bow,
        }
    }

    /// The weapon named by `id`: every item has one.
    pub fn weapon(&self, id: ItemId) -> (def: Option<&WeaponDef>)
        ensures
            def == Some(&self.entry(id)),
    {
        match id {
            ItemId::RustySword => Some(&self.rusty_sword),
            ItemId::MagicWand => Some(&self.magic_wand),
            ItemId::HunterBow => Some(&self.hunter_bow),
        }
    }
}

impl Default for ItemDatabase {
    fn default() -> (db: ItemDatabase)
        ensures
            forall|id: ItemId| #[trigger] db.entry(id) == weapon_of(id),
    {
        ItemDatabase {
            rusty_sword: WeaponDef {
                kind: WeaponKind::Melee,
                damage: 20_000,
                cooldown: 600_000,
                projectile_speed: 400_000,
                projectile_lifetime: 1_000_000,
                melee_range: 80_000,
                melee_width: 40_000,
            },
            magic_wand: WeaponDef {
                kind: WeaponKind::Ranged,
                damage: 14_000,
                cooldown: 350_000,
                projectile_speed: 520_000,
                projectile_lifetime: 1_200_000,
                melee_range: 60_000,
                melee_width: 30_000,
            },
            hunter_bow: WeaponDef {
                kind: WeaponKind::Ranged,
                damage: 18_000,
                cooldown: 550_000,
                projectile_speed: 650_000,
                projectile_lifetime: 1_000_000,
                melee_range: 60_000,
                melee_width: 30_000,
            },
        }
    }
}

impl EquipmentSet {
    pub fn from_weapon(def: &WeaponDef) -> (set: EquipmentSet)
        ensures
            set == equipment_of(*def),
    {
        EquipmentSet {
            weapon_kind: def.kind,
            weapon_damage: def.damage,
            weapon_attack_cooldown: def.cooldown,
            weapon_projectile_speed: def.projectile_speed,
            weapon_projectile_lifetime: def.projectile_lifetime,
            melee_range: def.melee_range,
            melee_width: def.melee_width,
        }
    }
}

impl Default for EquipmentSet {
    /// The equipment of the rusty sword.
    fn default() -> (set: EquipmentSet)
        ensures
            set == equipment_of(weapon_of(ItemId::RustySword)),
    {
        EquipmentSet {
            weapon_kind: WeaponKind::Melee,
            weapon_damage: 20_000,
            weapon_attack_cooldown: 600_000,
            weapon_projectile_speed: 400_000,
            weapon_projectile_lifetime: 1_000_000,
            melee_range: 80_000,
            melee_width: 40_000,
        }
    }
}

/// The items that the player has equipped.
#[derive(Clone, Copy, Debug, PartialEq, Eq, Structural)]
pub struct EquippedItems {
    pub weapon: ItemId,
}

impl Default for EquippedItems {
    fn default() -> (items: EquippedItems)
        ensures
            items.weapon == ItemId::RustySword,
    {
        EquippedItems { weapon: ItemId::RustySword }
    }
}

} // verus!
