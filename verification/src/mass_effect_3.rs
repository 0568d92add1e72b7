//! The third title's save model: the squad roster and its nested records,
//! and the save tree that carries the sparse plot table.
//!
//! Each composite's wire shape is its fields in declared order, grouped as
//! nested pairs so the pair combinator carries the round-trip proofs.

use vstd::prelude::*;

use crate::codec::SaveData;
use crate::cursor::{Cursor, DecodeError};
use crate::mass_effect_2::{Difficulty, Power, PowerV};
use crate::plot::{SparsePlotTable, SparsePlotV};
use crate::shared::{EndGameState, SaveString};

verus! {

// ---------------------------------------------------------------------------
// A carried weapon.
// ---------------------------------------------------------------------------

#[derive(Clone, Debug, PartialEq, Eq, Default)]
pub struct Weapon {
    pub class_name: SaveString,
    pub ammo_used_count: i32,
    pub ammo_total_count: i32,
    pub current_weapon: bool,
    pub was_last_weapon: bool,
}

pub struct WeaponV {
    pub class_name: Seq<u16>,
    pub ammo_used_count: i32,
    pub ammo_total_count: i32,
    pub current_weapon: bool,
    pub was_last_weapon: bool,
}

impl DeepView for Weapon {
    type V = WeaponV;

    open spec fn deep_view(&self) -> WeaponV {
        WeaponV {
            class_name: self.class_name.deep_view(),
            ammo_used_count: self.ammo_used_count,
            ammo_total_count: self.ammo_total_count,
            current_weapon: self.current_weapon,
            was_last_weapon: self.was_last_weapon,
        }
    }
}

pub type WeaponWire = ((SaveString, (i32, i32)), (bool, bool));

pub open spec fn weapon_wire_view(v: WeaponV) -> <WeaponWire as DeepView>::V {
    ((v.class_name, (v.ammo_used_count, v.ammo_total_count)), (
        v.current_weapon,
        v.was_last_weapon,
    ))
}

pub open spec fn weapon_of_wire(w: <WeaponWire as DeepView>::V) -> WeaponV {
    WeaponV {
        class_name: w.0.0,
        ammo_used_count: w.0.1.0,
        ammo_total_count: w.0.1.1,
        current_weapon: w.1.0,
        was_last_weapon: w.1.1,
    }
}

impl SaveData for Weapon {
    open spec fn inv(v: WeaponV) -> bool {
        <WeaponWire as SaveData>::inv(weapon_wire_view(v))
    }

    open spec fn ser(v: WeaponV) -> Seq<u8> {
        <WeaponWire as SaveData>::ser(weapon_wire_view(v))
    }

    open spec fn parse(buf: Seq<u8>, pos: int) -> Result<(WeaponV, int), DecodeError> {
        match <WeaponWire as SaveData>::parse(buf, pos) {
            Ok((w, p)) => Ok((weapon_of_wire(w), p)),
            Err(e) => Err(e),
        }
    }

    proof fn lemma_parse_ser(v: WeaponV, pre: Seq<u8>, rest: Seq<u8>) {
        <WeaponWire as SaveData>::lemma_parse_ser(weapon_wire_view(v), pre, rest);
        assert(weapon_of_wire(weapon_wire_view(v)) == v);
    }

    fn encode(&self, out: &mut Vec<u8>) {
        self.class_name.encode(out);
        self.ammo_used_count.encode(out);
        self.ammo_total_count.encode(out);
        self.current_weapon.encode(out);
        self.was_last_weapon.encode(out);
        proof {
            assert(final(out)@ =~= old(out)@ + Self::ser(self.deep_view()));
        }
    }

    fn decode(cur: &mut Cursor) -> (r: Result<Weapon, DecodeError>) {
        let w = match <WeaponWire as SaveData>::decode(cur) {
            Ok(w) => w,
            Err(e) => {
                return Err(e);
            },
        };
        let ((class_name, (ammo_used_count, ammo_total_count)), (current_weapon, was_last_weapon))
            = w;
        Ok(Weapon { class_name, ammo_used_count, ammo_total_count, current_weapon, was_last_weapon })
    }
}

// ---------------------------------------------------------------------------
// The mod list of one weapon.
// ---------------------------------------------------------------------------

#[derive(Clone, Debug, PartialEq, Eq, Default)]
pub struct WeaponMod {
    pub weapon_class_name: SaveString,
    pub weapon_mods: Vec<SaveString>,
}

pub struct WeaponModV {
    pub weapon_class_name: Seq<u16>,
    pub weapon_mods: Seq<Seq<u16>>,
}

impl DeepView for WeaponMod {
    type V = WeaponModV;

    open spec fn deep_view(&self) -> WeaponModV {
        WeaponModV {
            weapon_class_name: self.weapon_class_name.deep_view(),
            weapon_mods: self.weapon_mods.deep_view(),
        }
    }
}

pub type WeaponModWire = (SaveString, Vec<SaveString>);

pub open spec fn weapon_mod_wire_view(v: WeaponModV) -> <WeaponModWire as DeepView>::V {
    (v.weapon_class_name, v.weapon_mods)
}

pub open spec fn weapon_mod_of_wire(w: <WeaponModWire as DeepView>::V) -> WeaponModV {
    WeaponModV { weapon_class_name: w.0, weapon_mods: w.1 }
}

impl SaveData for WeaponMod {
    open spec fn inv(v: WeaponModV) -> bool {
        <WeaponModWire as SaveData>::inv(weapon_mod_wire_view(v))
    }

    open spec fn ser(v: WeaponModV) -> Seq<u8> {
        <WeaponModWire as SaveData>::ser(weapon_mod_wire_view(v))
    }

    open spec fn parse(buf: Seq<u8>, pos: int) -> Result<(WeaponModV, int), DecodeError> {
        match <WeaponModWire as SaveData>::parse(buf, pos) {
            Ok((w, p)) => Ok((weapon_mod_of_wire(w), p)),
            Err(e) => Err(e),
        }
    }

    proof fn lemma_parse_ser(v: WeaponModV, pre: Seq<u8>, rest: Seq<u8>) {
        <WeaponModWire as SaveData>::lemma_parse_ser(weapon_mod_wire_view(v), pre, rest);
        assert(weapon_mod_of_wire(weapon_mod_wire_view(v)) == v);
    }

    fn encode(&self, out: &mut Vec<u8>) {
        self.weapon_class_name.encode(out);
        self.weapon_mods.encode(out);
        proof {
            assert(final(out)@ =~= old(out)@ + Self::ser(self.deep_view()));
        }
    }

    fn decode(cur: &mut Cursor) -> (r: Result<WeaponMod, DecodeError>) {
        let w = match <WeaponModWire as SaveData>::decode(cur) {
            Ok(w) => w,
            Err(e) => {
                return Err(e);
            },
        };
        let (weapon_class_name, weapon_mods) = w;
        Ok(WeaponMod { weapon_class_name, weapon_mods })
    }
}

// ---------------------------------------------------------------------------
// The weapon loadout: six class-name slots in fixed order.
// ---------------------------------------------------------------------------

#[derive(Clone, Debug, PartialEq, Eq, Default)]
pub struct WeaponLoadout {
    pub assault_rifle: SaveString,
    pub shotgun: SaveString,
    pub sniper_rifle: SaveString,
    pub submachine_gun: SaveString,
    pub pistol: SaveString,
    pub heavy_weapon: SaveString,
}

pub struct WeaponLoadoutV {
    pub assault_rifle: Seq<u16>,
    pub shotgun: Seq<u16>,
    pub sniper_rifle: Seq<u16>,
    pub submachine_gun: Seq<u16>,
    pub pistol: Seq<u16>,
    pub heavy_weapon: Seq<u16>,
}

impl DeepView for WeaponLoadout {
    type V = WeaponLoadoutV;

    open spec fn deep_view(&self) -> WeaponLoadoutV {
        WeaponLoadoutV {
            assault_rifle: self.assault_rifle.deep_view(),
            shotgun: self.shotgun.deep_view(),
            sniper_rifle: self.sniper_rifle.deep_view(),
            submachine_gun: self.submachine_gun.deep_view(),
            pistol: self.pistol.deep_view(),
            heavy_weapon: self.heavy_weapon.deep_view(),
        }
    }
}

pub type WeaponLoadoutWire = ((SaveString, (SaveString, SaveString)), (
    SaveString,
    (SaveString, SaveString),
));

pub open spec fn loadout_wire_view(v: WeaponLoadoutV) -> <WeaponLoadoutWire as DeepView>::V {
    ((v.assault_rifle, (v.shotgun, v.sniper_rifle)), (v.submachine_gun, (v.pistol, v.heavy_weapon)))
}

pub open spec fn loadout_of_wire(w: <WeaponLoadoutWire as DeepView>::V) -> WeaponLoadoutV {
    WeaponLoadoutV {
        assault_rifle: w.0.0,
        shotgun: w.0.1.0,
        sniper_rifle: w.0.1.1,
        submachine_gun: w.1.0,
        pistol: w.1.1.0,
        heavy_weapon: w.1.1.1,
    }
}

impl SaveData for WeaponLoadout {
    open spec fn inv(v: WeaponLoadoutV) -> bool {
        <WeaponLoadoutWire as SaveData>::inv(loadout_wire_view(v))
    }

    open spec fn ser(v: WeaponLoadoutV) -> Seq<u8> {
        <WeaponLoadoutWire as SaveData>::ser(loadout_wire_view(v))
    }

    open spec fn parse(buf: Seq<u8>, pos: int) -> Result<(WeaponLoadoutV, int), DecodeError> {
        match <WeaponLoadoutWire as SaveData>::parse(buf, pos) {
            Ok((w, p)) => Ok((loadout_of_wire(w), p)),
            Err(e) => Err(e),
        }
    }

    proof fn lemma_parse_ser(v: WeaponLoadoutV, pre: Seq<u8>, rest: Seq<u8>) {
        <WeaponLoadoutWire as SaveData>::lemma_parse_ser(loadout_wire_view(v), pre, rest);
        assert(loadout_of_wire(loadout_wire_view(v)) == v);
    }

    fn encode(&self, out: &mut Vec<u8>) {
        self.assault_rifle.encode(out);
        self.shotgun.encode(out);
        self.sniper_rifle.encode(out);
        self.submachine_gun.encode(out);
        self.pistol.encode(out);
        self.heavy_weapon.encode(out);
        proof {
            assert(final(out)@ =~= old(out)@ + Self::ser(self.deep_view()));
        }
    }

    fn decode(cur: &mut Cursor) -> (r: Result<WeaponLoadout, DecodeError>) {
        let w = match <WeaponLoadoutWire as SaveData>::decode(cur) {
            Ok(w) => w,
            Err(e) => {
                return Err(e);
            },
        };
        let ((assault_rifle, (shotgun, sniper_rifle)), (submachine_gun, (pistol, heavy_weapon)))
            = w;
        Ok(WeaponLoadout {
            assault_rifle,
            shotgun,
            sniper_rifle,
            submachine_gun,
            pistol,
            heavy_weapon,
        })
    }
}

// ---------------------------------------------------------------------------
// One squad member, with the exact field order of the wire format.
// ---------------------------------------------------------------------------

#[derive(Clone, Debug, PartialEq, Eq, Default)]
pub struct Henchman {
    pub tag: SaveString,
    pub powers: Vec<Power>,
    pub character_level: i32,
    pub talent_points: i32,
    pub weapon_loadout: WeaponLoadout,
    pub mapped_power: SaveString,
    pub weapon_mods: Vec<WeaponMod>,
    pub grenades: i32,
    pub weapons: Vec<Weapon>,
}

pub struct HenchmanV {
    pub tag: Seq<u16>,
    pub powers: Seq<PowerV>,
    pub character_level: i32,
    pub talent_points: i32,
    pub weapon_loadout: WeaponLoadoutV,
    pub mapped_power: Seq<u16>,
    pub weapon_mods: Seq<WeaponModV>,
    pub grenades: i32,
    pub weapons: Seq<WeaponV>,
}

impl DeepView for Henchman {
    type V = HenchmanV;

    open spec fn deep_view(&self) -> HenchmanV {
        HenchmanV {
            tag: self.tag.deep_view(),
            powers: self.powers.deep_view(),
            character_level: self.character_level,
            talent_points: self.talent_points,
            weapon_loadout: self.weapon_loadout.deep_view(),
            mapped_power: self.mapped_power.deep_view(),
            weapon_mods: self.weapon_mods.deep_view(),
            grenades: self.grenades,
            weapons: self.weapons.deep_view(),
        }
    }
}

pub type HenchmanWire = ((SaveString, (Vec<Power>, (i32, i32))), (
    (WeaponLoadout, (SaveString, Vec<WeaponMod>)),
    (i32, Vec<Weapon>),
));

pub open spec fn henchman_wire_view(v: HenchmanV) -> <HenchmanWire as DeepView>::V {
    ((v.tag, (v.powers, (v.character_level, v.talent_points))), (
        (v.weapon_loadout, (v.mapped_power, v.weapon_mods)),
        (v.grenades, v.weapons),
    ))
}

pub open spec fn henchman_of_wire(w: <HenchmanWire as DeepView>::V) -> HenchmanV {
    HenchmanV {
        tag: w.0.0,
        powers: w.0.1.0,
        character_level: w.0.1.1.0,
        talent_points: w.0.1.1.1,
        weapon_loadout: w.1.0.0,
        mapped_power: w.1.0.1.0,
        weapon_mods: w.1.0.1.1,
        grenades: w.1.1.0,
        weapons: w.1.1.1,
    }
}

impl SaveData for Henchman {
    open spec fn inv(v: HenchmanV) -> bool {
        <HenchmanWire as SaveData>::inv(henchman_wire_view(v))
    }

    open spec fn ser(v: HenchmanV) -> Seq<u8> {
        <HenchmanWire as SaveData>::ser(henchman_wire_view(v))
    }

    open spec fn parse(buf: Seq<u8>, pos: int) -> Result<(HenchmanV, int), DecodeError> {
        match <HenchmanWire as SaveData>::parse(buf, pos) {
            Ok((w, p)) => Ok((henchman_of_wire(w), p)),
            Err(e) => Err(e),
        }
    }

    proof fn lemma_parse_ser(v: HenchmanV, pre: Seq<u8>, rest: Seq<u8>) {
        <HenchmanWire as SaveData>::lemma_parse_ser(henchman_wire_view(v), pre, rest);
        assert(henchman_of_wire(henchman_wire_view(v)) == v);
    }

    fn encode(&self, out: &mut Vec<u8>) {
        self.tag.encode(out);
        self.powers.encode(out);
        self.character_level.encode(out);
        self.talent_points.encode(out);
        self.weapon_loadout.encode(out);
        self.mapped_power.encode(out);
        self.weapon_mods.encode(out);
        self.grenades.encode(out);
        self.weapons.encode(out);
        proof {
            assert(final(out)@ =~= old(out)@ + Self::ser(self.deep_view()));
        }
    }

    fn decode(cur: &mut Cursor) -> (r: Result<Henchman, DecodeError>) {
        let w = match <HenchmanWire as SaveData>::decode(cur) {
            Ok(w) => w,
            Err(e) => {
                return Err(e);
            },
        };
        let ((tag, (powers, (character_level, talent_points))), ((weapon_loadout, (mapped_power,
            weapon_mods)), (grenades, weapons))) = w;
        Ok(Henchman {
            tag,
            powers,
            character_level,
            talent_points,
            weapon_loadout,
            mapped_power,
            weapon_mods,
            grenades,
            weapons,
        })
    }
}

// ---------------------------------------------------------------------------
// The whole save tree for this title.
// ---------------------------------------------------------------------------

pub struct Me3SaveGame {
    pub version: i32,
    pub difficulty: Difficulty,
    pub end_game_state: EndGameState,
    pub squad: Vec<Henchman>,
    pub plot: SparsePlotTable,
}

pub struct Me3SaveGameV {
    pub version: i32,
    pub difficulty: Difficulty,
    pub end_game_state: EndGameState,
    pub squad: Seq<HenchmanV>,
    pub plot: SparsePlotV,
}

impl DeepView for Me3SaveGame {
    type V = Me3SaveGameV;

    open spec fn deep_view(&self) -> Me3SaveGameV {
        Me3SaveGameV {
            version: self.version,
            difficulty: self.difficulty,
            end_game_state: self.end_game_state,
            squad: self.squad.deep_view(),
            plot: self.plot.deep_view(),
        }
    }
}

pub type Me3Wire = ((i32, (Difficulty, EndGameState)), (Vec<Henchman>, SparsePlotTable));

pub open spec fn me3_wire_view(v: Me3SaveGameV) -> <Me3Wire as DeepView>::V {
    ((v.version, (v.difficulty, v.end_game_state)), (v.squad, v.plot))
}

pub open spec fn me3_of_wire(w: <Me3Wire as DeepView>::V) -> Me3SaveGameV {
    Me3SaveGameV {
        version: w.0.0,
        difficulty: w.0.1.0,
        end_game_state: w.0.1.1,
        squad: w.1.0,
        plot: w.1.1,
    }
}

impl SaveData for Me3SaveGame {
    open spec fn inv(v: Me3SaveGameV) -> bool {
        <Me3Wire as SaveData>::inv(me3_wire_view(v))
    }

    open spec fn ser(v: Me3SaveGameV) -> Seq<u8> {
        <Me3Wire as SaveData>::ser(me3_wire_view(v))
    }

    open spec fn parse(buf: Seq<u8>, pos: int) -> Result<(Me3SaveGameV, int), DecodeError> {
        match <Me3Wire as SaveData>::parse(buf, pos) {
            Ok((w, p)) => Ok((me3_of_wire(w), p)),
            Err(e) => Err(e),
        }
    }

    proof fn lemma_parse_ser(v: Me3SaveGameV, pre: Seq<u8>, rest: Seq<u8>) {
        <Me3Wire as SaveData>::lemma_parse_ser(me3_wire_view(v), pre, rest);
        assert(me3_of_wire(me3_wire_view(v)) == v);
    }

    #[verifier::spinoff_prover]
    #[verifier::rlimit(100)]
    fn encode(&self, out: &mut Vec<u8>) {
        self.version.encode(out);
        self.difficulty.encode(out);
        self.end_game_state.encode(out);
        self.squad.encode(out);
        self.plot.encode(out);
        proof {
            assert(final(out)@ =~= old(out)@ + Self::ser(self.deep_view()));
        }
    }

    fn decode(cur: &mut Cursor) -> (r: Result<Me3SaveGame, DecodeError>) {
        let w = match <Me3Wire as SaveData>::decode(cur) {
            Ok(w) => w,
            Err(e) => {
                return Err(e);
            },
        };
        let ((version, (difficulty, end_game_state)), (squad, plot)) = w;
        Ok(Me3SaveGame { version, difficulty, end_game_state, squad, plot })
    }
}

} // verus!
