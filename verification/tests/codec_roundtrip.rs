use trilogy_save_codec::codec::SaveData;
use trilogy_save_codec::cursor::{Cursor, DecodeError};
use trilogy_save_codec::mass_effect_2::{
    Difficulty, Gameplay, Me2SaveGame, Player, Power, Resources, RolePlay,
};
use trilogy_save_codec::mass_effect_3::{
    Henchman, Me3SaveGame, Weapon, WeaponLoadout, WeaponMod,
};
use trilogy_save_codec::plot::{PlotTable, SparsePlotTable};
use trilogy_save_codec::shared::{EndGameState, Guid, Notoriety, Origin, SaveString};

fn roundtrip<T: SaveData + PartialEq + std::fmt::Debug>(v: &T) {
    let mut out: Vec<u8> = Vec::new();
    v.encode(&mut out);
    let mut cur = Cursor::new(out);
    let back = T::decode(&mut cur).expect("decoding an entity's own encoding must succeed");
    assert_eq!(&back, v);
    assert!(cur.at_end());
}

fn s(text: &str) -> SaveString {
    SaveString { units: text.encode_utf16().collect() }
}

#[test]
fn roundtrip_integers() {
    roundtrip(&0u8);
    roundtrip(&255u8);
    roundtrip(&0u32);
    roundtrip(&u32::MAX);
    roundtrip(&0i32);
    roundtrip(&-1i32);
    roundtrip(&i32::MIN);
    roundtrip(&i32::MAX);
    roundtrip(&0u16);
    roundtrip(&u16::MAX);
}

#[test]
fn roundtrip_bools() {
    roundtrip(&true);
    roundtrip(&false);
}

#[test]
fn integer_wire_form_is_little_endian() {
    let mut out: Vec<u8> = Vec::new();
    0x0a0b0c0du32.encode(&mut out);
    assert_eq!(out, vec![0x0d, 0x0c, 0x0b, 0x0a]);
    let mut out2: Vec<u8> = Vec::new();
    (-2i32).encode(&mut out2);
    assert_eq!(out2, vec![0xfe, 0xff, 0xff, 0xff]);
}

#[test]
fn roundtrip_empty_string() {
    roundtrip(&SaveString { units: Vec::new() });
}

#[test]
fn roundtrip_ascii_string() {
    roundtrip(&s("Shepard"));
}

#[test]
fn roundtrip_wide_string() {
    roundtrip(&s("Shépard — N7"));
}

#[test]
fn ascii_string_wire_form() {
    // Positive length counts the terminator; one byte per character.
    let mut out: Vec<u8> = Vec::new();
    s("Ab").encode(&mut out);
    assert_eq!(out, vec![3, 0, 0, 0, b'A', b'b', 0]);
}

#[test]
fn wide_string_wire_form() {
    // Negative length counts 2-byte characters, terminator included.
    let mut out: Vec<u8> = Vec::new();
    s("é").encode(&mut out);
    assert_eq!(out, vec![0xfe, 0xff, 0xff, 0xff, 0xe9, 0x00, 0x00, 0x00]);
}

#[test]
fn roundtrip_sequences() {
    let empty: Vec<i32> = Vec::new();
    roundtrip(&empty);
    roundtrip(&vec![7i32, 7, 7, -7, 7]);
    roundtrip(&vec![s("a"), s(""), s("a")]);
}

#[test]
fn roundtrip_options() {
    roundtrip(&Some(42i32));
    roundtrip(&None::<i32>);
    roundtrip(&Some(s("present")));
}

#[test]
fn roundtrip_guid() {
    roundtrip(&Guid { part1: 0xdeadbeef, part2: 1, part3: 0, part4: u32::MAX });
}

#[test]
fn roundtrip_power() {
    roundtrip(&Power {
        power_class_name: s("SFXGameContent_Powers.SFXPower_Reave_Player"),
        current_rank: 3f32.to_bits(),
    });
}

fn sample_player() -> Player {
    Player {
        role_play: RolePlay {
            first_name: s("Jane"),
            is_female: true,
            origin: Origin::Colonist,
            notoriety: Notoriety::Warhero,
            face_code: s("123.ABC"),
        },
        gameplay: Gameplay {
            class_name: s("SFXGame.SFXPawn_PlayerVanguard"),
            level: 30,
            current_xp: 123456f32.to_bits(),
            talent_points: 2,
            credits: 999999,
            medigel: 10,
        },
        resources: Resources {
            eezo: 1,
            iridium: 2,
            palladium: 3,
            platinum: 4,
            probes: 5,
            current_fuel: 1000f32.to_bits(),
        },
        powers: vec![
            Power { power_class_name: s("SFXPower_Charge"), current_rank: 4f32.to_bits() },
        ],
    }
}

#[test]
fn roundtrip_player() {
    roundtrip(&sample_player());
}

#[test]
fn roundtrip_me2_save() {
    let save = Me2SaveGame {
        version: 29,
        difficulty: Difficulty::Insanity,
        end_game_state: EndGameState::LivedToFightAgain,
        player: sample_player(),
        me1_plot: PlotTable {
            booleans: vec![false; 5000],
            integers: vec![0, 1, 2],
            floats: vec![0f32.to_bits()],
        },
        plot: PlotTable {
            booleans: vec![true, false, true],
            integers: vec![10, 20],
            floats: vec![1.5f32.to_bits(), (-0.0f32).to_bits()],
        },
    };
    roundtrip(&save);
}

fn sample_henchman() -> Henchman {
    Henchman {
        tag: s("hench_liara"),
        powers: vec![Power { power_class_name: s("SFXPower_Singularity"), current_rank: 2f32.to_bits() }],
        character_level: 20,
        talent_points: 1,
        weapon_loadout: WeaponLoadout {
            assault_rifle: s(""),
            shotgun: s(""),
            sniper_rifle: s("SFXWeapon_SniperRifle_Widow"),
            submachine_gun: s("SFXWeapon_SMG"),
            pistol: s("SFXWeapon_Pistol_Carnifex"),
            heavy_weapon: s(""),
        },
        mapped_power: s("SFXPower_Warp"),
        weapon_mods: vec![WeaponMod {
            weapon_class_name: s("SFXWeapon_SMG"),
            weapon_mods: vec![s("SFXWeaponMod_SMGConstraintDamage")],
        }],
        grenades: 3,
        weapons: vec![Weapon {
            class_name: s("SFXWeapon_SMG"),
            ammo_used_count: 12,
            ammo_total_count: 480,
            current_weapon: true,
            was_last_weapon: false,
        }],
    }
}

fn sample_sparse_plot() -> SparsePlotTable {
    let mut plot = SparsePlotTable::new();
    plot.extend_booleans(&vec![66]);
    plot.extend_integers(&vec![2, 5]);
    plot.extend_floats(&vec![9]);
    plot.set_integer(2, 10);
    plot.set_float_bits(9, 2.5f32.to_bits());
    plot
}

#[test]
fn roundtrip_henchman() {
    roundtrip(&sample_henchman());
}

#[test]
fn roundtrip_me3_save() {
    let save = Me3SaveGame {
        version: 59,
        difficulty: Difficulty::Normal,
        end_game_state: EndGameState::NotFinished,
        squad: vec![sample_henchman()],
        plot: sample_sparse_plot(),
    };
    let mut out: Vec<u8> = Vec::new();
    save.encode(&mut out);
    let mut cur = Cursor::new(out.clone());
    let back = Me3SaveGame::decode(&mut cur).expect("own encoding must decode");
    assert!(cur.at_end());
    // The sparse table has no derived equality; compare by re-encoding.
    let mut out2: Vec<u8> = Vec::new();
    back.encode(&mut out2);
    assert_eq!(out, out2);
    assert_eq!(back.version, 59);
    assert_eq!(back.squad, save.squad);
    assert_eq!(back.plot.get_integer(2), Some(10));
    assert_eq!(back.plot.get_integer(5), Some(0));
    assert_eq!(back.plot.get_integer(4), None);
    assert_eq!(back.plot.get_float_bits(9), Some(2.5f32.to_bits()));
    assert_eq!(back.plot.get_boolean(66), Some(false));
}

#[test]
fn sparse_plot_preserves_insertion_order() {
    // Wire: no booleans, two integer pairs out of ascending order, no floats.
    let mut bytes: Vec<u8> = Vec::new();
    0u32.encode(&mut bytes);
    2u32.encode(&mut bytes);
    5i32.encode(&mut bytes);
    7i32.encode(&mut bytes);
    2i32.encode(&mut bytes);
    3i32.encode(&mut bytes);
    0u32.encode(&mut bytes);
    let mut cur = Cursor::new(bytes.clone());
    let plot = SparsePlotTable::decode(&mut cur).expect("wire pairs must decode");
    let mut again: Vec<u8> = Vec::new();
    plot.encode(&mut again);
    assert_eq!(bytes, again);
}

#[test]
fn sparse_plot_duplicate_keys_last_write_wins() {
    let mut bytes: Vec<u8> = Vec::new();
    0u32.encode(&mut bytes);
    2u32.encode(&mut bytes);
    5i32.encode(&mut bytes);
    7i32.encode(&mut bytes);
    5i32.encode(&mut bytes);
    9i32.encode(&mut bytes);
    0u32.encode(&mut bytes);
    let mut cur = Cursor::new(bytes);
    let plot = SparsePlotTable::decode(&mut cur).expect("duplicate keys are tolerated");
    assert_eq!(plot.get_integer(5), Some(9));
}

// ---------------------------------------------------------------------------
// Cursor bounds: any read past the end fails with an end-of-input error.
// ---------------------------------------------------------------------------

#[test]
fn cursor_bounds_u8() {
    let mut cur = Cursor::new(Vec::new());
    assert_eq!(cur.read_u8(), Err(DecodeError::UnexpectedEof));
}

#[test]
fn cursor_bounds_u16() {
    let mut cur = Cursor::new(vec![1]);
    assert_eq!(cur.read_u16(), Err(DecodeError::UnexpectedEof));
}

#[test]
fn cursor_bounds_u32() {
    let mut cur = Cursor::new(vec![1, 2, 3]);
    assert_eq!(cur.read_u32(), Err(DecodeError::UnexpectedEof));
}

#[test]
fn cursor_bounds_i32() {
    let mut cur = Cursor::new(vec![1, 2, 3]);
    assert_eq!(cur.read_i32(), Err(DecodeError::UnexpectedEof));
}

#[test]
fn cursor_bounds_bool() {
    let mut cur = Cursor::new(Vec::new());
    assert_eq!(cur.read_bool(), Err(DecodeError::UnexpectedEof));
}

#[test]
fn cursor_reads_advance_exactly() {
    let mut cur = Cursor::new(vec![1, 0, 2, 0, 0, 0, 1]);
    assert_eq!(cur.remaining(), 7);
    assert_eq!(cur.read_u16(), Ok(1));
    assert_eq!(cur.remaining(), 5);
    assert_eq!(cur.read_u32(), Ok(2));
    assert_eq!(cur.remaining(), 1);
    assert_eq!(cur.read_bool(), Ok(true));
    assert!(cur.at_end());
}

#[test]
fn truncated_string_fails_with_eof() {
    // Length says five single-byte characters, but only two follow.
    let mut bytes: Vec<u8> = Vec::new();
    5i32.encode(&mut bytes);
    bytes.push(b'h');
    bytes.push(b'i');
    let mut cur = Cursor::new(bytes);
    assert_eq!(SaveString::decode(&mut cur), Err(DecodeError::UnexpectedEof));
}

#[test]
fn truncated_composite_fails_with_eof() {
    let mut bytes: Vec<u8> = Vec::new();
    sample_player().encode(&mut bytes);
    bytes.truncate(bytes.len() - 1);
    let mut cur = Cursor::new(bytes);
    assert_eq!(Player::decode(&mut cur).err(), Some(DecodeError::UnexpectedEof));
}

#[test]
fn bool_byte_out_of_range_is_rejected() {
    let mut cur = Cursor::new(vec![2]);
    assert_eq!(cur.read_bool(), Err(DecodeError::OutOfRange));
}

// ---------------------------------------------------------------------------
// Malformed tag tolerance: unknown enumerated values decode to the fallback
// variant and the composite around them still decodes.
// ---------------------------------------------------------------------------

#[test]
fn unknown_enum_tag_decodes_to_fallback() {
    let mut bytes: Vec<u8> = Vec::new();
    9999i32.encode(&mut bytes);
    let mut cur = Cursor::new(bytes);
    assert_eq!(Origin::decode(&mut cur), Ok(Origin::Unset));
}

#[test]
fn composite_with_unknown_tag_still_decodes() {
    let rp = RolePlay {
        first_name: s("Jane"),
        is_female: false,
        origin: Origin::Spacer,
        notoriety: Notoriety::Ruthless,
        face_code: s(""),
    };
    let mut bytes: Vec<u8> = Vec::new();
    rp.encode(&mut bytes);
    // The origin tag sits right after the name and the gender byte; overwrite
    // it with a value far outside the known set.
    let name_len = 4 + 4 + 1;  // length field + four characters + terminator
    let origin_at = name_len + 1;
    bytes[origin_at] = 0x77;
    bytes[origin_at + 1] = 0x66;
    bytes[origin_at + 2] = 0x55;
    bytes[origin_at + 3] = 0x44;
    let mut cur = Cursor::new(bytes);
    let back = RolePlay::decode(&mut cur).expect("unknown tags must not fail the decode");
    assert_eq!(back.origin, Origin::Unset);
    assert_eq!(back.notoriety, Notoriety::Ruthless);
    assert_eq!(back.first_name, s("Jane"));
}

#[test]
fn unknown_difficulty_falls_back() {
    let mut bytes: Vec<u8> = Vec::new();
    123456i32.encode(&mut bytes);
    let mut cur = Cursor::new(bytes);
    assert_eq!(Difficulty::decode(&mut cur), Ok(Difficulty::Casual));
}

#[test]
fn option_flag_out_of_range_is_rejected() {
    let mut cur = Cursor::new(vec![7, 1, 0, 0, 0]);
    assert_eq!(Option::<i32>::decode(&mut cur), Err(DecodeError::OutOfRange));
}
