//! The second title's save model: a representative slice of the save tree.
//!
//! Composite records decode and encode their fields in one fixed declared
//! order — that order is the wire format.  The editing operations at the
//! bottom mirror the cross-field rules a save editor applies: changing the
//! player's gender, origin or notoriety also rewrites the matching plot
//! flags.

use vstd::prelude::*;

use crate::codec::SaveData;
use crate::cursor::{lemma_parse_ser_i32, parse_i32, ser_i32, write_i32, Cursor, DecodeError};
use crate::plot::{dense_get, PlotTable};
use crate::shared::{EndGameState, Notoriety, Origin, SaveString};

verus! {

// ---------------------------------------------------------------------------
// Difficulty: an enumerated field with a fallback for unknown tags.
// ---------------------------------------------------------------------------

/// Game difficulty. The first variant is the fallback for unknown tags.
#[derive(Clone, Copy, Debug, PartialEq, Eq, Structural)]
pub enum Difficulty {
    Casual,
    Normal,
    Veteran,
    Hardcore,
    Insanity,
}

impl DeepView for Difficulty {
    type V = Difficulty;

    open spec fn deep_view(&self) -> Difficulty {
        *self
    }
}

impl Difficulty {
    pub open spec fn tag_spec(self) -> i32 {
        match self {
            Difficulty::Casual => 0,
            Difficulty::Normal => 1,
            Difficulty::Veteran => 2,
            Difficulty::Hardcore => 3,
            Difficulty::Insanity => 4,
        }
    }

    pub open spec fn of_tag_spec(n: i32) -> Difficulty {
        if n == 1 {
            Difficulty::Normal
        } else if n == 2 {
            Difficulty::Veteran
        } else if n == 3 {
            Difficulty::Hardcore
        } else if n == 4 {
            Difficulty::Insanity
        } else {
            Difficulty::Casual
        }
    }

    pub fn of_tag(n: i32) -> (r: Difficulty)
        ensures
            r == Difficulty::of_tag_spec(n),
    {
        if n == 1 {
            Difficulty::Normal
        } else if n == 2 {
            Difficulty::Veteran
        } else if n == 3 {
            Difficulty::Hardcore
        } else if n == 4 {
            Difficulty::Insanity
        } else {
            Difficulty::Casual
        }
    }

    pub fn tag(&self) -> (r: i32)
        ensures
            r == self.tag_spec(),
    {
        match self {
            Difficulty::Casual => 0,
            Difficulty::Normal => 1,
            Difficulty::Veteran => 2,
            Difficulty::Hardcore => 3,
            Difficulty::Insanity => 4,
        }
    }
}

impl SaveData for Difficulty {
    open spec fn inv(v: Difficulty) -> bool {
        true
    }

    open spec fn ser(v: Difficulty) -> Seq<u8> {
        ser_i32(v.tag_spec())
    }

    open spec fn parse(buf: Seq<u8>, pos: int) -> Result<(Difficulty, int), DecodeError> {
        match parse_i32(buf, pos) {
            Ok((n, p)) => Ok((Difficulty::of_tag_spec(n), p)),
            Err(e) => Err(e),
        }
    }

    proof fn lemma_parse_ser(v: Difficulty, pre: Seq<u8>, rest: Seq<u8>) {
        lemma_parse_ser_i32(v.tag_spec(), pre, rest);
    }

    fn encode(&self, out: &mut Vec<u8>) {
        write_i32(out, self.tag());
    }

    fn decode(cur: &mut Cursor) -> (r: Result<Difficulty, DecodeError>) {
        match cur.read_i32() {
            Ok(n) => Ok(Difficulty::of_tag(n)),
            Err(e) => Err(e),
        }
    }
}

// ---------------------------------------------------------------------------
// A power slot: its class name and current rank (rank bits travel raw).
// ---------------------------------------------------------------------------

#[derive(Clone, Debug, PartialEq, Eq, Default)]
pub struct Power {
    pub power_class_name: SaveString,
    pub current_rank: u32,
}

pub struct PowerV {
    pub power_class_name: Seq<u16>,
    pub current_rank: u32,
}

impl DeepView for Power {
    type V = PowerV;

    open spec fn deep_view(&self) -> PowerV {
        PowerV {
            power_class_name: self.power_class_name.deep_view(),
            current_rank: self.current_rank,
        }
    }
}

impl SaveData for Power {
    open spec fn inv(v: PowerV) -> bool {
        SaveString::inv(v.power_class_name)
    }

    open spec fn ser(v: PowerV) -> Seq<u8> {
        SaveString::ser(v.power_class_name) + u32::ser(v.current_rank)
    }

    open spec fn parse(buf: Seq<u8>, pos: int) -> Result<(PowerV, int), DecodeError> {
        match SaveString::parse(buf, pos) {
            Ok((name, p)) => match u32::parse(buf, p) {
                Ok((rank, q)) => Ok((PowerV { power_class_name: name, current_rank: rank }, q)),
                Err(e) => Err(e),
            },
            Err(e) => Err(e),
        }
    }

    proof fn lemma_parse_ser(v: PowerV, pre: Seq<u8>, rest: Seq<u8>) {
        let buf = pre + Self::ser(v) + rest;
        let s1 = SaveString::ser(v.power_class_name);
        let s2 = u32::ser(v.current_rank);
        assert(buf =~= pre + s1 + (s2 + rest));
        SaveString::lemma_parse_ser(v.power_class_name, pre, s2 + rest);
        assert(buf =~= (pre + s1) + s2 + rest);
        u32::lemma_parse_ser(v.current_rank, pre + s1, rest);
        assert(PowerV { power_class_name: v.power_class_name, current_rank: v.current_rank }
            == v);
    }

    fn encode(&self, out: &mut Vec<u8>) {
        self.power_class_name.encode(out);
        self.current_rank.encode(out);
        proof {
            assert(final(out)@ =~= old(out)@ + Self::ser(self.deep_view()));
        }
    }

    fn decode(cur: &mut Cursor) -> (r: Result<Power, DecodeError>) {
        let power_class_name = match SaveString::decode(cur) {
            Ok(v) => v,
            Err(e) => {
                return Err(e);
            },
        };
        let current_rank = match u32::decode(cur) {
            Ok(v) => v,
            Err(e) => {
                return Err(e);
            },
        };
        Ok(Power { power_class_name, current_rank })
    }
}

// ---------------------------------------------------------------------------
// The player record, composed of its role-play, gameplay and resource
// sub-records, then the power list.
// ---------------------------------------------------------------------------

#[derive(Clone, Debug, PartialEq, Eq, Default)]
pub struct RolePlay {
    pub first_name: SaveString,
    pub is_female: bool,
    pub origin: Origin,
    pub notoriety: Notoriety,
    pub face_code: SaveString,
}

pub struct RolePlayV {
    pub first_name: Seq<u16>,
    pub is_female: bool,
    pub origin: Origin,
    pub notoriety: Notoriety,
    pub face_code: Seq<u16>,
}

impl DeepView for RolePlay {
    type V = RolePlayV;

    open spec fn deep_view(&self) -> RolePlayV {
        RolePlayV {
            first_name: self.first_name.deep_view(),
            is_female: self.is_female,
            origin: self.origin,
            notoriety: self.notoriety,
            face_code: self.face_code.deep_view(),
        }
    }
}

impl Default for Difficulty {
    fn default() -> (r: Difficulty)
        ensures
            r == Difficulty::Casual,
    {
        Difficulty::Casual
    }
}

impl Default for EndGameState {
    fn default() -> (r: EndGameState)
        ensures
            r == EndGameState::NotFinished,
    {
        EndGameState::NotFinished
    }
}

impl Default for Origin {
    fn default() -> (r: Origin)
        ensures
            r == Origin::Unset,
    {
        Origin::Unset
    }
}

impl Default for Notoriety {
    fn default() -> (r: Notoriety)
        ensures
            r == Notoriety::Unset,
    {
        Notoriety::Unset
    }
}

impl SaveData for RolePlay {
    open spec fn inv(v: RolePlayV) -> bool {
        SaveString::inv(v.first_name) && SaveString::inv(v.face_code)
    }

    open spec fn ser(v: RolePlayV) -> Seq<u8> {
        SaveString::ser(v.first_name) + bool::ser(v.is_female) + Origin::ser(v.origin)
            + Notoriety::ser(v.notoriety) + SaveString::ser(v.face_code)
    }

    open spec fn parse(buf: Seq<u8>, pos: int) -> Result<(RolePlayV, int), DecodeError> {
        match SaveString::parse(buf, pos) {
            Ok((first_name, p1)) => match bool::parse(buf, p1) {
                Ok((is_female, p2)) => match Origin::parse(buf, p2) {
                    Ok((origin, p3)) => match Notoriety::parse(buf, p3) {
                        Ok((notoriety, p4)) => match SaveString::parse(buf, p4) {
                            Ok((face_code, p5)) => Ok((
                                RolePlayV { first_name, is_female, origin, notoriety, face_code },
                                p5,
                            )),
                            Err(e) => Err(e),
                        },
                        Err(e) => Err(e),
                    },
                    Err(e) => Err(e),
                },
                Err(e) => Err(e),
            },
            Err(e) => Err(e),
        }
    }

    #[verifier::rlimit(80)]
    proof fn lemma_parse_ser(v: RolePlayV, pre: Seq<u8>, rest: Seq<u8>) {
        let buf = pre + Self::ser(v) + rest;
        let s1 = SaveString::ser(v.first_name);
        let s2 = bool::ser(v.is_female);
        let s3 = Origin::ser(v.origin);
        let s4 = Notoriety::ser(v.notoriety);
        let s5 = SaveString::ser(v.face_code);
        assert(buf =~= pre + s1 + (s2 + s3 + s4 + s5 + rest));
        SaveString::lemma_parse_ser(v.first_name, pre, s2 + s3 + s4 + s5 + rest);
        assert(buf =~= (pre + s1) + s2 + (s3 + s4 + s5 + rest));
        bool::lemma_parse_ser(v.is_female, pre + s1, s3 + s4 + s5 + rest);
        assert(buf =~= (pre + s1 + s2) + s3 + (s4 + s5 + rest));
        Origin::lemma_parse_ser(v.origin, pre + s1 + s2, s4 + s5 + rest);
        assert(buf =~= (pre + s1 + s2 + s3) + s4 + (s5 + rest));
        Notoriety::lemma_parse_ser(v.notoriety, pre + s1 + s2 + s3, s5 + rest);
        assert(buf =~= (pre + s1 + s2 + s3 + s4) + s5 + rest);
        SaveString::lemma_parse_ser(v.face_code, pre + s1 + s2 + s3 + s4, rest);
        assert(RolePlayV {
            first_name: v.first_name,
            is_female: v.is_female,
            origin: v.origin,
            notoriety: v.notoriety,
            face_code: v.face_code,
        } == v);
    }

    fn encode(&self, out: &mut Vec<u8>) {
        self.first_name.encode(out);
        self.is_female.encode(out);
        self.origin.encode(out);
        self.notoriety.encode(out);
        self.face_code.encode(out);
        proof {
            assert(final(out)@ =~= old(out)@ + Self::ser(self.deep_view()));
        }
    }

    fn decode(cur: &mut Cursor) -> (r: Result<RolePlay, DecodeError>) {
        let first_name = match SaveString::decode(cur) {
            Ok(v) => v,
            Err(e) => {
                return Err(e);
            },
        };
        let is_female = match bool::decode(cur) {
            Ok(v) => v,
            Err(e) => {
                return Err(e);
            },
        };
        let origin = match Origin::decode(cur) {
            Ok(v) => v,
            Err(e) => {
                return Err(e);
            },
        };
        let notoriety = match Notoriety::decode(cur) {
            Ok(v) => v,
            Err(e) => {
                return Err(e);
            },
        };
        let face_code = match SaveString::decode(cur) {
            Ok(v) => v,
            Err(e) => {
                return Err(e);
            },
        };
        Ok(RolePlay { first_name, is_female, origin, notoriety, face_code })
    }
}

#[derive(Clone, Debug, PartialEq, Eq, Default)]
pub struct Gameplay {
    pub class_name: SaveString,
    pub level: i32,
    pub current_xp: u32,
    pub talent_points: i32,
    pub credits: i32,
    pub medigel: i32,
}

pub struct GameplayV {
    pub class_name: Seq<u16>,
    pub level: i32,
    pub current_xp: u32,
    pub talent_points: i32,
    pub credits: i32,
    pub medigel: i32,
}

impl DeepView for Gameplay {
    type V = GameplayV;

    open spec fn deep_view(&self) -> GameplayV {
        GameplayV {
            class_name: self.class_name.deep_view(),
            level: self.level,
            current_xp: self.current_xp,
            talent_points: self.talent_points,
            credits: self.credits,
            medigel: self.medigel,
        }
    }
}

impl SaveData for Gameplay {
    open spec fn inv(v: GameplayV) -> bool {
        SaveString::inv(v.class_name)
    }

    open spec fn ser(v: GameplayV) -> Seq<u8> {
        SaveString::ser(v.class_name) + i32::ser(v.level) + u32::ser(v.current_xp) + i32::ser(
            v.talent_points,
        ) + i32::ser(v.credits) + i32::ser(v.medigel)
    }

    open spec fn parse(buf: Seq<u8>, pos: int) -> Result<(GameplayV, int), DecodeError> {
        match SaveString::parse(buf, pos) {
            Ok((class_name, p1)) => match i32::parse(buf, p1) {
                Ok((level, p2)) => match u32::parse(buf, p2) {
                    Ok((current_xp, p3)) => match i32::parse(buf, p3) {
                        Ok((talent_points, p4)) => match i32::parse(buf, p4) {
                            Ok((credits, p5)) => match i32::parse(buf, p5) {
                                Ok((medigel, p6)) => Ok((
                                    GameplayV {
                                        class_name,
                                        level,
                                        current_xp,
                                        talent_points,
                                        credits,
                                        medigel,
                                    },
                                    p6,
                                )),
                                Err(e) => Err(e),
                            },
                            Err(e) => Err(e),
                        },
                        Err(e) => Err(e),
                    },
                    Err(e) => Err(e),
                },
                Err(e) => Err(e),
            },
            Err(e) => Err(e),
        }
    }

    #[verifier::rlimit(80)]
    proof fn lemma_parse_ser(v: GameplayV, pre: Seq<u8>, rest: Seq<u8>) {
        let buf = pre + Self::ser(v) + rest;
        let s1 = SaveString::ser(v.class_name);
        let s2 = i32::ser(v.level);
        let s3 = u32::ser(v.current_xp);
        let s4 = i32::ser(v.talent_points);
        let s5 = i32::ser(v.credits);
        let s6 = i32::ser(v.medigel);
        assert(buf =~= pre + s1 + (s2 + s3 + s4 + s5 + s6 + rest));
        SaveString::lemma_parse_ser(v.class_name, pre, s2 + s3 + s4 + s5 + s6 + rest);
        assert(buf =~= (pre + s1) + s2 + (s3 + s4 + s5 + s6 + rest));
        i32::lemma_parse_ser(v.level, pre + s1, s3 + s4 + s5 + s6 + rest);
        assert(buf =~= (pre + s1 + s2) + s3 + (s4 + s5 + s6 + rest));
        u32::lemma_parse_ser(v.current_xp, pre + s1 + s2, s4 + s5 + s6 + rest);
        assert(buf =~= (pre + s1 + s2 + s3) + s4 + (s5 + s6 + rest));
        i32::lemma_parse_ser(v.talent_points, pre + s1 + s2 + s3, s5 + s6 + rest);
        assert(buf =~= (pre + s1 + s2 + s3 + s4) + s5 + (s6 + rest));
        i32::lemma_parse_ser(v.credits, pre + s1 + s2 + s3 + s4, s6 + rest);
        assert(buf =~= (pre + s1 + s2 + s3 + s4 + s5) + s6 + rest);
        i32::lemma_parse_ser(v.medigel, pre + s1 + s2 + s3 + s4 + s5, rest);
        assert(GameplayV {
            class_name: v.class_name,
            level: v.level,
            current_xp: v.current_xp,
            talent_points: v.talent_points,
            credits: v.credits,
            medigel: v.medigel,
        } == v);
    }

    fn encode(&self, out: &mut Vec<u8>) {
        self.class_name.encode(out);
        self.level.encode(out);
        self.current_xp.encode(out);
        self.talent_points.encode(out);
        self.credits.encode(out);
        self.medigel.encode(out);
        proof {
            assert(final(out)@ =~= old(out)@ + Self::ser(self.deep_view()));
        }
    }

    fn decode(cur: &mut Cursor) -> (r: Result<Gameplay, DecodeError>) {
        let class_name = match SaveString::decode(cur) {
            Ok(v) => v,
            Err(e) => {
                return Err(e);
            },
        };
        let level = match i32::decode(cur) {
            Ok(v) => v,
            Err(e) => {
                return Err(e);
            },
        };
        let current_xp = match u32::decode(cur) {
            Ok(v) => v,
            Err(e) => {
                return Err(e);
            },
        };
        let talent_points = match i32::decode(cur) {
            Ok(v) => v,
            Err(e) => {
                return Err(e);
            },
        };
        let credits = match i32::decode(cur) {
            Ok(v) => v,
            Err(e) => {
                return Err(e);
            },
        };
        let medigel = match i32::decode(cur) {
            Ok(v) => v,
            Err(e) => {
                return Err(e);
            },
        };
        Ok(Gameplay { class_name, level, current_xp, talent_points, credits, medigel })
    }
}

#[derive(Clone, Copy, Debug, PartialEq, Eq, Structural, Default)]
pub struct Resources {
    pub eezo: i32,
    pub iridium: i32,
    pub palladium: i32,
    pub platinum: i32,
    pub probes: i32,
    pub current_fuel: u32,
}

impl DeepView for Resources {
    type V = Resources;

    open spec fn deep_view(&self) -> Resources {
        *self
    }
}

impl SaveData for Resources {
    open spec fn inv(v: Resources) -> bool {
        true
    }

    open spec fn ser(v: Resources) -> Seq<u8> {
        i32::ser(v.eezo) + i32::ser(v.iridium) + i32::ser(v.palladium) + i32::ser(v.platinum)
            + i32::ser(v.probes) + u32::ser(v.current_fuel)
    }

    open spec fn parse(buf: Seq<u8>, pos: int) -> Result<(Resources, int), DecodeError> {
        match i32::parse(buf, pos) {
            Ok((eezo, p1)) => match i32::parse(buf, p1) {
                Ok((iridium, p2)) => match i32::parse(buf, p2) {
                    Ok((palladium, p3)) => match i32::parse(buf, p3) {
                        Ok((platinum, p4)) => match i32::parse(buf, p4) {
                            Ok((probes, p5)) => match u32::parse(buf, p5) {
                                Ok((current_fuel, p6)) => Ok((
                                    Resources {
                                        eezo,
                                        iridium,
                                        palladium,
                                        platinum,
                                        probes,
                                        current_fuel,
                                    },
                                    p6,
                                )),
                                Err(e) => Err(e),
                            },
                            Err(e) => Err(e),
                        },
                        Err(e) => Err(e),
                    },
                    Err(e) => Err(e),
                },
                Err(e) => Err(e),
            },
            Err(e) => Err(e),
        }
    }

    #[verifier::rlimit(80)]
    proof fn lemma_parse_ser(v: Resources, pre: Seq<u8>, rest: Seq<u8>) {
        let buf = pre + Self::ser(v) + rest;
        let s1 = i32::ser(v.eezo);
        let s2 = i32::ser(v.iridium);
        let s3 = i32::ser(v.palladium);
        let s4 = i32::ser(v.platinum);
        let s5 = i32::ser(v.probes);
        let s6 = u32::ser(v.current_fuel);
        assert(buf =~= pre + s1 + (s2 + s3 + s4 + s5 + s6 + rest));
        i32::lemma_parse_ser(v.eezo, pre, s2 + s3 + s4 + s5 + s6 + rest);
        assert(buf =~= (pre + s1) + s2 + (s3 + s4 + s5 + s6 + rest));
        i32::lemma_parse_ser(v.iridium, pre + s1, s3 + s4 + s5 + s6 + rest);
        assert(buf =~= (pre + s1 + s2) + s3 + (s4 + s5 + s6 + rest));
        i32::lemma_parse_ser(v.palladium, pre + s1 + s2, s4 + s5 + s6 + rest);
        assert(buf =~= (pre + s1 + s2 + s3) + s4 + (s5 + s6 + rest));
        i32::lemma_parse_ser(v.platinum, pre + s1 + s2 + s3, s5 + s6 + rest);
        assert(buf =~= (pre + s1 + s2 + s3 + s4) + s5 + (s6 + rest));
        i32::lemma_parse_ser(v.probes, pre + s1 + s2 + s3 + s4, s6 + rest);
        assert(buf =~= (pre + s1 + s2 + s3 + s4 + s5) + s6 + rest);
        u32::lemma_parse_ser(v.current_fuel, pre + s1 + s2 + s3 + s4 + s5, rest);
        assert(Resources {
            eezo: v.eezo,
            iridium: v.iridium,
            palladium: v.palladium,
            platinum: v.platinum,
            probes: v.probes,
            current_fuel: v.current_fuel,
        } == v);
    }

    fn encode(&self, out: &mut Vec<u8>) {
        self.eezo.encode(out);
        self.iridium.encode(out);
        self.palladium.encode(out);
        self.platinum.encode(out);
        self.probes.encode(out);
        self.current_fuel.encode(out);
        proof {
            assert(final(out)@ =~= old(out)@ + Self::ser(self.deep_view()));
        }
    }

    fn decode(cur: &mut Cursor) -> (r: Result<Resources, DecodeError>) {
        let eezo = match i32::decode(cur) {
            Ok(v) => v,
            Err(e) => {
                return Err(e);
            },
        };
        let iridium = match i32::decode(cur) {
            Ok(v) => v,
            Err(e) => {
                return Err(e);
            },
        };
        let palladium = match i32::decode(cur) {
            Ok(v) => v,
            Err(e) => {
                return Err(e);
            },
        };
        let platinum = match i32::decode(cur) {
            Ok(v) => v,
            Err(e) => {
                return Err(e);
            },
        };
        let probes = match i32::decode(cur) {
            Ok(v) => v,
            Err(e) => {
                return Err(e);
            },
        };
        let current_fuel = match u32::decode(cur) {
            Ok(v) => v,
            Err(e) => {
                return Err(e);
            },
        };
        Ok(Resources { eezo, iridium, palladium, platinum, probes, current_fuel })
    }
}

#[derive(Clone, Debug, PartialEq, Eq, Default)]
pub struct Player {
    pub role_play: RolePlay,
    pub gameplay: Gameplay,
    pub resources: Resources,
    pub powers: Vec<Power>,
}

pub struct PlayerV {
    pub role_play: RolePlayV,
    pub gameplay: GameplayV,
    pub resources: Resources,
    pub powers: Seq<PowerV>,
}

impl DeepView for Player {
    type V = PlayerV;

    open spec fn deep_view(&self) -> PlayerV {
        PlayerV {
            role_play: self.role_play.deep_view(),
            gameplay: self.gameplay.deep_view(),
            resources: self.resources,
            powers: self.powers.deep_view(),
        }
    }
}

impl SaveData for Player {
    open spec fn inv(v: PlayerV) -> bool {
        RolePlay::inv(v.role_play) && Gameplay::inv(v.gameplay) && Vec::<Power>::inv(v.powers)
    }

    open spec fn ser(v: PlayerV) -> Seq<u8> {
        RolePlay::ser(v.role_play) + Gameplay::ser(v.gameplay) + Resources::ser(v.resources)
            + Vec::<Power>::ser(v.powers)
    }

    open spec fn parse(buf: Seq<u8>, pos: int) -> Result<(PlayerV, int), DecodeError> {
        match RolePlay::parse(buf, pos) {
            Ok((role_play, p1)) => match Gameplay::parse(buf, p1) {
                Ok((gameplay, p2)) => match Resources::parse(buf, p2) {
                    Ok((resources, p3)) => match Vec::<Power>::parse(buf, p3) {
                        Ok((powers, p4)) => Ok((
                            PlayerV { role_play, gameplay, resources, powers },
                            p4,
                        )),
                        Err(e) => Err(e),
                    },
                    Err(e) => Err(e),
                },
                Err(e) => Err(e),
            },
            Err(e) => Err(e),
        }
    }

    #[verifier::spinoff_prover]
    #[verifier::rlimit(100)]
    proof fn lemma_parse_ser(v: PlayerV, pre: Seq<u8>, rest: Seq<u8>) {
        let buf = pre + Self::ser(v) + rest;
        let s1 = RolePlay::ser(v.role_play);
        let s2 = Gameplay::ser(v.gameplay);
        let s3 = Resources::ser(v.resources);
        let s4 = Vec::<Power>::ser(v.powers);
        assert(buf =~= pre + s1 + (s2 + s3 + s4 + rest));
        RolePlay::lemma_parse_ser(v.role_play, pre, s2 + s3 + s4 + rest);
        assert(buf =~= (pre + s1) + s2 + (s3 + s4 + rest));
        Gameplay::lemma_parse_ser(v.gameplay, pre + s1, s3 + s4 + rest);
        assert(buf =~= (pre + s1 + s2) + s3 + (s4 + rest));
        Resources::lemma_parse_ser(v.resources, pre + s1 + s2, s4 + rest);
        assert(buf =~= (pre + s1 + s2 + s3) + s4 + rest);
        Vec::<Power>::lemma_parse_ser(v.powers, pre + s1 + s2 + s3, rest);
        assert(PlayerV {
            role_play: v.role_play,
            gameplay: v.gameplay,
            resources: v.resources,
            powers: v.powers,
        } == v);
    }

    fn encode(&self, out: &mut Vec<u8>) {
        self.role_play.encode(out);
        self.gameplay.encode(out);
        self.resources.encode(out);
        self.powers.encode(out);
        proof {
            assert(final(out)@ =~= old(out)@ + Self::ser(self.deep_view()));
        }
    }

    fn decode(cur: &mut Cursor) -> (r: Result<Player, DecodeError>) {
        let role_play = match RolePlay::decode(cur) {
            Ok(v) => v,
            Err(e) => {
                return Err(e);
            },
        };
        let gameplay = match Gameplay::decode(cur) {
            Ok(v) => v,
            Err(e) => {
                return Err(e);
            },
        };
        let resources = match Resources::decode(cur) {
            Ok(v) => v,
            Err(e) => {
                return Err(e);
            },
        };
        let powers = match Vec::<Power>::decode(cur) {
            Ok(v) => v,
            Err(e) => {
                return Err(e);
            },
        };
        Ok(Player { role_play, gameplay, resources, powers })
    }
}

// ---------------------------------------------------------------------------
// The whole save tree for this title.
// ---------------------------------------------------------------------------

#[derive(Clone, Debug, PartialEq, Eq, Default)]
pub struct Me2SaveGame {
    pub version: i32,
    pub difficulty: Difficulty,
    pub end_game_state: EndGameState,
    pub player: Player,
    pub me1_plot: PlotTable,
    pub plot: PlotTable,
}

pub struct Me2SaveGameV {
    pub version: i32,
    pub difficulty: Difficulty,
    pub end_game_state: EndGameState,
    pub player: PlayerV,
    pub me1_plot: <PlotTable as DeepView>::V,
    pub plot: <PlotTable as DeepView>::V,
}

impl DeepView for Me2SaveGame {
    type V = Me2SaveGameV;

    open spec fn deep_view(&self) -> Me2SaveGameV {
        Me2SaveGameV {
            version: self.version,
            difficulty: self.difficulty,
            end_game_state: self.end_game_state,
            player: self.player.deep_view(),
            me1_plot: self.me1_plot.deep_view(),
            plot: self.plot.deep_view(),
        }
    }
}

/// The wire shape of the whole save: the same six fields in the same order,
/// grouped as nested pairs so the pair combinator carries the proofs.
pub type Me2Wire = ((i32, (Difficulty, EndGameState)), ((Player, PlotTable), PlotTable));

pub open spec fn me2_wire_view(v: Me2SaveGameV) -> <Me2Wire as DeepView>::V {
    ((v.version, (v.difficulty, v.end_game_state)), ((v.player, v.me1_plot), v.plot))
}

pub open spec fn me2_of_wire(w: <Me2Wire as DeepView>::V) -> Me2SaveGameV {
    Me2SaveGameV {
        version: w.0.0,
        difficulty: w.0.1.0,
        end_game_state: w.0.1.1,
        player: w.1.0.0,
        me1_plot: w.1.0.1,
        plot: w.1.1,
    }
}

impl SaveData for Me2SaveGame {
    open spec fn inv(v: Me2SaveGameV) -> bool {
        <Me2Wire as SaveData>::inv(me2_wire_view(v))
    }

    open spec fn ser(v: Me2SaveGameV) -> Seq<u8> {
        <Me2Wire as SaveData>::ser(me2_wire_view(v))
    }

    open spec fn parse(buf: Seq<u8>, pos: int) -> Result<(Me2SaveGameV, int), DecodeError> {
        match <Me2Wire as SaveData>::parse(buf, pos) {
            Ok((w, p)) => Ok((me2_of_wire(w), p)),
            Err(e) => Err(e),
        }
    }

    proof fn lemma_parse_ser(v: Me2SaveGameV, pre: Seq<u8>, rest: Seq<u8>) {
        <Me2Wire as SaveData>::lemma_parse_ser(me2_wire_view(v), pre, rest);
        assert(me2_of_wire(me2_wire_view(v)) == v);
    }

    #[verifier::spinoff_prover]
    #[verifier::rlimit(100)]
    fn encode(&self, out: &mut Vec<u8>) {
        self.version.encode(out);
        self.difficulty.encode(out);
        self.end_game_state.encode(out);
        self.player.encode(out);
        self.me1_plot.encode(out);
        self.plot.encode(out);
        proof {
            assert(final(out)@ =~= old(out)@ + Self::ser(self.deep_view()));
        }
    }

    fn decode(cur: &mut Cursor) -> (r: Result<Me2SaveGame, DecodeError>) {
        let w = match <Me2Wire as SaveData>::decode(cur) {
            Ok(w) => w,
            Err(e) => {
                return Err(e);
            },
        };
        let ((version, (difficulty, end_game_state)), ((player, me1_plot), plot)) = w;
        let t = Me2SaveGame { version, difficulty, end_game_state, player, me1_plot, plot };
        Ok(t)
    }
}

// ---------------------------------------------------------------------------
// Editing rules: the cross-field updates an editor applies to this title's
// tree.  Each writes the player field and the matching plot flags together.
// ---------------------------------------------------------------------------

/// The plot ids the editing rules touch.
pub const PLOT_FEMALE_ME1: usize = 4639;

pub const PLOT_FEMALE_ME2: usize = 66;

pub const PLOT_SPACER: usize = 1533;

pub const PLOT_EARTHBORN: usize = 1534;

pub const PLOT_COLONIST: usize = 1535;

pub const PLOT_SURVIVOR: usize = 1537;

pub const PLOT_WAR_HERO: usize = 1538;

pub const PLOT_RUTHLESS: usize = 1539;

pub const PLOT_ME1_ORIGIN: usize = 1;

pub const PLOT_ME1_NOTORIETY: usize = 2;

impl Me2SaveGame {
    /// Sets the player's gender and keeps the gender plot flags of both
    /// titles in step, where those ids are allocated.
    pub fn set_gender(&mut self, female: bool)
        ensures
            final(self).player.deep_view().role_play == (RolePlayV {
                is_female: female,
                ..old(self).player.deep_view().role_play
            }),
            final(self).me1_plot.deep_view().booleans == (if PLOT_FEMALE_ME1 < old(self).me1_plot.deep_view().booleans.len() {
                old(self).me1_plot.deep_view().booleans.update(PLOT_FEMALE_ME1 as int, female)
            } else {
                old(self).me1_plot.deep_view().booleans
            }),
            final(self).plot.deep_view().booleans == (if PLOT_FEMALE_ME2 < old(self).plot.deep_view().booleans.len() {
                old(self).plot.deep_view().booleans.update(PLOT_FEMALE_ME2 as int, female)
            } else {
                old(self).plot.deep_view().booleans
            }),
            final(self).player.gameplay == old(self).player.gameplay,
            final(self).player.resources == old(self).player.resources,
            final(self).player.powers == old(self).player.powers,
            final(self).me1_plot.deep_view().integers == old(self).me1_plot.deep_view().integers,
            final(self).me1_plot.deep_view().floats == old(self).me1_plot.deep_view().floats,
            final(self).plot.deep_view().integers == old(self).plot.deep_view().integers,
            final(self).plot.deep_view().floats == old(self).plot.deep_view().floats,
            final(self).version == old(self).version,
            final(self).difficulty == old(self).difficulty,
            final(self).end_game_state == old(self).end_game_state,
    {
        self.player.role_play.is_female = female;
        self.me1_plot.set_boolean(PLOT_FEMALE_ME1, female);
        self.plot.set_boolean(PLOT_FEMALE_ME2, female);
    }

    /// Sets the player's origin, rewrites the three imported origin flags so
    /// that exactly the chosen one is set (where allocated), and records the
    /// origin in the first title's imported plot integer.  An unset origin
    /// leaves the three flags alone.
    pub fn set_origin(&mut self, origin: Origin)
        ensures
            final(self).player.deep_view().role_play == (RolePlayV {
                origin,
                ..old(self).player.deep_view().role_play
            }),
            origin == Origin::Unset ==> final(self).plot.deep_view().booleans == old(self).plot.deep_view().booleans,
            origin != Origin::Unset ==> ({
                &&& dense_get(final(self).plot.deep_view().booleans, PLOT_SPACER as int) == (
                if PLOT_SPACER < old(self).plot.deep_view().booleans.len() {
                    Some(origin == Origin::Spacer)
                } else {
                    None::<bool>
                })
                &&& dense_get(final(self).plot.deep_view().booleans, PLOT_COLONIST as int) == (
                if PLOT_COLONIST < old(self).plot.deep_view().booleans.len() {
                    Some(origin == Origin::Colonist)
                } else {
                    None::<bool>
                })
                &&& dense_get(final(self).plot.deep_view().booleans, PLOT_EARTHBORN as int) == (
                if PLOT_EARTHBORN < old(self).plot.deep_view().booleans.len() {
                    Some(origin == Origin::Earthborn)
                } else {
                    None::<bool>
                })
                &&& forall|i: int|
                    0 <= i < old(self).plot.deep_view().booleans.len() && i != PLOT_SPACER as int
                        && i != PLOT_COLONIST as int && i != PLOT_EARTHBORN as int ==> final(self).plot.deep_view().booleans[i] == old(self).plot.deep_view().booleans[i]
                &&& final(self).plot.deep_view().booleans.len() == old(self).plot.deep_view().booleans.len()
            }),
            final(self).me1_plot.deep_view().integers == (if PLOT_ME1_ORIGIN < old(self).me1_plot.deep_view().integers.len() {
                old(self).me1_plot.deep_view().integers.update(
                    PLOT_ME1_ORIGIN as int,
                    origin.tag_spec(),
                )
            } else {
                old(self).me1_plot.deep_view().integers
            }),
            final(self).player.gameplay == old(self).player.gameplay,
            final(self).player.resources == old(self).player.resources,
            final(self).player.powers == old(self).player.powers,
            final(self).me1_plot.deep_view().booleans == old(self).me1_plot.deep_view().booleans,
            final(self).me1_plot.deep_view().floats == old(self).me1_plot.deep_view().floats,
            final(self).plot.deep_view().integers == old(self).plot.deep_view().integers,
            final(self).plot.deep_view().floats == old(self).plot.deep_view().floats,
    {
        self.player.role_play.origin = origin;
        if !matches!(origin, Origin::Unset) {
            let spacer = matches!(origin, Origin::Spacer);
            let colonist = matches!(origin, Origin::Colonist);
            let earthborn = matches!(origin, Origin::Earthborn);
            self.plot.set_boolean(PLOT_SPACER, spacer);
            self.plot.set_boolean(PLOT_COLONIST, colonist);
            self.plot.set_boolean(PLOT_EARTHBORN, earthborn);
        }
        self.me1_plot.set_integer(PLOT_ME1_ORIGIN, self.player.role_play.origin.tag());
    }

    /// Sets the player's notoriety, rewrites the three imported notoriety
    /// flags so that exactly the chosen one is set (where allocated), and
    /// records the notoriety in the first title's imported plot integer.
    pub fn set_notoriety(&mut self, notoriety: Notoriety)
        ensures
            final(self).player.deep_view().role_play == (RolePlayV {
                notoriety,
                ..old(self).player.deep_view().role_play
            }),
            notoriety == Notoriety::Unset ==> final(self).plot.deep_view().booleans == old(self).plot.deep_view().booleans,
            notoriety != Notoriety::Unset ==> ({
                &&& dense_get(final(self).plot.deep_view().booleans, PLOT_SURVIVOR as int) == (
                if PLOT_SURVIVOR < old(self).plot.deep_view().booleans.len() {
                    Some(notoriety == Notoriety::Survivor)
                } else {
                    None::<bool>
                })
                &&& dense_get(final(self).plot.deep_view().booleans, PLOT_WAR_HERO as int) == (
                if PLOT_WAR_HERO < old(self).plot.deep_view().booleans.len() {
                    Some(notoriety == Notoriety::Warhero)
                } else {
                    None::<bool>
                })
                &&& dense_get(final(self).plot.deep_view().booleans, PLOT_RUTHLESS as int) == (
                if PLOT_RUTHLESS < old(self).plot.deep_view().booleans.len() {
                    Some(notoriety == Notoriety::Ruthless)
                } else {
                    None::<bool>
                })
                &&& forall|i: int|
                    0 <= i < old(self).plot.deep_view().booleans.len() && i != PLOT_SURVIVOR as int
                        && i != PLOT_WAR_HERO as int && i != PLOT_RUTHLESS as int ==> final(self).plot.deep_view().booleans[i] == old(self).plot.deep_view().booleans[i]
                &&& final(self).plot.deep_view().booleans.len() == old(self).plot.deep_view().booleans.len()
            }),
            final(self).me1_plot.deep_view().integers == (if PLOT_ME1_NOTORIETY < old(self).me1_plot.deep_view().integers.len() {
                old(self).me1_plot.deep_view().integers.update(
                    PLOT_ME1_NOTORIETY as int,
                    notoriety.tag_spec(),
                )
            } else {
                old(self).me1_plot.deep_view().integers
            }),
            final(self).player.gameplay == old(self).player.gameplay,
            final(self).player.resources == old(self).player.resources,
            final(self).player.powers == old(self).player.powers,
            final(self).me1_plot.deep_view().booleans == old(self).me1_plot.deep_view().booleans,
            final(self).me1_plot.deep_view().floats == old(self).me1_plot.deep_view().floats,
            final(self).plot.deep_view().integers == old(self).plot.deep_view().integers,
            final(self).plot.deep_view().floats == old(self).plot.deep_view().floats,
    {
        self.player.role_play.notoriety = notoriety;
        if !matches!(notoriety, Notoriety::Unset) {
            let survivor = matches!(notoriety, Notoriety::Survivor);
            let war_hero = matches!(notoriety, Notoriety::Warhero);
            let ruthless = matches!(notoriety, Notoriety::Ruthless);
            self.plot.set_boolean(PLOT_SURVIVOR, survivor);
            self.plot.set_boolean(PLOT_WAR_HERO, war_hero);
            self.plot.set_boolean(PLOT_RUTHLESS, ruthless);
        }
        self.me1_plot.set_integer(PLOT_ME1_NOTORIETY, self.player.role_play.notoriety.tag());
    }
}

// ---------------------------------------------------------------------------
// Bonus powers: toggling a power by its class name, matched without regard
// to case, as the power catalogs spell names inconsistently.
// ---------------------------------------------------------------------------

/// Whether two strings are equal under case folding; the outside crate's
/// comparison, named here as a function of the characters alone.
pub uninterp spec fn uni_eq(a: Seq<u16>, b: Seq<u16>) -> bool;

/// Relies on unicase::eq: case-insensitive string equality, a function of
/// the two strings alone; equal strings always compare equal.
#[verifier::external_body]
fn units_eq_ignore_case(a: &Vec<u16>, b: &Vec<u16>) -> (r: bool)
    ensures
        r == uni_eq(a.deep_view(), b.deep_view()),
        a.deep_view() == b.deep_view() ==> r,
{
    let sa = String::from_utf16_lossy(a);
    let sb = String::from_utf16_lossy(b);
    unicase::eq(&sa, &sb)
}

/// Which slot a class name selects: the position of the first power whose
/// name matches under case folding, or a negative answer if none does.
pub open spec fn first_power_match(powers: Seq<PowerV>, name: Seq<u16>) -> int
    decreases powers.len(),
{
    if powers.len() == 0 {
        -1
    } else if uni_eq(powers[0].power_class_name, name) {
        0
    } else {
        let rest = first_power_match(powers.drop_first(), name);
        if rest < 0 {
            -1
        } else {
            rest + 1
        }
    }
}

pub proof fn lemma_first_power_match(powers: Seq<PowerV>, name: Seq<u16>)
    ensures
        first_power_match(powers, name) == -1 ==> forall|j: int|
            0 <= j < powers.len() ==> !uni_eq((#[trigger] powers[j]).power_class_name, name),
        first_power_match(powers, name) >= 0 ==> {
            let idx = first_power_match(powers, name);
            &&& idx < powers.len()
            &&& uni_eq(powers[idx].power_class_name, name)
            &&& forall|j: int|
                0 <= j < idx ==> !uni_eq((#[trigger] powers[j]).power_class_name, name)
        },
    decreases powers.len(),
{
    if powers.len() == 0 {
    } else if uni_eq(powers[0].power_class_name, name) {
    } else {
        lemma_first_power_match(powers.drop_first(), name);
        let rest = first_power_match(powers.drop_first(), name);
        if rest < 0 {
            assert forall|j: int|
                0 <= j < powers.len() implies !uni_eq(
                (#[trigger] powers[j]).power_class_name,
                name,
            ) by {
                if j > 0 {
                    assert(powers.drop_first()[j - 1] == powers[j]);
                }
            }
        } else {
            assert forall|j: int|
                0 <= j < rest + 1 implies !uni_eq(
                (#[trigger] powers[j]).power_class_name,
                name,
            ) by {
                if j > 0 {
                    assert(powers.drop_first()[j - 1] == powers[j]);
                }
            }
        }
    }
}

/// Toggles a bonus power: the first slot whose class name matches under
/// case folding is removed; if none matches, a power with that name and
/// rank zero is appended.
#[verifier::loop_isolation(false)]
pub fn toggle_bonus_power(powers: &mut Vec<Power>, power_class_name: SaveString)
    ensures
        ({
            let idx = first_power_match(
                old(powers).deep_view(),
                power_class_name.deep_view(),
            );
            if idx >= 0 {
                final(powers).deep_view() == old(powers).deep_view().remove(idx)
            } else {
                final(powers).deep_view() == old(powers).deep_view().push(
                    PowerV {
                        power_class_name: power_class_name.deep_view(),
                        current_rank: 0,
                    },
                )
            }
        }),
{
    let ghost dv = powers.deep_view();
    let ghost name = power_class_name.deep_view();
    proof {
        lemma_first_power_match(dv, name);
    }
    let mut i: usize = 0;
    while i < powers.len()
        invariant
            i <= dv.len(),
            powers.deep_view() == dv,
            forall|j: int| 0 <= j < i ==> !uni_eq((#[trigger] dv[j]).power_class_name, name),
        decreases dv.len() - i,
    {
        if units_eq_ignore_case(&powers[i].power_class_name.units, &power_class_name.units) {
            proof {
                assert(uni_eq(dv[i as int].power_class_name, name));
                let idx = first_power_match(dv, name);
                assert(idx != -1);
                assert(idx == i) by {
                    if idx < i {
                        assert(uni_eq(dv[idx].power_class_name, name));
                    }
                    if idx > i {
                        assert(!uni_eq(dv[i as int].power_class_name, name));
                    }
                }
            }
            let ghost pre = powers.deep_view();
            powers.remove(i);
            proof {
                assert(powers.deep_view() =~= pre.remove(i as int));
            }
            return ;
        }
        i = i + 1;
    }
    proof {
        assert(first_power_match(dv, name) == -1) by {
            let idx = first_power_match(dv, name);
            if idx >= 0 {
                assert(!uni_eq(dv[idx].power_class_name, name));
            }
        }
    }
    let ghost pre = powers.deep_view();
    powers.push(Power { power_class_name, current_rank: 0 });
    proof {
        assert(powers.deep_view() =~= pre.push(
            PowerV { power_class_name: name, current_rank: 0 },
        ));
    }
}

} // verus!
