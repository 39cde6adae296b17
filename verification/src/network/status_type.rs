//! The status values that the server sets, one at a time.

use vstd::prelude::*;

use crate::loaders::convertable::ByteConvertable;
use crate::loaders::stream::{ByteStream, ConversionError};
use crate::loaders::wire::{
    holds_at, lemma_holds_at_bounds, lemma_holds_at_split, lemma_u16_round_trip,
    lemma_u32_round_trip, lemma_u64_round_trip, u16_at, u16_bytes, u32_at, u32_bytes, u64_at,
    u64_bytes, zeros,
};

verus! {

/// Every value that the server can set. On the wire a value is a code of two
/// bytes and the numbers that the code calls for: their count and their widths
/// follow from the code alone. The length hint is the number of bytes that the
/// value takes in its packet; what the numbers leave of it is padding.
#[derive(Clone, Copy, Debug, PartialEq, Eq, Structural)]
pub enum StatusType {
    Weight(u32),
    MaximumWeight(u32),
    MovementSpeed(u32),
    BaseLevel(u32),
    JobLevel(u32),
    Karma(u32),
    Manner(u32),
    StatusPoint(u32),
    SkillPoint(u32),
    Hit(u32),
    Flee1(u32),
    Flee2(u32),
    MaximumHealthPoints(u32),
    MaximumSpellPoints(u32),
    HealthPoints(u32),
    SpellPoints(u32),
    AttackSpeed(u32),
    Attack1(u32),
    Defense1(u32),
    MagicDefense1(u32),
    Attack2(u32),
    Defense2(u32),
    MagicDefense2(u32),
    Critical(u32),
    MagicAttack1(u32),
    MagicAttack2(u32),
    Zeny(u32),
    BaseExperience(u64),
    JobExperience(u64),
    NextBaseExperience(u64),
    NextJobExperience(u64),
    SpUstr(u8),
    SpUagi(u8),
    SpUvit(u8),
    SpUint(u8),
    SpUdex(u8),
    SpUluk(u8),
    Strength(u32, u32),
    Agility(u32, u32),
    Vitality(u32, u32),
    Intelligence(u32, u32),
    Dexterity(u32, u32),
    Luck(u32, u32),
    CartInfo(u16, u32, u32),
    ActivityPoints(u32),
    TraitPoint(u32),
    MaximumActivityPoints(u32),
    Power(u32, u32),
    Stamina(u32, u32),
    Wisdom(u32, u32),
    Spell(u32, u32),
    Concentration(u32, u32),
    Creativity(u32, u32),
    SpUpow(u8),
    SpUsta(u8),
    SpUwis(u8),
    SpUspl(u8),
    SpUcon(u8),
    SpUcrt(u8),
    PhysicalAttack(u32),
    SpellMagicAttack(u32),
    Resistance(u32),
    MagicResistance(u32),
    HealingPlus(u32),
    CriticalDamageRate(u32),
}

impl StatusType {
    /// The code that stands for a variant on the wire.
    pub open spec fn code(self) -> u16 {
        match self {
            StatusType::Weight(_) => 24,
            StatusType::MaximumWeight(_) => 25,
            StatusType::MovementSpeed(_) => 0,
            StatusType::BaseLevel(_) => 11,
            StatusType::JobLevel(_) => 55,
            StatusType::Karma(_) => 3,
            StatusType::Manner(_) => 4,
            StatusType::StatusPoint(_) => 9,
            StatusType::SkillPoint(_) => 12,
            StatusType::Hit(_) => 49,
            StatusType::Flee1(_) => 50,
            StatusType::Flee2(_) => 51,
            StatusType::MaximumHealthPoints(_) => 6,
            StatusType::MaximumSpellPoints(_) => 8,
            StatusType::HealthPoints(_) => 5,
            StatusType::SpellPoints(_) => 7,
            StatusType::AttackSpeed(_) => 53,
            StatusType::Attack1(_) => 41,
            StatusType::Defense1(_) => 45,
            StatusType::MagicDefense1(_) => 47,
            StatusType::Attack2(_) => 42,
            StatusType::Defense2(_) => 46,
            StatusType::MagicDefense2(_) => 48,
            StatusType::Critical(_) => 52,
            StatusType::MagicAttack1(_) => 43,
            StatusType::MagicAttack2(_) => 44,
            StatusType::Zeny(_) => 20,
            StatusType::BaseExperience(_) => 1,
            StatusType::JobExperience(_) => 2,
            StatusType::NextBaseExperience(_) => 22,
            StatusType::NextJobExperience(_) => 23,
            StatusType::SpUstr(_) => 32,
            StatusType::SpUagi(_) => 33,
            StatusType::SpUvit(_) => 34,
            StatusType::SpUint(_) => 35,
            StatusType::SpUdex(_) => 36,
            StatusType::SpUluk(_) => 37,
            StatusType::Strength(..) => 13,
            StatusType::Agility(..) => 14,
            StatusType::Vitality(..) => 15,
            StatusType::Intelligence(..) => 16,
            StatusType::Dexterity(..) => 17,
            StatusType::Luck(..) => 18,
            StatusType::CartInfo(..) => 99,
            StatusType::ActivityPoints(_) => 232,
            StatusType::TraitPoint(_) => 231,
            StatusType::MaximumActivityPoints(_) => 233,
            StatusType::Power(..) => 219,
            StatusType::Stamina(..) => 220,
            StatusType::Wisdom(..) => 221,
            StatusType::Spell(..) => 222,
            StatusType::Concentration(..) => 223,
            StatusType::Creativity(..) => 224,
            StatusType::SpUpow(_) => 247,
            StatusType::SpUsta(_) => 248,
            StatusType::SpUwis(_) => 249,
            StatusType::SpUspl(_) => 250,
            StatusType::SpUcon(_) => 251,
            StatusType::SpUcrt(_) => 252,
            StatusType::PhysicalAttack(_) => 225,
            StatusType::SpellMagicAttack(_) => 226,
            StatusType::Resistance(_) => 227,
            StatusType::MagicResistance(_) => 228,
            StatusType::HealingPlus(_) => 229,
            StatusType::CriticalDamageRate(_) => 230,
        }
    }

    /// The number of bytes that the numbers of a code take, for an assigned
    /// code.
    pub open spec fn payload_size(code: u16) -> Option<nat> {
        if 32 <= code <= 37 || 247 <= code <= 252 {
            Some(1)
        } else if code == 0
            || 3 <= code <= 9
            || 11 <= code <= 12
            || code == 20
            || 24 <= code <= 25
            || 41 <= code <= 53
            || code == 55
            || 225 <= code <= 233 {
            Some(4)
        } else if 1 <= code <= 2 || 13 <= code <= 18 || 22 <= code <= 23 || 219 <= code <= 224 {
            Some(8)
        } else if code == 99 {
            Some(10)
        } else {
            None
        }
    }

    /// The value of a code whose numbers begin at `at`.
    pub open spec fn of_code(code: u16, data: Seq<u8>, at: int) -> StatusType {
        if code == 0 {
            StatusType::MovementSpeed(u32_at(data, at))
        } else if code == 1 {
            StatusType::BaseExperience(u64_at(data, at))
        } else if code == 2 {
            StatusType::JobExperience(u64_at(data, at))
        } else if code == 3 {
            StatusType::Karma(u32_at(data, at))
        } else if code == 4 {
            StatusType::Manner(u32_at(data, at))
        } else if code == 5 {
            StatusType::HealthPoints(u32_at(data, at))
        } else if code == 6 {
            StatusType::MaximumHealthPoints(u32_at(data, at))
        } else if code == 7 {
            StatusType::SpellPoints(u32_at(data, at))
        } else if code == 8 {
            StatusType::MaximumSpellPoints(u32_at(data, at))
        } else if code == 9 {
            StatusType::StatusPoint(u32_at(data, at))
        } else if code == 11 {
            StatusType::BaseLevel(u32_at(data, at))
        } else if code == 12 {
            StatusType::SkillPoint(u32_at(data, at))
        } else if code == 13 {
            StatusType::Strength(u32_at(data, at), u32_at(data, at + 4))
        } else if code == 14 {
            StatusType::Agility(u32_at(data, at), u32_at(data, at + 4))
        } else if code == 15 {
            StatusType::Vitality(u32_at(data, at), u32_at(data, at + 4))
        } else if code == 16 {
            StatusType::Intelligence(u32_at(data, at), u32_at(data, at + 4))
        } else if code == 17 {
            StatusType::Dexterity(u32_at(data, at), u32_at(data, at + 4))
        } else if code == 18 {
            StatusType::Luck(u32_at(data, at), u32_at(data, at + 4))
        } else if code == 20 {
            StatusType::Zeny(u32_at(data, at))
        } else if code == 22 {
            StatusType::NextBaseExperience(u64_at(data, at))
        } else if code == 23 {
            StatusType::NextJobExperience(u64_at(data, at))
        } else if code == 24 {
            StatusType::Weight(u32_at(data, at))
        } else if code == 25 {
            StatusType::MaximumWeight(u32_at(data, at))
        } else if code == 32 {
            StatusType::SpUstr(data[at])
        } else if code == 33 {
            StatusType::SpUagi(data[at])
        } else if code == 34 {
            StatusType::SpUvit(data[at])
        } else if code == 35 {
            StatusType::SpUint(data[at])
        } else if code == 36 {
            StatusType::SpUdex(data[at])
        } else if code == 37 {
            StatusType::SpUluk(data[at])
        } else if code == 41 {
            StatusType::Attack1(u32_at(data, at))
        } else if code == 42 {
            StatusType::Attack2(u32_at(data, at))
        } else if code == 43 {
            StatusType::MagicAttack1(u32_at(data, at))
        } else if code == 44 {
            StatusType::MagicAttack2(u32_at(data, at))
        } else if code == 45 {
            StatusType::Defense1(u32_at(data, at))
        } else if code == 46 {
            StatusType::Defense2(u32_at(data, at))
        } else if code == 47 {
            StatusType::MagicDefense1(u32_at(data, at))
        } else if code == 48 {
            StatusType::MagicDefense2(u32_at(data, at))
        } else if code == 49 {
            StatusType::Hit(u32_at(data, at))
        } else if code == 50 {
            StatusType::Flee1(u32_at(data, at))
        } else if code == 51 {
            StatusType::Flee2(u32_at(data, at))
        } else if code == 52 {
            StatusType::Critical(u32_at(data, at))
        } else if code == 53 {
            StatusType::AttackSpeed(u32_at(data, at))
        } else if code == 55 {
            StatusType::JobLevel(u32_at(data, at))
        } else if code == 99 {
            StatusType::CartInfo(u16_at(data, at), u32_at(data, at + 2), u32_at(data, at + 6))
        } else if code == 219 {
            StatusType::Power(u32_at(data, at), u32_at(data, at + 4))
        } else if code == 220 {
            StatusType::Stamina(u32_at(data, at), u32_at(data, at + 4))
        } else if code == 221 {
            StatusType::Wisdom(u32_at(data, at), u32_at(data, at + 4))
        } else if code == 222 {
            StatusType::Spell(u32_at(data, at), u32_at(data, at + 4))
        } else if code == 223 {
            StatusType::Concentration(u32_at(data, at), u32_at(data, at + 4))
        } else if code == 224 {
            StatusType::Creativity(u32_at(data, at), u32_at(data, at + 4))
        } else if code == 225 {
            StatusType::PhysicalAttack(u32_at(data, at))
        } else if code == 226 {
            StatusType::SpellMagicAttack(u32_at(data, at))
        } else if code == 227 {
            StatusType::Resistance(u32_at(data, at))
        } else if code == 228 {
            StatusType::MagicResistance(u32_at(data, at))
        } else if code == 229 {
            StatusType::HealingPlus(u32_at(data, at))
        } else if code == 230 {
            StatusType::CriticalDamageRate(u32_at(data, at))
        } else if code == 231 {
            StatusType::TraitPoint(u32_at(data, at))
        } else if code == 232 {
            StatusType::ActivityPoints(u32_at(data, at))
        } else if code == 233 {
            StatusType::MaximumActivityPoints(u32_at(data, at))
        } else if code == 247 {
            StatusType::SpUpow(data[at])
        } else if code == 248 {
            StatusType::SpUsta(data[at])
        } else if code == 249 {
            StatusType::SpUwis(data[at])
        } else if code == 250 {
            StatusType::SpUspl(data[at])
        } else if code == 251 {
            StatusType::SpUcon(data[at])
        } else {
            StatusType::SpUcrt(data[at])
        }
    }

    /// The bytes of the numbers of a value.
    pub open spec fn payload(self) -> Seq<u8> {
        match self {
            StatusType::Weight(value) => u32_bytes(value),
            StatusType::MaximumWeight(value) => u32_bytes(value),
            StatusType::MovementSpeed(value) => u32_bytes(value),
            StatusType::BaseLevel(value) => u32_bytes(value),
            StatusType::JobLevel(value) => u32_bytes(value),
            StatusType::Karma(value) => u32_bytes(value),
            StatusType::Manner(value) => u32_bytes(value),
            StatusType::StatusPoint(value) => u32_bytes(value),
            StatusType::SkillPoint(value) => u32_bytes(value),
            StatusType::Hit(value) => u32_bytes(value),
            StatusType::Flee1(value) => u32_bytes(value),
            StatusType::Flee2(value) => u32_bytes(value),
            StatusType::MaximumHealthPoints(value) => u32_bytes(value),
            StatusType::MaximumSpellPoints(value) => u32_bytes(value),
            StatusType::HealthPoints(value) => u32_bytes(value),
            StatusType::SpellPoints(value) => u32_bytes(value),
            StatusType::AttackSpeed(value) => u32_bytes(value),
            StatusType::Attack1(value) => u32_bytes(value),
            StatusType::Defense1(value) => u32_bytes(value),
            StatusType::MagicDefense1(value) => u32_bytes(value),
            StatusType::Attack2(value) => u32_bytes(value),
            StatusType::Defense2(value) => u32_bytes(value),
            StatusType::MagicDefense2(value) => u32_bytes(value),
            StatusType::Critical(value) => u32_bytes(value),
            StatusType::MagicAttack1(value) => u32_bytes(value),
            StatusType::MagicAttack2(value) => u32_bytes(value),
            StatusType::Zeny(value) => u32_bytes(value),
            StatusType::BaseExperience(value) => u64_bytes(value),
            StatusType::JobExperience(value) => u64_bytes(value),
            StatusType::NextBaseExperience(value) => u64_bytes(value),
            StatusType::NextJobExperience(value) => u64_bytes(value),
            StatusType::SpUstr(value) => seq![value],
            StatusType::SpUagi(value) => seq![value],
            StatusType::SpUvit(value) => seq![value],
            StatusType::SpUint(value) => seq![value],
            StatusType::SpUdex(value) => seq![value],
            StatusType::SpUluk(value) => seq![value],
            StatusType::Strength(first, second) => u32_bytes(first) + u32_bytes(second),
            StatusType::Agility(first, second) => u32_bytes(first) + u32_bytes(second),
            StatusType::Vitality(first, second) => u32_bytes(first) + u32_bytes(second),
            StatusType::Intelligence(first, second) => u32_bytes(first) + u32_bytes(second),
            StatusType::Dexterity(first, second) => u32_bytes(first) + u32_bytes(second),
            StatusType::Luck(first, second) => u32_bytes(first) + u32_bytes(second),
            StatusType::CartInfo(first, second, third) => {
                u16_bytes(first) + u32_bytes(second) + u32_bytes(third)
            },
            StatusType::ActivityPoints(value) => u32_bytes(value),
            StatusType::TraitPoint(value) => u32_bytes(value),
            StatusType::MaximumActivityPoints(value) => u32_bytes(value),
            StatusType::Power(first, second) => u32_bytes(first) + u32_bytes(second),
            StatusType::Stamina(first, second) => u32_bytes(first) + u32_bytes(second),
            StatusType::Wisdom(first, second) => u32_bytes(first) + u32_bytes(second),
            StatusType::Spell(first, second) => u32_bytes(first) + u32_bytes(second),
            StatusType::Concentration(first, second) => u32_bytes(first) + u32_bytes(second),
            StatusType::Creativity(first, second) => u32_bytes(first) + u32_bytes(second),
            StatusType::SpUpow(value) => seq![value],
            StatusType::SpUsta(value) => seq![value],
            StatusType::SpUwis(value) => seq![value],
            StatusType::SpUspl(value) => seq![value],
            StatusType::SpUcon(value) => seq![value],
            StatusType::SpUcrt(value) => seq![value],
            StatusType::PhysicalAttack(value) => u32_bytes(value),
            StatusType::SpellMagicAttack(value) => u32_bytes(value),
            StatusType::Resistance(value) => u32_bytes(value),
            StatusType::MagicResistance(value) => u32_bytes(value),
            StatusType::HealingPlus(value) => u32_bytes(value),
            StatusType::CriticalDamageRate(value) => u32_bytes(value),
        }
    }
}

/// Reads a number inside the bytes of a value: where they end before the number
/// does, the value is not one.
fn inside<T>(result: Result<T, ConversionError>) -> (inside: Result<T, ConversionError>)
    ensures
        result is Ok ==> inside == result,
        result is Err ==> inside == Err::<T, ConversionError>(ConversionError::Invalid),
{
    match result {
        Ok(value) => Ok(value),
        Err(_) => Err(ConversionError::Invalid),
    }
}

impl ByteConvertable for StatusType {
    type Model = StatusType;

    open spec fn model(&self) -> StatusType {
        *self
    }

    open spec fn accepts(length_hint: Option<usize>) -> bool {
        length_hint is Some
    }

    open spec fn decoding(data: Seq<u8>, at: int, length_hint: Option<usize>) -> Result<
        (StatusType, nat),
        ConversionError,
    > {
        let width = length_hint->Some_0 as nat;
        if at + width > data.len() {
            Err(ConversionError::Incomplete)
        } else if width < 2 {
            Err(ConversionError::Invalid)
        } else {
            match StatusType::payload_size(u16_at(data, at)) {
                Some(size) => if 2 + size <= width {
                    Ok((StatusType::of_code(u16_at(data, at), data, at + 2), width))
                } else {
                    Err(ConversionError::Invalid)
                },
                None => Err(ConversionError::Invalid),
            }
        }
    }

    open spec fn encodable(value: StatusType, length_hint: Option<usize>) -> bool {
        2 + value.payload().len() <= length_hint->Some_0
    }

    open spec fn encoding(value: StatusType, length_hint: Option<usize>) -> Seq<u8> {
        u16_bytes(value.code()) + value.payload() + zeros(
            (length_hint->Some_0 - 2 - value.payload().len()) as nat,
        )
    }

    fn from_bytes(byte_stream: &mut ByteStream, length_hint: Option<usize>) -> (result: Result<
        Self,
        ConversionError,
    >) {
        let width = match length_hint {
            Some(width) => width,
            None => return Err(ConversionError::Invalid),
        };
        if byte_stream.remaining_length() < width {
            return Err(ConversionError::Incomplete);
        }
        let end = byte_stream.get_offset() + width;
        let mut frame = byte_stream.frame(end);
        let code = inside(frame.read_u16())?;
        let status = match code {
            0 => StatusType::MovementSpeed(inside(frame.read_u32())?),
            1 => StatusType::BaseExperience(inside(frame.read_u64())?),
            2 => StatusType::JobExperience(inside(frame.read_u64())?),
            3 => StatusType::Karma(inside(frame.read_u32())?),
            4 => StatusType::Manner(inside(frame.read_u32())?),
            5 => StatusType::HealthPoints(inside(frame.read_u32())?),
            6 => StatusType::MaximumHealthPoints(inside(frame.read_u32())?),
            7 => StatusType::SpellPoints(inside(frame.read_u32())?),
            8 => StatusType::MaximumSpellPoints(inside(frame.read_u32())?),
            9 => StatusType::StatusPoint(inside(frame.read_u32())?),
            11 => StatusType::BaseLevel(inside(frame.read_u32())?),
            12 => StatusType::SkillPoint(inside(frame.read_u32())?),
            13 => StatusType::Strength(inside(frame.read_u32())?, inside(frame.read_u32())?),
            14 => StatusType::Agility(inside(frame.read_u32())?, inside(frame.read_u32())?),
            15 => StatusType::Vitality(inside(frame.read_u32())?, inside(frame.read_u32())?),
            16 => StatusType::Intelligence(inside(frame.read_u32())?, inside(frame.read_u32())?),
            17 => StatusType::Dexterity(inside(frame.read_u32())?, inside(frame.read_u32())?),
            18 => StatusType::Luck(inside(frame.read_u32())?, inside(frame.read_u32())?),
            20 => StatusType::Zeny(inside(frame.read_u32())?),
            22 => StatusType::NextBaseExperience(inside(frame.read_u64())?),
            23 => StatusType::NextJobExperience(inside(frame.read_u64())?),
            24 => StatusType::Weight(inside(frame.read_u32())?),
            25 => StatusType::MaximumWeight(inside(frame.read_u32())?),
            32 => StatusType::SpUstr(inside(frame.read_u8())?),
            33 => StatusType::SpUagi(inside(frame.read_u8())?),
            34 => StatusType::SpUvit(inside(frame.read_u8())?),
            35 => StatusType::SpUint(inside(frame.read_u8())?),
            36 => StatusType::SpUdex(inside(frame.read_u8())?),
            37 => StatusType::SpUluk(inside(frame.read_u8())?),
            41 => StatusType::Attack1(inside(frame.read_u32())?),
            42 => StatusType::Attack2(inside(frame.read_u32())?),
            43 => StatusType::MagicAttack1(inside(frame.read_u32())?),
            44 => StatusType::MagicAttack2(inside(frame.read_u32())?),
            45 => StatusType::Defense1(inside(frame.read_u32())?),
            46 => StatusType::Defense2(inside(frame.read_u32())?),
            47 => StatusType::MagicDefense1(inside(frame.read_u32())?),
            48 => StatusType::MagicDefense2(inside(frame.read_u32())?),
            49 => StatusType::Hit(inside(frame.read_u32())?),
            50 => StatusType::Flee1(inside(frame.read_u32())?),
            51 => StatusType::Flee2(inside(frame.read_u32())?),
            52 => StatusType::Critical(inside(frame.read_u32())?),
            53 => StatusType::AttackSpeed(inside(frame.read_u32())?),
            55 => StatusType::JobLevel(inside(frame.read_u32())?),
            99 => StatusType::CartInfo(
                inside(frame.read_u16())?,
                inside(frame.read_u32())?,
                inside(frame.read_u32())?,
            ),
            219 => StatusType::Power(inside(frame.read_u32())?, inside(frame.read_u32())?),
            220 => StatusType::Stamina(inside(frame.read_u32())?, inside(frame.read_u32())?),
            221 => StatusType::Wisdom(inside(frame.read_u32())?, inside(frame.read_u32())?),
            222 => StatusType::Spell(inside(frame.read_u32())?, inside(frame.read_u32())?),
            223 => StatusType::Concentration(inside(frame.read_u32())?, inside(frame.read_u32())?),
            224 => StatusType::Creativity(inside(frame.read_u32())?, inside(frame.read_u32())?),
            225 => StatusType::PhysicalAttack(inside(frame.read_u32())?),
            226 => StatusType::SpellMagicAttack(inside(frame.read_u32())?),
            227 => StatusType::Resistance(inside(frame.read_u32())?),
            228 => StatusType::MagicResistance(inside(frame.read_u32())?),
            229 => StatusType::HealingPlus(inside(frame.read_u32())?),
            230 => StatusType::CriticalDamageRate(inside(frame.read_u32())?),
            231 => StatusType::TraitPoint(inside(frame.read_u32())?),
            232 => StatusType::ActivityPoints(inside(frame.read_u32())?),
            233 => StatusType::MaximumActivityPoints(inside(frame.read_u32())?),
            247 => StatusType::SpUpow(inside(frame.read_u8())?),
            248 => StatusType::SpUsta(inside(frame.read_u8())?),
            249 => StatusType::SpUwis(inside(frame.read_u8())?),
            250 => StatusType::SpUspl(inside(frame.read_u8())?),
            251 => StatusType::SpUcon(inside(frame.read_u8())?),
            252 => StatusType::SpUcrt(inside(frame.read_u8())?),
            _ => return Err(ConversionError::Invalid),
        };
        let _ = byte_stream.skip(width);
        Ok(status)
    }

    fn to_bytes(&self, length_hint: Option<usize>) -> (bytes: Vec<u8>) {
        let width = match length_hint {
            Some(width) => width,
            None => 0,
        };
        let mut bytes = Vec::new();
        match self {
            StatusType::Weight(value) => {
                let mut piece = 24u16.to_bytes(None);
                bytes.append(&mut piece);
                let mut piece = value.to_bytes(None);
                bytes.append(&mut piece);
            },
            StatusType::MaximumWeight(value) => {
                let mut piece = 25u16.to_bytes(None);
                bytes.append(&mut piece);
                let mut piece = value.to_bytes(None);
                bytes.append(&mut piece);
            },
            StatusType::MovementSpeed(value) => {
                let mut piece = 0u16.to_bytes(None);
                bytes.append(&mut piece);
                let mut piece = value.to_bytes(None);
                bytes.append(&mut piece);
            },
            StatusType::BaseLevel(value) => {
                let mut piece = 11u16.to_bytes(None);
                bytes.append(&mut piece);
                let mut piece = value.to_bytes(None);
                bytes.append(&mut piece);
            },
            StatusType::JobLevel(value) => {
                let mut piece = 55u16.to_bytes(None);
                bytes.append(&mut piece);
                let mut piece = value.to_bytes(None);
                bytes.append(&mut piece);
            },
            StatusType::Karma(value) => {
                let mut piece = 3u16.to_bytes(None);
                bytes.append(&mut piece);
                let mut piece = value.to_bytes(None);
                bytes.append(&mut piece);
            },
            StatusType::Manner(value) => {
                let mut piece = 4u16.to_bytes(None);
                bytes.append(&mut piece);
                let mut piece = value.to_bytes(None);
                bytes.append(&mut piece);
            },
            StatusType::StatusPoint(value) => {
                let mut piece = 9u16.to_bytes(None);
                bytes.append(&mut piece);
                let mut piece = value.to_bytes(None);
                bytes.append(&mut piece);
            },
            StatusType::SkillPoint(value) => {
                let mut piece = 12u16.to_bytes(None);
                bytes.append(&mut piece);
                let mut piece = value.to_bytes(None);
                bytes.append(&mut piece);
            },
            StatusType::Hit(value) => {
                let mut piece = 49u16.to_bytes(None);
                bytes.append(&mut piece);
                let mut piece = value.to_bytes(None);
                bytes.append(&mut piece);
            },
            StatusType::Flee1(value) => {
                let mut piece = 50u16.to_bytes(None);
                bytes.append(&mut piece);
                let mut piece = value.to_bytes(None);
                bytes.append(&mut piece);
            },
            StatusType::Flee2(value) => {
                let mut piece = 51u16.to_bytes(None);
                bytes.append(&mut piece);
                let mut piece = value.to_bytes(None);
                bytes.append(&mut piece);
            },
            StatusType::MaximumHealthPoints(value) => {
                let mut piece = 6u16.to_bytes(None);
                bytes.append(&mut piece);
                let mut piece = value.to_bytes(None);
                bytes.append(&mut piece);
            },
            StatusType::MaximumSpellPoints(value) => {
                let mut piece = 8u16.to_bytes(None);
                bytes.append(&mut piece);
                let mut piece = value.to_bytes(None);
                bytes.append(&mut piece);
            },
            StatusType::HealthPoints(value) => {
                let mut piece = 5u16.to_bytes(None);
                bytes.append(&mut piece);
                let mut piece = value.to_bytes(None);
                bytes.append(&mut piece);
            },
            StatusType::SpellPoints(value) => {
                let mut piece = 7u16.to_bytes(None);
                bytes.append(&mut piece);
                let mut piece = value.to_bytes(None);
                bytes.append(&mut piece);
            },
            StatusType::AttackSpeed(value) => {
                let mut piece = 53u16.to_bytes(None);
                bytes.append(&mut piece);
                let mut piece = value.to_bytes(None);
                bytes.append(&mut piece);
            },
            StatusType::Attack1(value) => {
                let mut piece = 41u16.to_bytes(None);
                bytes.append(&mut piece);
                let mut piece = value.to_bytes(None);
                bytes.append(&mut piece);
            },
            StatusType::Defense1(value) => {
                let mut piece = 45u16.to_bytes(None);
                bytes.append(&mut piece);
                let mut piece = value.to_bytes(None);
                bytes.append(&mut piece);
            },
            StatusType::MagicDefense1(value) => {
                let mut piece = 47u16.to_bytes(None);
                bytes.append(&mut piece);
                let mut piece = value.to_bytes(None);
                bytes.append(&mut piece);
            },
            StatusType::Attack2(value) => {
                let mut piece = 42u16.to_bytes(None);
                bytes.append(&mut piece);
                let mut piece = value.to_bytes(None);
                bytes.append(&mut piece);
            },
            StatusType::Defense2(value) => {
                let mut piece = 46u16.to_bytes(None);
                bytes.append(&mut piece);
                let mut piece = value.to_bytes(None);
                bytes.append(&mut piece);
            },
            StatusType::MagicDefense2(value) => {
                let mut piece = 48u16.to_bytes(None);
                bytes.append(&mut piece);
                let mut piece = value.to_bytes(None);
                bytes.append(&mut piece);
            },
            StatusType::Critical(value) => {
                let mut piece = 52u16.to_bytes(None);
                bytes.append(&mut piece);
                let mut piece = value.to_bytes(None);
                bytes.append(&mut piece);
            },
            StatusType::MagicAttack1(value) => {
                let mut piece = 43u16.to_bytes(None);
                bytes.append(&mut piece);
                let mut piece = value.to_bytes(None);
                bytes.append(&mut piece);
            },
            StatusType::MagicAttack2(value) => {
                let mut piece = 44u16.to_bytes(None);
                bytes.append(&mut piece);
                let mut piece = value.to_bytes(None);
                bytes.append(&mut piece);
            },
            StatusType::Zeny(value) => {
                let mut piece = 20u16.to_bytes(None);
                bytes.append(&mut piece);
                let mut piece = value.to_bytes(None);
                bytes.append(&mut piece);
            },
            StatusType::BaseExperience(value) => {
                let mut piece = 1u16.to_bytes(None);
                bytes.append(&mut piece);
                let mut piece = value.to_bytes(None);
                bytes.append(&mut piece);
            },
            StatusType::JobExperience(value) => {
                let mut piece = 2u16.to_bytes(None);
                bytes.append(&mut piece);
                let mut piece = value.to_bytes(None);
                bytes.append(&mut piece);
            },
            StatusType::NextBaseExperience(value) => {
                let mut piece = 22u16.to_bytes(None);
                bytes.append(&mut piece);
                let mut piece = value.to_bytes(None);
                bytes.append(&mut piece);
            },
            StatusType::NextJobExperience(value) => {
                let mut piece = 23u16.to_bytes(None);
                bytes.append(&mut piece);
                let mut piece = value.to_bytes(None);
                bytes.append(&mut piece);
            },
            StatusType::SpUstr(value) => {
                let mut piece = 32u16.to_bytes(None);
                bytes.append(&mut piece);
                let mut piece = value.to_bytes(None);
                bytes.append(&mut piece);
            },
            StatusType::SpUagi(value) => {
                let mut piece = 33u16.to_bytes(None);
                bytes.append(&mut piece);
                let mut piece = value.to_bytes(None);
                bytes.append(&mut piece);
            },
            StatusType::SpUvit(value) => {
                let mut piece = 34u16.to_bytes(None);
                bytes.append(&mut piece);
                let mut piece = value.to_bytes(None);
                bytes.append(&mut piece);
            },
            StatusType::SpUint(value) => {
                let mut piece = 35u16.to_bytes(None);
                bytes.append(&mut piece);
                let mut piece = value.to_bytes(None);
                bytes.append(&mut piece);
            },
            StatusType::SpUdex(value) => {
                let mut piece = 36u16.to_bytes(None);
                bytes.append(&mut piece);
                let mut piece = value.to_bytes(None);
                bytes.append(&mut piece);
            },
            StatusType::SpUluk(value) => {
                let mut piece = 37u16.to_bytes(None);
                bytes.append(&mut piece);
                let mut piece = value.to_bytes(None);
                bytes.append(&mut piece);
            },
            StatusType::Strength(first, second) => {
                let mut piece = 13u16.to_bytes(None);
                bytes.append(&mut piece);
                let mut piece = first.to_bytes(None);
                bytes.append(&mut piece);
                let mut piece = second.to_bytes(None);
                bytes.append(&mut piece);
            },
            StatusType::Agility(first, second) => {
                let mut piece = 14u16.to_bytes(None);
                bytes.append(&mut piece);
                let mut piece = first.to_bytes(None);
                bytes.append(&mut piece);
                let mut piece = second.to_bytes(None);
                bytes.append(&mut piece);
            },
            StatusType::Vitality(first, second) => {
                let mut piece = 15u16.to_bytes(None);
                bytes.append(&mut piece);
                let mut piece = first.to_bytes(None);
                bytes.append(&mut piece);
                let mut piece = second.to_bytes(None);
                bytes.append(&mut piece);
            },
            StatusType::Intelligence(first, second) => {
                let mut piece = 16u16.to_bytes(None);
                bytes.append(&mut piece);
                let mut piece = first.to_bytes(None);
                bytes.append(&mut piece);
                let mut piece = second.to_bytes(None);
                bytes.append(&mut piece);
            },
            StatusType::Dexterity(first, second) => {
                let mut piece = 17u16.to_bytes(None);
                bytes.append(&mut piece);
                let mut piece = first.to_bytes(None);
                bytes.append(&mut piece);
                let mut piece = second.to_bytes(None);
                bytes.append(&mut piece);
            },
            StatusType::Luck(first, second) => {
                let mut piece = 18u16.to_bytes(None);
                bytes.append(&mut piece);
                let mut piece = first.to_bytes(None);
                bytes.append(&mut piece);
                let mut piece = second.to_bytes(None);
                bytes.append(&mut piece);
            },
            StatusType::CartInfo(first, second, third) => {
                let mut piece = 99u16.to_bytes(None);
                bytes.append(&mut piece);
                let mut piece = first.to_bytes(None);
                bytes.append(&mut piece);
                let mut piece = second.to_bytes(None);
                bytes.append(&mut piece);
                let mut piece = third.to_bytes(None);
                bytes.append(&mut piece);
            },
            StatusType::ActivityPoints(value) => {
                let mut piece = 232u16.to_bytes(None);
                bytes.append(&mut piece);
                let mut piece = value.to_bytes(None);
                bytes.append(&mut piece);
            },
            StatusType::TraitPoint(value) => {
                let mut piece = 231u16.to_bytes(None);
                bytes.append(&mut piece);
                let mut piece = value.to_bytes(None);
                bytes.append(&mut piece);
            },
            StatusType::MaximumActivityPoints(value) => {
                let mut piece = 233u16.to_bytes(None);
                bytes.append(&mut piece);
                let mut piece = value.to_bytes(None);
                bytes.append(&mut piece);
            },
            StatusType::Power(first, second) => {
                let mut piece = 219u16.to_bytes(None);
                bytes.append(&mut piece);
                let mut piece = first.to_bytes(None);
                bytes.append(&mut piece);
                let mut piece = second.to_bytes(None);
                bytes.append(&mut piece);
            },
            StatusType::Stamina(first, second) => {
                let mut piece = 220u16.to_bytes(None);
                bytes.append(&mut piece);
                let mut piece = first.to_bytes(None);
                bytes.append(&mut piece);
                let mut piece = second.to_bytes(None);
                bytes.append(&mut piece);
            },
            StatusType::Wisdom(first, second) => {
                let mut piece = 221u16.to_bytes(None);
                bytes.append(&mut piece);
                let mut piece = first.to_bytes(None);
                bytes.append(&mut piece);
                let mut piece = second.to_bytes(None);
                bytes.append(&mut piece);
            },
            StatusType::Spell(first, second) => {
                let mut piece = 222u16.to_bytes(None);
                bytes.append(&mut piece);
                let mut piece = first.to_bytes(None);
                bytes.append(&mut piece);
                let mut piece = second.to_bytes(None);
                bytes.append(&mut piece);
            },
            StatusType::Concentration(first, second) => {
                let mut piece = 223u16.to_bytes(None);
                bytes.append(&mut piece);
                let mut piece = first.to_bytes(None);
                bytes.append(&mut piece);
                let mut piece = second.to_bytes(None);
                bytes.append(&mut piece);
            },
            StatusType::Creativity(first, second) => {
                let mut piece = 224u16.to_bytes(None);
                bytes.append(&mut piece);
                let mut piece = first.to_bytes(None);
                bytes.append(&mut piece);
                let mut piece = second.to_bytes(None);
                bytes.append(&mut piece);
            },
            StatusType::SpUpow(value) => {
                let mut piece = 247u16.to_bytes(None);
                bytes.append(&mut piece);
                let mut piece = value.to_bytes(None);
                bytes.append(&mut piece);
            },
            StatusType::SpUsta(value) => {
                let mut piece = 248u16.to_bytes(None);
                bytes.append(&mut piece);
                let mut piece = value.to_bytes(None);
                bytes.append(&mut piece);
            },
            StatusType::SpUwis(value) => {
                let mut piece = 249u16.to_bytes(None);
                bytes.append(&mut piece);
                let mut piece = value.to_bytes(None);
                bytes.append(&mut piece);
            },
            StatusType::SpUspl(value) => {
                let mut piece = 250u16.to_bytes(None);
                bytes.append(&mut piece);
                let mut piece = value.to_bytes(None);
                bytes.append(&mut piece);
            },
            StatusType::SpUcon(value) => {
                let mut piece = 251u16.to_bytes(None);
                bytes.append(&mut piece);
                let mut piece = value.to_bytes(None);
                bytes.append(&mut piece);
            },
            StatusType::SpUcrt(value) => {
                let mut piece = 252u16.to_bytes(None);
                bytes.append(&mut piece);
                let mut piece = value.to_bytes(None);
                bytes.append(&mut piece);
            },
            StatusType::PhysicalAttack(value) => {
                let mut piece = 225u16.to_bytes(None);
                bytes.append(&mut piece);
                let mut piece = value.to_bytes(None);
                bytes.append(&mut piece);
            },
            StatusType::SpellMagicAttack(value) => {
                let mut piece = 226u16.to_bytes(None);
                bytes.append(&mut piece);
                let mut piece = value.to_bytes(None);
                bytes.append(&mut piece);
            },
            StatusType::Resistance(value) => {
                let mut piece = 227u16.to_bytes(None);
                bytes.append(&mut piece);
                let mut piece = value.to_bytes(None);
                bytes.append(&mut piece);
            },
            StatusType::MagicResistance(value) => {
                let mut piece = 228u16.to_bytes(None);
                bytes.append(&mut piece);
                let mut piece = value.to_bytes(None);
                bytes.append(&mut piece);
            },
            StatusType::HealingPlus(value) => {
                let mut piece = 229u16.to_bytes(None);
                bytes.append(&mut piece);
                let mut piece = value.to_bytes(None);
                bytes.append(&mut piece);
            },
            StatusType::CriticalDamageRate(value) => {
                let mut piece = 230u16.to_bytes(None);
                bytes.append(&mut piece);
                let mut piece = value.to_bytes(None);
                bytes.append(&mut piece);
            },
        }
        assert(bytes@ =~= u16_bytes(self.code()) + self.payload());
        while bytes.len() < width
            invariant
                2 + self.payload().len() <= bytes@.len() <= width,
                bytes@ == u16_bytes(self.code()) + self.payload() + zeros(
                    (bytes@.len() - 2 - self.payload().len()) as nat,
                ),
            decreases width - bytes.len(),
        {
            bytes.push(0);
            assert(bytes@ =~= u16_bytes(self.code()) + self.payload() + zeros(
                (bytes@.len() - 2 - self.payload().len()) as nat,
            ));
        }
        bytes
    }

    proof fn lemma_round_trip(
        value: StatusType,
        length_hint: Option<usize>,
        data: Seq<u8>,
        at: int,
    ) {
        let width = length_hint->Some_0 as nat;
        let padding = zeros((width - 2 - value.payload().len()) as nat);
        lemma_holds_at_split(data, at, u16_bytes(value.code()) + value.payload(), padding);
        lemma_holds_at_split(data, at, u16_bytes(value.code()), value.payload());
        lemma_holds_at_bounds(data, at, Self::encoding(value, length_hint));
        lemma_u16_round_trip(value.code(), data, at);
        value.lemma_payload_size();
        value.lemma_of_code(data, at + 2);
    }
}

impl StatusType {
    /// A code that is not assigned decodes to no value, however many bytes
    /// follow it.
    pub proof fn lemma_unassigned_code(data: Seq<u8>, at: int, width: usize)
        requires
            0 <= at,
            at + width <= data.len(),
            StatusType::payload_size(u16_at(data, at)) is None,
        ensures
            StatusType::decoding(data, at, Some(width)) == Err::<
                (StatusType, nat),
                ConversionError,
            >(
                ConversionError::Invalid,
            ),
    {
    }

    /// The code 11 with four bytes behind it is the base level that the four
    /// bytes hold.
    pub proof fn lemma_base_level(level: u32, data: Seq<u8>, at: int)
        requires
            holds_at(data, at, u16_bytes(11) + u32_bytes(level)),
        ensures
            StatusType::decoding(data, at, Some(6)) == Ok::<(StatusType, nat), ConversionError>(
                (StatusType::BaseLevel(level), 6),
            ),
    {
        let value = StatusType::BaseLevel(level);
        assert(StatusType::encoding(value, Some(6)) =~= u16_bytes(11) + u32_bytes(level));
        StatusType::lemma_round_trip(value, Some(6), data, at);
    }

    /// The numbers of a value take as many bytes as its code calls for.
    pub proof fn lemma_payload_size(self)
        ensures
            StatusType::payload_size(self.code()) == Some(self.payload().len()),
    {
    }

    /// Reading the numbers of a value under its code gives the value back.
    #[verifier::rlimit(80)]
    pub proof fn lemma_of_code(self, data: Seq<u8>, at: int)
        requires
            holds_at(data, at, self.payload()),
        ensures
            StatusType::of_code(self.code(), data, at) == self,
    {
        reveal(holds_at);
        match self {
            StatusType::Weight(value) => {
                lemma_u32_round_trip(value, data, at);
            },
            StatusType::MaximumWeight(value) => {
                lemma_u32_round_trip(value, data, at);
            },
            StatusType::MovementSpeed(value) => {
                lemma_u32_round_trip(value, data, at);
            },
            StatusType::BaseLevel(value) => {
                lemma_u32_round_trip(value, data, at);
            },
            StatusType::JobLevel(value) => {
                lemma_u32_round_trip(value, data, at);
            },
            StatusType::Karma(value) => {
                lemma_u32_round_trip(value, data, at);
            },
            StatusType::Manner(value) => {
                lemma_u32_round_trip(value, data, at);
            },
            StatusType::StatusPoint(value) => {
                lemma_u32_round_trip(value, data, at);
            },
            StatusType::SkillPoint(value) => {
                lemma_u32_round_trip(value, data, at);
            },
            StatusType::Hit(value) => {
                lemma_u32_round_trip(value, data, at);
            },
            StatusType::Flee1(value) => {
                lemma_u32_round_trip(value, data, at);
            },
            StatusType::Flee2(value) => {
                lemma_u32_round_trip(value, data, at);
            },
            StatusType::MaximumHealthPoints(value) => {
                lemma_u32_round_trip(value, data, at);
            },
            StatusType::MaximumSpellPoints(value) => {
                lemma_u32_round_trip(value, data, at);
            },
            StatusType::HealthPoints(value) => {
                lemma_u32_round_trip(value, data, at);
            },
            StatusType::SpellPoints(value) => {
                lemma_u32_round_trip(value, data, at);
            },
            StatusType::AttackSpeed(value) => {
                lemma_u32_round_trip(value, data, at);
            },
            StatusType::Attack1(value) => {
                lemma_u32_round_trip(value, data, at);
            },
            StatusType::Defense1(value) => {
                lemma_u32_round_trip(value, data, at);
            },
            StatusType::MagicDefense1(value) => {
                lemma_u32_round_trip(value, data, at);
            },
            StatusType::Attack2(value) => {
                lemma_u32_round_trip(value, data, at);
            },
            StatusType::Defense2(value) => {
                lemma_u32_round_trip(value, data, at);
            },
            StatusType::MagicDefense2(value) => {
                lemma_u32_round_trip(value, data, at);
            },
            StatusType::Critical(value) => {
                lemma_u32_round_trip(value, data, at);
            },
            StatusType::MagicAttack1(value) => {
                lemma_u32_round_trip(value, data, at);
            },
            StatusType::MagicAttack2(value) => {
                lemma_u32_round_trip(value, data, at);
            },
            StatusType::Zeny(value) => {
                lemma_u32_round_trip(value, data, at);
            },
            StatusType::BaseExperience(value) => {
                lemma_u64_round_trip(value, data, at);
            },
            StatusType::JobExperience(value) => {
                lemma_u64_round_trip(value, data, at);
            },
            StatusType::NextBaseExperience(value) => {
                lemma_u64_round_trip(value, data, at);
            },
            StatusType::NextJobExperience(value) => {
                lemma_u64_round_trip(value, data, at);
            },
            StatusType::SpUstr(value) => {
                assert(data[at + 0] == seq![value][0]);
            },
            StatusType::SpUagi(value) => {
                assert(data[at + 0] == seq![value][0]);
            },
            StatusType::SpUvit(value) => {
                assert(data[at + 0] == seq![value][0]);
            },
            StatusType::SpUint(value) => {
                assert(data[at + 0] == seq![value][0]);
            },
            StatusType::SpUdex(value) => {
                assert(data[at + 0] == seq![value][0]);
            },
            StatusType::SpUluk(value) => {
                assert(data[at + 0] == seq![value][0]);
            },
            StatusType::Strength(first, second) => {
                lemma_holds_at_split(data, at, u32_bytes(first), u32_bytes(second));
                lemma_u32_round_trip(first, data, at);
                lemma_u32_round_trip(second, data, at + 4);
            },
            StatusType::Agility(first, second) => {
                lemma_holds_at_split(data, at, u32_bytes(first), u32_bytes(second));
                lemma_u32_round_trip(first, data, at);
                lemma_u32_round_trip(second, data, at + 4);
            },
            StatusType::Vitality(first, second) => {
                lemma_holds_at_split(data, at, u32_bytes(first), u32_bytes(second));
                lemma_u32_round_trip(first, data, at);
                lemma_u32_round_trip(second, data, at + 4);
            },
            StatusType::Intelligence(first, second) => {
                lemma_holds_at_split(data, at, u32_bytes(first), u32_bytes(second));
                lemma_u32_round_trip(first, data, at);
                lemma_u32_round_trip(second, data, at + 4);
            },
            StatusType::Dexterity(first, second) => {
                lemma_holds_at_split(data, at, u32_bytes(first), u32_bytes(second));
                lemma_u32_round_trip(first, data, at);
                lemma_u32_round_trip(second, data, at + 4);
            },
            StatusType::Luck(first, second) => {
                lemma_holds_at_split(data, at, u32_bytes(first), u32_bytes(second));
                lemma_u32_round_trip(first, data, at);
                lemma_u32_round_trip(second, data, at + 4);
            },
            StatusType::CartInfo(first, second, third) => {
                lemma_holds_at_split(
                    data,
                    at,
                    u16_bytes(first) + u32_bytes(second),
                    u32_bytes(third),
                );
                lemma_holds_at_split(data, at, u16_bytes(first), u32_bytes(second));
                lemma_u16_round_trip(first, data, at);
                lemma_u32_round_trip(second, data, at + 2);
                lemma_u32_round_trip(third, data, at + 6);
            },
            StatusType::ActivityPoints(value) => {
                lemma_u32_round_trip(value, data, at);
            },
            StatusType::TraitPoint(value) => {
                lemma_u32_round_trip(value, data, at);
            },
            StatusType::MaximumActivityPoints(value) => {
                lemma_u32_round_trip(value, data, at);
            },
            StatusType::Power(first, second) => {
                lemma_holds_at_split(data, at, u32_bytes(first), u32_bytes(second));
                lemma_u32_round_trip(first, data, at);
                lemma_u32_round_trip(second, data, at + 4);
            },
            StatusType::Stamina(first, second) => {
                lemma_holds_at_split(data, at, u32_bytes(first), u32_bytes(second));
                lemma_u32_round_trip(first, data, at);
                lemma_u32_round_trip(second, data, at + 4);
            },
            StatusType::Wisdom(first, second) => {
                lemma_holds_at_split(data, at, u32_bytes(first), u32_bytes(second));
                lemma_u32_round_trip(first, data, at);
                lemma_u32_round_trip(second, data, at + 4);
            },
            StatusType::Spell(first, second) => {
                lemma_holds_at_split(data, at, u32_bytes(first), u32_bytes(second));
                lemma_u32_round_trip(first, data, at);
                lemma_u32_round_trip(second, data, at + 4);
            },
            StatusType::Concentration(first, second) => {
                lemma_holds_at_split(data, at, u32_bytes(first), u32_bytes(second));
                lemma_u32_round_trip(first, data, at);
                lemma_u32_round_trip(second, data, at + 4);
            },
            StatusType::Creativity(first, second) => {
                lemma_holds_at_split(data, at, u32_bytes(first), u32_bytes(second));
                lemma_u32_round_trip(first, data, at);
                lemma_u32_round_trip(second, data, at + 4);
            },
            StatusType::SpUpow(value) => {
                assert(data[at + 0] == seq![value][0]);
            },
            StatusType::SpUsta(value) => {
                assert(data[at + 0] == seq![value][0]);
            },
            StatusType::SpUwis(value) => {
                assert(data[at + 0] == seq![value][0]);
            },
            StatusType::SpUspl(value) => {
                assert(data[at + 0] == seq![value][0]);
            },
            StatusType::SpUcon(value) => {
                assert(data[at + 0] == seq![value][0]);
            },
            StatusType::SpUcrt(value) => {
                assert(data[at + 0] == seq![value][0]);
            },
            StatusType::PhysicalAttack(value) => {
                lemma_u32_round_trip(value, data, at);
            },
            StatusType::SpellMagicAttack(value) => {
                lemma_u32_round_trip(value, data, at);
            },
            StatusType::Resistance(value) => {
                lemma_u32_round_trip(value, data, at);
            },
            StatusType::MagicResistance(value) => {
                lemma_u32_round_trip(value, data, at);
            },
            StatusType::HealingPlus(value) => {
                lemma_u32_round_trip(value, data, at);
            },
            StatusType::CriticalDamageRate(value) => {
                lemma_u32_round_trip(value, data, at);
            },
        }
    }
}

} // verus!
