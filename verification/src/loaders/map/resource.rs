//! The resource section of a map file: objects, light sources, sound sources
//! and effect sources, one behind the other, and the water and light settings.
//!
//! The layout of a record depends on the version of the format, which the byte
//! cursor carries. Floating-point numbers are kept as the 32 bits that the file
//! holds; the only operation on them here is the change of sign.

use vstd::prelude::*;

use crate::loaders::stream::{ByteStream, ConversionError, Version};
use crate::loaders::wire::{i32_of, text_at, u32_at};

verus! {

/// The kind of a resource.
#[derive(Copy, Clone, Debug, PartialEq, Eq, Structural)]
pub enum ResourceType {
    Object,
    LightSource,
    SoundSource,
    EffectSource,
}

impl ResourceType {
    /// The kind that an index stands for, where it stands for one.
    pub open spec fn of_index(index: i32) -> Option<ResourceType> {
        if index == 1 {
            Some(ResourceType::Object)
        } else if index == 2 {
            Some(ResourceType::LightSource)
        } else if index == 3 {
            Some(ResourceType::SoundSource)
        } else if index == 4 {
            Some(ResourceType::EffectSource)
        } else {
            None
        }
    }

    pub fn from(index: i32) -> (resource_type: Self)
        requires
            1 <= index <= 4,
        ensures
            Some(resource_type) == ResourceType::of_index(index),
    {
        match index {
            1 => ResourceType::Object,
            2 => ResourceType::LightSource,
            3 => ResourceType::SoundSource,
            _ => ResourceType::EffectSource,
        }
    }

    /// The kind that an index stands for, or nothing where it stands for none.
    pub fn try_from_index(index: i32) -> (resource_type: Option<Self>)
        ensures
            resource_type == ResourceType::of_index(index),
    {
        if 1 <= index && index <= 4 {
            Some(ResourceType::from(index))
        } else {
            None
        }
    }
}

/// The 32 bits of a floating-point number of single precision.
#[derive(Copy, Clone, Debug, PartialEq, Eq, Structural)]
pub struct FloatBits(pub u32);

impl FloatBits {
    /// The bits of the number of opposite sign: the highest bit is flipped.
    pub open spec fn opposite(self) -> FloatBits {
        if self.0 >= 0x8000_0000 {
            FloatBits((self.0 - 0x8000_0000) as u32)
        } else {
            FloatBits((self.0 + 0x8000_0000) as u32)
        }
    }

    pub fn negated(self) -> (bits: FloatBits)
        ensures
            bits == self.opposite(),
    {
        if self.0 >= 0x8000_0000 {
            FloatBits(self.0 - 0x8000_0000)
        } else {
            FloatBits(self.0 + 0x8000_0000)
        }
    }

    /// The bits that stand at `at`.
    pub open spec fn at(data: Seq<u8>, at: int) -> FloatBits {
        FloatBits(u32_at(data, at))
    }
}

/// Three floating-point numbers.
#[derive(Copy, Clone, Debug, PartialEq, Eq, Structural)]
pub struct Vector3Bits {
    pub x: FloatBits,
    pub y: FloatBits,
    pub z: FloatBits,
}

impl Vector3Bits {
    /// The three numbers that stand at `at`.
    pub open spec fn at(data: Seq<u8>, at: int) -> Vector3Bits {
        Vector3Bits {
            x: FloatBits::at(data, at),
            y: FloatBits::at(data, at + 4),
            z: FloatBits::at(data, at + 8),
        }
    }

    /// The three numbers that stand at `at`, the second with its sign changed.
    pub open spec fn flipped_at(data: Seq<u8>, at: int) -> Vector3Bits {
        Vector3Bits {
            x: FloatBits::at(data, at),
            y: FloatBits::at(data, at + 4).opposite(),
            z: FloatBits::at(data, at + 8),
        }
    }
}

/// Where an object stands, how it is turned, and how large it is.
#[derive(Copy, Clone, Debug, PartialEq, Eq, Structural)]
pub struct Transform {
    pub position: Vector3Bits,
    /// The rotation, in degrees around each axis.
    pub rotation: Vector3Bits,
    pub scale: Vector3Bits,
}

/// Reads a floating-point number: its four bytes.
pub fn read_float(byte_stream: &mut ByteStream) -> (result: Result<FloatBits, ConversionError>)
    ensures
        final(byte_stream).data() == old(byte_stream).data(),
        final(byte_stream).version() == old(byte_stream).version(),
        match result {
            Ok(bits) => {
                &&& old(byte_stream).offset() + 4 <= old(byte_stream).data().len()
                &&& bits == FloatBits::at(old(byte_stream).data(), old(byte_stream).offset() as int)
                &&& final(byte_stream).offset() == old(byte_stream).offset() + 4
            },
            Err(error) => {
                &&& old(byte_stream).offset() + 4 > old(byte_stream).data().len()
                &&& error == ConversionError::Incomplete
                &&& final(byte_stream).offset() == old(byte_stream).offset()
            },
        },
{
    let bits = byte_stream.read_u32()?;
    Ok(FloatBits(bits))
}

/// Reads three floating-point numbers.
pub fn read_vector3(byte_stream: &mut ByteStream) -> (result: Result<Vector3Bits, ConversionError>)
    ensures
        final(byte_stream).data() == old(byte_stream).data(),
        final(byte_stream).version() == old(byte_stream).version(),
        match result {
            Ok(vector) => {
                &&& old(byte_stream).offset() + 12 <= old(byte_stream).data().len()
                &&& vector == Vector3Bits::at(
                    old(byte_stream).data(),
                    old(byte_stream).offset() as int,
                )
                &&& final(byte_stream).offset() == old(byte_stream).offset() + 12
            },
            Err(error) => {
                &&& old(byte_stream).offset() + 12 > old(byte_stream).data().len()
                &&& error == ConversionError::Incomplete
                &&& final(byte_stream).offset() == old(byte_stream).offset()
            },
        },
{
    if byte_stream.remaining_length() < 12 {
        return Err(ConversionError::Incomplete);
    }
    let x = read_float(byte_stream)?;
    let y = read_float(byte_stream)?;
    let z = read_float(byte_stream)?;
    Ok(Vector3Bits { x, y, z })
}

/// Reads three floating-point numbers and changes the sign of the second.
pub fn read_vector3_flipped(byte_stream: &mut ByteStream) -> (result: Result<
    Vector3Bits,
    ConversionError,
>)
    ensures
        final(byte_stream).data() == old(byte_stream).data(),
        final(byte_stream).version() == old(byte_stream).version(),
        match result {
            Ok(vector) => {
                &&& old(byte_stream).offset() + 12 <= old(byte_stream).data().len()
                &&& vector == Vector3Bits::flipped_at(
                    old(byte_stream).data(),
                    old(byte_stream).offset() as int,
                )
                &&& final(byte_stream).offset() == old(byte_stream).offset() + 12
            },
            Err(error) => {
                &&& old(byte_stream).offset() + 12 > old(byte_stream).data().len()
                &&& error == ConversionError::Incomplete
                &&& final(byte_stream).offset() == old(byte_stream).offset()
            },
        },
{
    let vector = read_vector3(byte_stream)?;
    Ok(Vector3Bits { x: vector.x, y: vector.y.negated(), z: vector.z })
}

/// The `usize` that a signed integer of four bytes becomes by a cast: the
/// number itself where it is not negative, else the number that lies as far
/// below the highest `usize` as the integer lies below minus one.
pub open spec fn cast_of(bits: u32) -> usize {
    if bits < 0x8000_0000 {
        bits as usize
    } else {
        (usize::MAX - (0xffff_ffff - bits)) as usize
    }
}

/// Reads a signed integer of four bytes and casts it to `usize`.
pub fn read_cast(byte_stream: &mut ByteStream) -> (result: Result<usize, ConversionError>)
    ensures
        final(byte_stream).data() == old(byte_stream).data(),
        final(byte_stream).version() == old(byte_stream).version(),
        match result {
            Ok(value) => {
                &&& old(byte_stream).offset() + 4 <= old(byte_stream).data().len()
                &&& value == cast_of(
                    u32_at(old(byte_stream).data(), old(byte_stream).offset() as int),
                )
                &&& final(byte_stream).offset() == old(byte_stream).offset() + 4
            },
            Err(error) => {
                &&& old(byte_stream).offset() + 4 > old(byte_stream).data().len()
                &&& error == ConversionError::Incomplete
                &&& final(byte_stream).offset() == old(byte_stream).offset()
            },
        },
{
    let value = byte_stream.read_i32()?;
    if value >= 0 {
        Ok(value as usize)
    } else {
        Ok(usize::MAX - (-(value + 1)) as usize)
    }
}

/// Reads a count that the file holds as a signed integer. A negative one is no
/// count.
fn read_count(byte_stream: &mut ByteStream) -> (result: Result<usize, ConversionError>)
    requires
        old(byte_stream).offset() + 4 <= old(byte_stream).data().len(),
    ensures
        final(byte_stream).data() == old(byte_stream).data(),
        final(byte_stream).version() == old(byte_stream).version(),
        match result {
            Ok(count) => {
                &&& u32_at(old(byte_stream).data(), old(byte_stream).offset() as int) < 0x8000_0000
                &&& count == u32_at(old(byte_stream).data(), old(byte_stream).offset() as int)
                &&& final(byte_stream).offset() == old(byte_stream).offset() + 4
            },
            Err(error) => {
                &&& u32_at(old(byte_stream).data(), old(byte_stream).offset() as int)
                    >= 0x8000_0000
                &&& error == ConversionError::Invalid
                &&& final(byte_stream).offset() == old(byte_stream).offset()
            },
        },
{
    let mut cursor = byte_stream.fork();
    let value = cursor.read_i32()?;
    if value < 0 {
        return Err(ConversionError::Invalid);
    }
    byte_stream.follow(&cursor);
    Ok(value as usize)
}

/// An object of the map.
#[derive(Clone, Debug)]
pub struct ObjectData {
    /// The name of the object. Files older than version 1.6 hold none.
    pub name: Option<String>,
    pub model_name: String,
    pub transform: Transform,
    /// The place of the object among the resources, for an object with a name:
    /// such an object is lifted by this many small steps, so that no two
    /// objects lie in one plane. Zero for an object without a name.
    pub lift: usize,
}

/// What an [`ObjectData`] stands for.
pub struct ObjectDataModel {
    pub name: Option<Seq<char>>,
    pub model_name: Seq<char>,
    pub transform: Transform,
    pub lift: usize,
}

impl ObjectData {
    pub fn new(name: Option<String>, model_name: String, transform: Transform) -> (object: Self)
        ensures
            object.name == name,
            object.model_name == model_name,
            object.transform == transform,
            object.lift == 0,
    {
        ObjectData { name, model_name, transform, lift: 0 }
    }

    pub open spec fn model(&self) -> ObjectDataModel {
        ObjectDataModel {
            name: match self.name {
                Some(name) => Some(name@),
                None => None,
            },
            model_name: self.model_name@,
            transform: self.transform,
            lift: self.lift,
        }
    }

    /// The number of bytes of an object in a file of the given version.
    pub open spec fn size(version: Version) -> nat {
        if version.at_least(1, 6) {
            248
        } else {
            196
        }
    }

    /// The object that stands at `at` in a file of the given version, as the
    /// resource of the given place.
    pub open spec fn at(data: Seq<u8>, at: int, version: Version, index: usize) -> ObjectDataModel {
        if version.at_least(1, 6) {
            ObjectDataModel {
                name: Some(text_at(data, at, 40)),
                model_name: text_at(data, at + 52, 80),
                transform: Transform {
                    position: Vector3Bits::flipped_at(data, at + 212),
                    rotation: Vector3Bits::at(data, at + 224),
                    scale: Vector3Bits::at(data, at + 236),
                },
                lift: index,
            }
        } else {
            ObjectDataModel {
                name: None,
                model_name: text_at(data, at, 80),
                transform: Transform {
                    position: Vector3Bits::flipped_at(data, at + 160),
                    rotation: Vector3Bits::at(data, at + 172),
                    scale: Vector3Bits::at(data, at + 184),
                },
                lift: 0,
            }
        }
    }

    /// Decodes the object at the cursor, the resource of the given place.
    pub fn from_bytes(byte_stream: &mut ByteStream, index: usize) -> (result: Result<
        Self,
        ConversionError,
    >)
        ensures
            final(byte_stream).data() == old(byte_stream).data(),
            final(byte_stream).version() == old(byte_stream).version(),
            match result {
                Ok(object) => {
                    &&& old(byte_stream).offset() + ObjectData::size(old(byte_stream).version())
                        <= old(byte_stream).data().len()
                    &&& object.model() == ObjectData::at(
                        old(byte_stream).data(),
                        old(byte_stream).offset() as int,
                        old(byte_stream).version(),
                        index,
                    )
                    &&& final(byte_stream).offset() == old(byte_stream).offset() + ObjectData::size(
                        old(byte_stream).version(),
                    )
                },
                Err(error) => {
                    &&& old(byte_stream).offset() + ObjectData::size(old(byte_stream).version())
                        > old(byte_stream).data().len()
                    &&& error == ConversionError::Incomplete
                    &&& final(byte_stream).offset() == old(byte_stream).offset()
                },
            },
    {
        if byte_stream.get_version().equals_or_above(1, 6) {
            if byte_stream.remaining_length() < 248 {
                return Err(ConversionError::Incomplete);
            }
            let name = byte_stream.read_string(40)?;
            byte_stream.skip(12)?;
            let model_name = byte_stream.read_string(80)?;
            byte_stream.skip(80)?;
            let position = read_vector3_flipped(byte_stream)?;
            let rotation = read_vector3(byte_stream)?;
            let scale = read_vector3(byte_stream)?;
            let transform = Transform { position, rotation, scale };
            Ok(ObjectData { name: Some(name), model_name, transform, lift: index })
        } else {
            if byte_stream.remaining_length() < 196 {
                return Err(ConversionError::Incomplete);
            }
            let model_name = byte_stream.read_string(80)?;
            byte_stream.skip(80)?;
            let position = read_vector3_flipped(byte_stream)?;
            let rotation = read_vector3(byte_stream)?;
            let scale = read_vector3(byte_stream)?;
            let transform = Transform { position, rotation, scale };
            Ok(ObjectData { name: None, model_name, transform, lift: 0 })
        }
    }
}

/// A light of the map.
#[derive(Clone, Debug)]
pub struct LightSource {
    pub name: String,
    pub position: Vector3Bits,
    /// The red, green and blue part of the color of the light.
    pub color: Vector3Bits,
    pub range: FloatBits,
}

/// What a [`LightSource`] stands for.
pub struct LightSourceModel {
    pub name: Seq<char>,
    pub position: Vector3Bits,
    pub color: Vector3Bits,
    pub range: FloatBits,
}

impl LightSource {
    pub open spec fn model(&self) -> LightSourceModel {
        LightSourceModel {
            name: self.name@,
            position: self.position,
            color: self.color,
            range: self.range,
        }
    }

    /// The light source that stands at `at`.
    pub open spec fn at(data: Seq<u8>, at: int) -> LightSourceModel {
        LightSourceModel {
            name: text_at(data, at, 80),
            position: Vector3Bits::flipped_at(data, at + 80),
            color: Vector3Bits::at(data, at + 92),
            range: FloatBits::at(data, at + 104),
        }
    }

    /// Decodes the light source at the cursor, which takes 108 bytes.
    pub fn from_bytes(byte_stream: &mut ByteStream) -> (result: Result<Self, ConversionError>)
        ensures
            final(byte_stream).data() == old(byte_stream).data(),
            final(byte_stream).version() == old(byte_stream).version(),
            match result {
                Ok(light) => {
                    &&& old(byte_stream).offset() + 108 <= old(byte_stream).data().len()
                    &&& light.model() == LightSource::at(
                        old(byte_stream).data(),
                        old(byte_stream).offset() as int,
                    )
                    &&& final(byte_stream).offset() == old(byte_stream).offset() + 108
                },
                Err(error) => {
                    &&& old(byte_stream).offset() + 108 > old(byte_stream).data().len()
                    &&& error == ConversionError::Incomplete
                    &&& final(byte_stream).offset() == old(byte_stream).offset()
                },
            },
    {
        if byte_stream.remaining_length() < 108 {
            return Err(ConversionError::Incomplete);
        }
        let name = byte_stream.read_string(80)?;
        let position = read_vector3_flipped(byte_stream)?;
        let color = read_vector3(byte_stream)?;
        let range = read_float(byte_stream)?;
        Ok(LightSource { name, position, color, range })
    }
}

/// A sound of the map.
#[derive(Clone, Debug)]
pub struct SoundSource {
    pub name: String,
    pub sound_file: String,
    pub position: Vector3Bits,
    pub volume: FloatBits,
    pub width: usize,
    pub height: usize,
    pub range: FloatBits,
    /// The time after which the sound plays again. Files older than version
    /// 2.0 hold none: there it is four seconds.
    pub cycle: FloatBits,
}

/// What a [`SoundSource`] stands for.
pub struct SoundSourceModel {
    pub name: Seq<char>,
    pub sound_file: Seq<char>,
    pub position: Vector3Bits,
    pub volume: FloatBits,
    pub width: usize,
    pub height: usize,
    pub range: FloatBits,
    pub cycle: FloatBits,
}

/// The bits of the number four.
pub const FOUR: u32 = 0x4080_0000;

impl SoundSource {
    pub fn new(
        name: String,
        sound_file: String,
        position: Vector3Bits,
        volume: FloatBits,
        width: usize,
        height: usize,
        range: FloatBits,
        cycle: FloatBits,
    ) -> (sound: Self)
        ensures
            sound.name == name,
            sound.sound_file == sound_file,
            sound.position == position,
            sound.volume == volume,
            sound.width == width,
            sound.height == height,
            sound.range == range,
            sound.cycle == cycle,
    {
        SoundSource { name, sound_file, position, volume, width, height, range, cycle }
    }

    pub open spec fn model(&self) -> SoundSourceModel {
        SoundSourceModel {
            name: self.name@,
            sound_file: self.sound_file@,
            position: self.position,
            volume: self.volume,
            width: self.width,
            height: self.height,
            range: self.range,
            cycle: self.cycle,
        }
    }

    /// The number of bytes of a sound source in a file of the given version.
    pub open spec fn size(version: Version) -> nat {
        if version.at_least(2, 0) {
            192
        } else {
            188
        }
    }

    /// The sound source that stands at `at` in a file of the given version.
    pub open spec fn at(data: Seq<u8>, at: int, version: Version) -> SoundSourceModel {
        SoundSourceModel {
            name: text_at(data, at, 80),
            sound_file: text_at(data, at + 80, 80),
            position: Vector3Bits::flipped_at(data, at + 160),
            volume: FloatBits::at(data, at + 172),
            width: cast_of(u32_at(data, at + 176)),
            height: cast_of(u32_at(data, at + 180)),
            range: FloatBits::at(data, at + 184),
            cycle: if version.at_least(2, 0) {
                FloatBits::at(data, at + 188)
            } else {
                FloatBits(FOUR)
            },
        }
    }

    /// Decodes the sound source at the cursor.
    pub fn from_bytes(byte_stream: &mut ByteStream) -> (result: Result<Self, ConversionError>)
        ensures
            final(byte_stream).data() == old(byte_stream).data(),
            final(byte_stream).version() == old(byte_stream).version(),
            match result {
                Ok(sound) => {
                    &&& old(byte_stream).offset() + SoundSource::size(old(byte_stream).version())
                        <= old(byte_stream).data().len()
                    &&& sound.model() == SoundSource::at(
                        old(byte_stream).data(),
                        old(byte_stream).offset() as int,
                        old(byte_stream).version(),
                    )
                    &&& final(byte_stream).offset() == old(byte_stream).offset()
                        + SoundSource::size(old(byte_stream).version())
                },
                Err(error) => {
                    &&& old(byte_stream).offset() + SoundSource::size(old(byte_stream).version())
                        > old(byte_stream).data().len()
                    &&& error == ConversionError::Incomplete
                    &&& final(byte_stream).offset() == old(byte_stream).offset()
                },
            },
    {
        let recent = byte_stream.get_version().equals_or_above(2, 0);
        let size: usize = if recent {
            192
        } else {
            188
        };
        if byte_stream.remaining_length() < size {
            return Err(ConversionError::Incomplete);
        }
        let mut cursor = byte_stream.fork();
        let name = cursor.read_string(80)?;
        let sound_file = cursor.read_string(80)?;
        let position = read_vector3_flipped(&mut cursor)?;
        let volume = read_float(&mut cursor)?;
        let width = read_cast(&mut cursor)?;
        let height = read_cast(&mut cursor)?;
        let range = read_float(&mut cursor)?;
        let cycle = if recent {
            read_float(&mut cursor)?
        } else {
            FloatBits(FOUR)
        };
        byte_stream.follow(&cursor);
        Ok(SoundSource::new(name, sound_file, position, volume, width, height, range, cycle))
    }
}

/// An effect of the map.
#[derive(Clone, Debug)]
pub struct EffectSource {
    pub name: String,
    pub position: Vector3Bits,
    pub effect_type: usize,
    pub emit_speed: FloatBits,
}

/// What an [`EffectSource`] stands for.
pub struct EffectSourceModel {
    pub name: Seq<char>,
    pub position: Vector3Bits,
    pub effect_type: usize,
    pub emit_speed: FloatBits,
}

impl EffectSource {
    pub fn new(
        name: String,
        position: Vector3Bits,
        effect_type: usize,
        emit_speed: FloatBits,
    ) -> (effect:
        Self)
        ensures
            effect.name == name,
            effect.position == position,
            effect.effect_type == effect_type,
            effect.emit_speed == emit_speed,
    {
        EffectSource { name, position, effect_type, emit_speed }
    }

    pub open spec fn model(&self) -> EffectSourceModel {
        EffectSourceModel {
            name: self.name@,
            position: self.position,
            effect_type: self.effect_type,
            emit_speed: self.emit_speed,
        }
    }

    /// The effect source that stands at `at`. Four parameters follow it, which
    /// are not decoded.
    pub open spec fn at(data: Seq<u8>, at: int) -> EffectSourceModel {
        EffectSourceModel {
            name: text_at(data, at, 80),
            position: Vector3Bits::flipped_at(data, at + 80),
            effect_type: cast_of(u32_at(data, at + 92)),
            emit_speed: FloatBits::at(data, at + 96),
        }
    }

    /// Decodes the effect source at the cursor, which takes 116 bytes.
    pub fn from_bytes(byte_stream: &mut ByteStream) -> (result: Result<Self, ConversionError>)
        ensures
            final(byte_stream).data() == old(byte_stream).data(),
            final(byte_stream).version() == old(byte_stream).version(),
            match result {
                Ok(effect) => {
                    &&& old(byte_stream).offset() + 116 <= old(byte_stream).data().len()
                    &&& effect.model() == EffectSource::at(
                        old(byte_stream).data(),
                        old(byte_stream).offset() as int,
                    )
                    &&& final(byte_stream).offset() == old(byte_stream).offset() + 116
                },
                Err(error) => {
                    &&& old(byte_stream).offset() + 116 > old(byte_stream).data().len()
                    &&& error == ConversionError::Incomplete
                    &&& final(byte_stream).offset() == old(byte_stream).offset()
                },
            },
    {
        if byte_stream.remaining_length() < 116 {
            return Err(ConversionError::Incomplete);
        }
        let mut cursor = byte_stream.fork();
        let name = cursor.read_string(80)?;
        let position = read_vector3_flipped(&mut cursor)?;
        let effect_type = read_cast(&mut cursor)?;
        let emit_speed = read_float(&mut cursor)?;
        cursor.skip(16)?;
        byte_stream.follow(&cursor);
        Ok(EffectSource::new(name, position, effect_type, emit_speed))
    }
}

/// What a resource stands for.
pub enum ResourceModel {
    Object(ObjectDataModel),
    LightSource(LightSourceModel),
    SoundSource(SoundSourceModel),
    EffectSource(EffectSourceModel),
}

/// The resource that stands at `at` in a file of the given version, as the
/// resource of the given place: its kind, an integer of four bytes, and the
/// record of that kind. With it comes the number of bytes of both.
pub open spec fn resource_at(data: Seq<u8>, at: int, version: Version, index: usize) -> Result<
    (ResourceModel, nat),
    ConversionError,
> {
    if at + 4 > data.len() {
        Err(ConversionError::Incomplete)
    } else {
        match ResourceType::of_index(i32_of(u32_at(data, at))) {
            None => Err(ConversionError::Invalid),
            Some(ResourceType::Object) => {
                if at + 4 + ObjectData::size(version) > data.len() {
                    Err(ConversionError::Incomplete)
                } else {
                    Ok(
                        (
                            ResourceModel::Object(ObjectData::at(data, at + 4, version, index)),
                            4 + ObjectData::size(version),
                        ),
                    )
                }
            },
            Some(ResourceType::LightSource) => {
                if at + 112 > data.len() {
                    Err(ConversionError::Incomplete)
                } else {
                    Ok((ResourceModel::LightSource(LightSource::at(data, at + 4)), 112))
                }
            },
            Some(ResourceType::SoundSource) => {
                if at + 4 + SoundSource::size(version) > data.len() {
                    Err(ConversionError::Incomplete)
                } else {
                    Ok(
                        (
                            ResourceModel::SoundSource(SoundSource::at(data, at + 4, version)),
                            4 + SoundSource::size(version),
                        ),
                    )
                }
            },
            Some(ResourceType::EffectSource) => {
                if at + 120 > data.len() {
                    Err(ConversionError::Incomplete)
                } else {
                    Ok((ResourceModel::EffectSource(EffectSource::at(data, at + 4)), 120))
                }
            },
        }
    }
}

/// The first `count` resources from position `at` on, and the number of bytes
/// of all of them, or the error of the first that does not decode.
pub open spec fn resources_at(data: Seq<u8>, at: int, version: Version, count: nat) -> Result<
    (Seq<ResourceModel>, nat),
    ConversionError,
>
    decreases count,
{
    if count == 0 {
        Ok((Seq::empty(), 0))
    } else {
        match resources_at(data, at, version, (count - 1) as nat) {
            Err(error) => Err(error),
            Ok((resources, length)) => match resource_at(
                data,
                at + length,
                version,
                (count - 1) as usize,
            ) {
                Err(error) => Err(error),
                Ok((resource, more)) => Ok((resources.push(resource), length + more)),
            },
        }
    }
}

/// A resource that does not decode stops every longer run at the same error.
pub proof fn lemma_resources_error(
    data: Seq<u8>,
    at: int,
    version: Version,
    shorter: nat,
    longer: nat,
)
    requires
        shorter <= longer,
        resources_at(data, at, version, shorter) is Err,
    ensures
        resources_at(data, at, version, longer) == resources_at(data, at, version, shorter),
    decreases longer,
{
    if shorter < longer {
        lemma_resources_error(data, at, version, shorter, (longer - 1) as nat);
    }
}

/// The objects among the resources, in their order.
pub open spec fn objects_of(resources: Seq<ResourceModel>) -> Seq<ObjectDataModel>
    decreases resources.len(),
{
    if resources.len() == 0 {
        Seq::empty()
    } else {
        match resources.last() {
            ResourceModel::Object(object) => objects_of(resources.drop_last()).push(object),
            _ => objects_of(resources.drop_last()),
        }
    }
}

/// The light sources among the resources, in their order.
pub open spec fn light_sources_of(resources: Seq<ResourceModel>) -> Seq<LightSourceModel>
    decreases resources.len(),
{
    if resources.len() == 0 {
        Seq::empty()
    } else {
        match resources.last() {
            ResourceModel::LightSource(light) => light_sources_of(resources.drop_last()).push(
                light,
            ),
            _ => light_sources_of(resources.drop_last()),
        }
    }
}

/// The sound sources among the resources, in their order.
pub open spec fn sound_sources_of(resources: Seq<ResourceModel>) -> Seq<SoundSourceModel>
    decreases resources.len(),
{
    if resources.len() == 0 {
        Seq::empty()
    } else {
        match resources.last() {
            ResourceModel::SoundSource(sound) => sound_sources_of(resources.drop_last()).push(
                sound,
            ),
            _ => sound_sources_of(resources.drop_last()),
        }
    }
}

/// The effect sources among the resources, in their order.
pub open spec fn effect_sources_of(resources: Seq<ResourceModel>) -> Seq<EffectSourceModel>
    decreases resources.len(),
{
    if resources.len() == 0 {
        Seq::empty()
    } else {
        match resources.last() {
            ResourceModel::EffectSource(effect) => effect_sources_of(resources.drop_last()).push(
                effect,
            ),
            _ => effect_sources_of(resources.drop_last()),
        }
    }
}

/// The resources of a map, sorted by their kind.
pub struct MapResources {
    /// The number of resources that the file announces.
    pub resources_amount: usize,
    pub objects: Vec<ObjectData>,
    pub light_sources: Vec<LightSource>,
    pub sound_sources: Vec<SoundSource>,
    pub effect_sources: Vec<EffectSource>,
}

/// What the [`MapResources`] stand for.
pub struct MapResourcesModel {
    pub resources_amount: usize,
    pub objects: Seq<ObjectDataModel>,
    pub light_sources: Seq<LightSourceModel>,
    pub sound_sources: Seq<SoundSourceModel>,
    pub effect_sources: Seq<EffectSourceModel>,
}

impl MapResources {
    pub open spec fn model(&self) -> MapResourcesModel {
        MapResourcesModel {
            resources_amount: self.resources_amount,
            objects: Seq::new(self.objects@.len(), |i: int| self.objects@[i].model()),
            light_sources: Seq::new(
                self.light_sources@.len(),
                |i: int| self.light_sources@[i].model(),
            ),
            sound_sources: Seq::new(
                self.sound_sources@.len(),
                |i: int| self.sound_sources@[i].model(),
            ),
            effect_sources: Seq::new(
                self.effect_sources@.len(),
                |i: int| self.effect_sources@[i].model(),
            ),
        }
    }

    /// What the resource section that begins at `at` decodes to: the number of
    /// resources, a signed integer of four bytes that is not negative, and as
    /// many resources.
    pub open spec fn decoding(data: Seq<u8>, at: int, version: Version) -> Result<
        (MapResourcesModel, nat),
        ConversionError,
    > {
        if at + 4 > data.len() {
            Err(ConversionError::Incomplete)
        } else if u32_at(data, at) >= 0x8000_0000 {
            Err(ConversionError::Invalid)
        } else {
            match resources_at(data, at + 4, version, u32_at(data, at) as nat) {
                Ok((resources, length)) => Ok(
                    (
                        MapResourcesModel {
                            resources_amount: u32_at(data, at) as usize,
                            objects: objects_of(resources),
                            light_sources: light_sources_of(resources),
                            sound_sources: sound_sources_of(resources),
                            effect_sources: effect_sources_of(resources),
                        },
                        4 + length,
                    ),
                ),
                Err(error) => Err(error),
            }
        }
    }

    /// Decodes the resource section at the cursor and moves the cursor behind
    /// it. Where it does not decode the cursor stays. The hint is not used.
    pub fn from_bytes(byte_stream: &mut ByteStream, length_hint: Option<usize>) -> (result: Result<
        Self,
        ConversionError,
    >)
        ensures
            final(byte_stream).data() == old(byte_stream).data(),
            final(byte_stream).version() == old(byte_stream).version(),
            match MapResources::decoding(
                old(byte_stream).data(),
                old(byte_stream).offset() as int,
                old(byte_stream).version(),
            ) {
                Ok((value, length)) => {
                    &&& result is Ok
                    &&& result->Ok_0.model() == value
                    &&& final(byte_stream).offset() == old(byte_stream).offset() + length
                },
                Err(error) => {
                    &&& result is Err
                    &&& result->Err_0 == error
                    &&& final(byte_stream).offset() == old(byte_stream).offset()
                },
            },
    {
        if byte_stream.remaining_length() < 4 {
            return Err(ConversionError::Incomplete);
        }
        let mut cursor = byte_stream.fork();
        let resources_amount = read_count(&mut cursor)?;
        let ghost data = byte_stream.data();
        let ghost version = byte_stream.version();
        let ghost start = cursor.offset() as int;
        let ghost mut resources: Seq<ResourceModel> = Seq::empty();

        let mut objects: Vec<ObjectData> = Vec::new();
        let mut light_sources: Vec<LightSource> = Vec::new();
        let mut sound_sources: Vec<SoundSource> = Vec::new();
        let mut effect_sources: Vec<EffectSource> = Vec::new();

        let mut index: usize = 0;
        while index < resources_amount
            invariant
                *byte_stream == *old(byte_stream),
                data == byte_stream.data(),
                version == byte_stream.version(),
                start == byte_stream.offset() + 4,
                start <= data.len(),
                u32_at(data, start - 4) < 0x8000_0000,
                resources_amount == u32_at(data, start - 4),
                cursor.data() == data,
                cursor.version() == version,
                cursor.offset() >= start,
                index <= resources_amount,
                resources.len() == index,
                resources_at(data, start, version, index as nat) == Ok::<
                    (Seq<ResourceModel>, nat),
                    ConversionError,
                >((resources, (cursor.offset() - start) as nat)),
                Seq::new(objects@.len(), |i: int| objects@[i].model()) == objects_of(resources),
                Seq::new(light_sources@.len(), |i: int| light_sources@[i].model())
                    == light_sources_of(resources),
                Seq::new(sound_sources@.len(), |i: int| sound_sources@[i].model())
                    == sound_sources_of(resources),
                Seq::new(effect_sources@.len(), |i: int| effect_sources@[i].model())
                    == effect_sources_of(resources),
            decreases resources_amount - index,
        {
            let ghost before = resources;
            let ghost at = cursor.offset() as int;
            proof {
                assert(((index + 1) as nat - 1) as nat == index as nat);
            }
            let type_index = match cursor.read_i32() {
                Ok(type_index) => type_index,
                Err(error) => {
                    proof {
                        lemma_resources_error(
                            data,
                            start,
                            version,
                            (index + 1) as nat,
                            resources_amount as nat,
                        );
                    }
                    return Err(error);
                },
            };
            let resource_type = match ResourceType::try_from_index(type_index) {
                Some(resource_type) => resource_type,
                None => {
                    proof {
                        lemma_resources_error(
                            data,
                            start,
                            version,
                            (index + 1) as nat,
                            resources_amount as nat,
                        );
                    }
                    return Err(ConversionError::Invalid);
                },
            };
            match resource_type {
                ResourceType::Object => {
                    match ObjectData::from_bytes(&mut cursor, index) {
                        Ok(object) => {
                            proof {
                                resources = before.push(ResourceModel::Object(object.model()));
                                assert(resources.drop_last() =~= before);
                            }
                            objects.push(object);
                            assert(Seq::new(objects@.len(), |i: int| objects@[i].model())
                                =~= objects_of(resources));
                        },
                        Err(error) => {
                            proof {
                                lemma_resources_error(
                                    data,
                                    start,
                                    version,
                                    (index + 1) as nat,
                                    resources_amount as nat,
                                );
                            }
                            return Err(error);
                        },
                    }
                },
                ResourceType::LightSource => {
                    match LightSource::from_bytes(&mut cursor) {
                        Ok(light) => {
                            proof {
                                resources = before.push(ResourceModel::LightSource(light.model()));
                                assert(resources.drop_last() =~= before);
                            }
                            light_sources.push(light);
                            assert(Seq::new(
                                light_sources@.len(),
                                |i: int| light_sources@[i].model(),
                            ) =~= light_sources_of(resources));
                        },
                        Err(error) => {
                            proof {
                                lemma_resources_error(
                                    data,
                                    start,
                                    version,
                                    (index + 1) as nat,
                                    resources_amount as nat,
                                );
                            }
                            return Err(error);
                        },
                    }
                },
                ResourceType::SoundSource => {
                    match SoundSource::from_bytes(&mut cursor) {
                        Ok(sound) => {
                            proof {
                                resources = before.push(ResourceModel::SoundSource(sound.model()));
                                assert(resources.drop_last() =~= before);
                            }
                            sound_sources.push(sound);
                            assert(Seq::new(
                                sound_sources@.len(),
                                |i: int| sound_sources@[i].model(),
                            ) =~= sound_sources_of(resources));
                        },
                        Err(error) => {
                            proof {
                                lemma_resources_error(
                                    data,
                                    start,
                                    version,
                                    (index + 1) as nat,
                                    resources_amount as nat,
                                );
                            }
                            return Err(error);
                        },
                    }
                },
                ResourceType::EffectSource => {
                    match EffectSource::from_bytes(&mut cursor) {
                        Ok(effect) => {
                            proof {
                                resources = before.push(
                                    ResourceModel::EffectSource(effect.model()),
                                );
                                assert(resources.drop_last() =~= before);
                            }
                            effect_sources.push(effect);
                            assert(Seq::new(
                                effect_sources@.len(),
                                |i: int| effect_sources@[i].model(),
                            ) =~= effect_sources_of(resources));
                        },
                        Err(error) => {
                            proof {
                                lemma_resources_error(
                                    data,
                                    start,
                                    version,
                                    (index + 1) as nat,
                                    resources_amount as nat,
                                );
                            }
                            return Err(error);
                        },
                    }
                },
            }
            index = index + 1;
        }
        byte_stream.follow(&cursor);
        Ok(MapResources { resources_amount, objects, light_sources, sound_sources, effect_sources })
    }
}

/// The bits of the number one.
pub const ONE: u32 = 0x3f80_0000;

/// The water of a map.
#[derive(Clone, Copy, Debug, PartialEq, Eq, Structural)]
pub struct WaterSettings {
    pub water_level: FloatBits,
    pub water_type: usize,
    pub wave_height: FloatBits,
    pub wave_speed: FloatBits,
    pub wave_pitch: FloatBits,
    pub water_animation_speed: usize,
}

impl WaterSettings {
    /// The settings of a map without water settings: all of them zero.
    pub fn new() -> (settings: Self)
        ensures
            settings == WaterSettings::unset(),
    {
        WaterSettings {
            water_level: FloatBits(0),
            water_type: 0,
            wave_height: FloatBits(0),
            wave_speed: FloatBits(0),
            wave_pitch: FloatBits(0),
            water_animation_speed: 0,
        }
    }

    /// The settings of a map without water settings.
    pub open spec fn unset() -> WaterSettings {
        WaterSettings {
            water_level: FloatBits(0),
            water_type: 0,
            wave_height: FloatBits(0),
            wave_speed: FloatBits(0),
            wave_pitch: FloatBits(0),
            water_animation_speed: 0,
        }
    }

    /// The number of bytes of the water settings in a file of the given
    /// version.
    pub open spec fn size(version: Version) -> nat {
        if version.at_least(1, 9) {
            24
        } else if version.at_least(1, 8) {
            20
        } else if version.at_least(1, 3) {
            4
        } else {
            0
        }
    }

    /// The water settings that stand at `at` in a file of the given version.
    /// The file holds the level of the water with the opposite sign.
    pub open spec fn at(data: Seq<u8>, at: int, version: Version) -> WaterSettings {
        WaterSettings {
            water_level: if version.at_least(1, 3) {
                FloatBits::at(data, at).opposite()
            } else {
                FloatBits(0)
            },
            water_type: if version.at_least(1, 8) {
                cast_of(u32_at(data, at + 4))
            } else {
                0
            },
            wave_height: if version.at_least(1, 8) {
                FloatBits::at(data, at + 8)
            } else {
                FloatBits(0)
            },
            wave_speed: if version.at_least(1, 8) {
                FloatBits::at(data, at + 12)
            } else {
                FloatBits(0)
            },
            wave_pitch: if version.at_least(1, 8) {
                FloatBits::at(data, at + 16)
            } else {
                FloatBits(0)
            },
            water_animation_speed: if version.at_least(1, 9) {
                cast_of(u32_at(data, at + 20))
            } else {
                0
            },
        }
    }

    /// Decodes the water settings at the cursor and moves the cursor behind
    /// them. Where the bytes are not all there the cursor stays. The hint is
    /// not used.
    pub fn from_bytes(byte_stream: &mut ByteStream, length_hint: Option<usize>) -> (result: Result<
        Self,
        ConversionError,
    >)
        ensures
            final(byte_stream).data() == old(byte_stream).data(),
            final(byte_stream).version() == old(byte_stream).version(),
            match result {
                Ok(settings) => {
                    &&& old(byte_stream).offset() + WaterSettings::size(old(byte_stream).version())
                        <= old(byte_stream).data().len()
                    &&& settings == WaterSettings::at(
                        old(byte_stream).data(),
                        old(byte_stream).offset() as int,
                        old(byte_stream).version(),
                    )
                    &&& final(byte_stream).offset() == old(byte_stream).offset()
                        + WaterSettings::size(old(byte_stream).version())
                },
                Err(error) => {
                    &&& old(byte_stream).offset() + WaterSettings::size(old(byte_stream).version())
                        > old(byte_stream).data().len()
                    &&& error == ConversionError::Incomplete
                    &&& final(byte_stream).offset() == old(byte_stream).offset()
                },
            },
    {
        let version = byte_stream.get_version();
        let size: usize = if version.equals_or_above(1, 9) {
            24
        } else if version.equals_or_above(1, 8) {
            20
        } else if version.equals_or_above(1, 3) {
            4
        } else {
            0
        };
        if byte_stream.remaining_length() < size {
            return Err(ConversionError::Incomplete);
        }
        let mut cursor = byte_stream.fork();
        let mut water_settings = WaterSettings::new();

        if version.equals_or_above(1, 3) {
            let water_level = read_float(&mut cursor)?;
            water_settings.water_level = water_level.negated();
        }
        if version.equals_or_above(1, 8) {
            let water_type = read_cast(&mut cursor)?;
            let wave_height = read_float(&mut cursor)?;
            let wave_speed = read_float(&mut cursor)?;
            let wave_pitch = read_float(&mut cursor)?;

            water_settings.water_type = water_type;
            water_settings.wave_height = wave_height;
            water_settings.wave_speed = wave_speed;
            water_settings.wave_pitch = wave_pitch;
        }
        if version.equals_or_above(1, 9) {
            let water_animation_speed = read_cast(&mut cursor)?;
            water_settings.water_animation_speed = water_animation_speed;
        }
        byte_stream.follow(&cursor);
        Ok(water_settings)
    }
}

/// The light of a map.
#[derive(Clone, Copy, Debug, PartialEq, Eq, Structural)]
pub struct LightSettings {
    pub light_longitude: i32,
    pub light_latitude: i32,
    /// The red, green and blue part of the diffuse color.
    pub diffuse_color: Vector3Bits,
    /// The red, green and blue part of the ambient color.
    pub ambient_color: Vector3Bits,
    pub light_intensity: FloatBits,
}

impl LightSettings {
    /// The settings of a map without light settings: white light of full
    /// intensity from above.
    pub fn new() -> (settings: Self)
        ensures
            settings == LightSettings::unset(),
    {
        let white = Vector3Bits { x: FloatBits(ONE), y: FloatBits(ONE), z: FloatBits(ONE) };
        LightSettings {
            light_longitude: 0,
            light_latitude: 0,
            diffuse_color: white,
            ambient_color: white,
            light_intensity: FloatBits(ONE),
        }
    }

    /// The settings of a map without light settings.
    pub open spec fn unset() -> LightSettings {
        LightSettings {
            light_longitude: 0,
            light_latitude: 0,
            diffuse_color: Vector3Bits { x: FloatBits(ONE), y: FloatBits(ONE), z: FloatBits(ONE) },
            ambient_color: Vector3Bits { x: FloatBits(ONE), y: FloatBits(ONE), z: FloatBits(ONE) },
            light_intensity: FloatBits(ONE),
        }
    }

    /// The number of bytes of the light settings in a file of the given
    /// version.
    pub open spec fn size(version: Version) -> nat {
        if version.at_least(1, 7) {
            36
        } else if version.at_least(1, 5) {
            32
        } else {
            0
        }
    }

    /// The light settings that stand at `at` in a file of the given version.
    pub open spec fn at(data: Seq<u8>, at: int, version: Version) -> LightSettings {
        if version.at_least(1, 5) {
            LightSettings {
                light_longitude: i32_of(u32_at(data, at)),
                light_latitude: i32_of(u32_at(data, at + 4)),
                diffuse_color: Vector3Bits::at(data, at + 8),
                ambient_color: Vector3Bits::at(data, at + 20),
                light_intensity: if version.at_least(1, 7) {
                    FloatBits::at(data, at + 32)
                } else {
                    FloatBits(ONE)
                },
            }
        } else {
            LightSettings::unset()
        }
    }

    /// Decodes the light settings at the cursor and moves the cursor behind
    /// them. Where too few bytes remain the cursor stays. The hint is not used.
    pub fn from_bytes(byte_stream: &mut ByteStream, length_hint: Option<usize>) -> (result: Result<
        Self,
        ConversionError,
    >)
        ensures
            final(byte_stream).data() == old(byte_stream).data(),
            final(byte_stream).version() == old(byte_stream).version(),
            match result {
                Ok(settings) => {
                    &&& old(byte_stream).offset() + LightSettings::size(old(byte_stream).version())
                        <= old(byte_stream).data().len()
                    &&& settings == LightSettings::at(
                        old(byte_stream).data(),
                        old(byte_stream).offset() as int,
                        old(byte_stream).version(),
                    )
                    &&& final(byte_stream).offset() == old(byte_stream).offset()
                        + LightSettings::size(old(byte_stream).version())
                },
                Err(error) => {
                    &&& old(byte_stream).offset() + LightSettings::size(old(byte_stream).version())
                        > old(byte_stream).data().len()
                    &&& error == ConversionError::Incomplete
                    &&& final(byte_stream).offset() == old(byte_stream).offset()
                },
            },
    {
        let version = byte_stream.get_version();
        let size: usize = if version.equals_or_above(1, 7) {
            36
        } else if version.equals_or_above(1, 5) {
            32
        } else {
            0
        };
        if byte_stream.remaining_length() < size {
            return Err(ConversionError::Incomplete);
        }
        let mut light_settings = LightSettings::new();

        if version.equals_or_above(1, 5) {
            let light_longitude = byte_stream.read_i32()?;
            let light_latitude = byte_stream.read_i32()?;
            let diffuse_color = read_vector3(byte_stream)?;
            let ambient_color = read_vector3(byte_stream)?;

            light_settings.light_longitude = light_longitude;
            light_settings.light_latitude = light_latitude;
            light_settings.diffuse_color = diffuse_color;
            light_settings.ambient_color = ambient_color;

            if version.equals_or_above(1, 7) {
                light_settings.light_intensity = read_float(byte_stream)?;
            }
        }
        Ok(light_settings)
    }
}

} // verus!
