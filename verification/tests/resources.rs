use korangar::loaders::map::resource::{FloatBits, Vector3Bits};
use korangar::loaders::map::{
    EffectSource, LightSettings, LightSource, MapResources, ObjectData, ResourceType, SoundSource,
    WaterSettings,
};
use korangar::loaders::{ByteStream, ConversionError, Version};

fn text(value: &str, width: usize) -> Vec<u8> {
    let mut bytes = value.as_bytes().to_vec();
    bytes.resize(width, 0);
    bytes
}

fn float(value: f32) -> Vec<u8> {
    value.to_le_bytes().to_vec()
}

fn vector(x: f32, y: f32, z: f32) -> Vec<u8> {
    let mut bytes = float(x);
    bytes.extend(float(y));
    bytes.extend(float(z));
    bytes
}

fn bits(value: f32) -> FloatBits {
    FloatBits(value.to_bits())
}

fn object(named: bool) -> Vec<u8> {
    let mut bytes = Vec::new();
    if named {
        bytes.extend(text("tree", 40));
        bytes.extend(1i32.to_le_bytes());
        bytes.extend(float(1.0));
        bytes.extend(0i32.to_le_bytes());
    }
    bytes.extend(text("tree.rsm", 80));
    bytes.extend(text("node", 80));
    bytes.extend(vector(1.0, 2.0, 3.0));
    bytes.extend(vector(0.0, 90.0, 0.0));
    bytes.extend(vector(1.0, 1.0, 1.0));
    bytes
}

fn light() -> Vec<u8> {
    let mut bytes = text("lamp", 80);
    bytes.extend(vector(4.0, -5.0, 6.0));
    bytes.extend(vector(1.0, 0.5, 0.25));
    bytes.extend(float(30.0));
    bytes
}

fn sound(recent: bool) -> Vec<u8> {
    let mut bytes = text("wind", 80);
    bytes.extend(text("wind.wav", 80));
    bytes.extend(vector(7.0, 8.0, 9.0));
    bytes.extend(float(0.5));
    bytes.extend(10i32.to_le_bytes());
    bytes.extend(20i32.to_le_bytes());
    bytes.extend(float(100.0));
    if recent {
        bytes.extend(float(2.5));
    }
    bytes
}

fn effect() -> Vec<u8> {
    let mut bytes = text("smoke", 80);
    bytes.extend(vector(1.0, 0.0, -1.0));
    bytes.extend(47i32.to_le_bytes());
    bytes.extend(float(1.5));
    bytes.extend([0u8; 16]);
    bytes
}

#[test]
fn resource_types_have_indices() {
    assert_eq!(ResourceType::from(1), ResourceType::Object);
    assert_eq!(ResourceType::from(2), ResourceType::LightSource);
    assert_eq!(ResourceType::from(3), ResourceType::SoundSource);
    assert_eq!(ResourceType::from(4), ResourceType::EffectSource);
    assert_eq!(ResourceType::try_from_index(0), None);
    assert_eq!(ResourceType::try_from_index(5), None);
    assert_eq!(ResourceType::try_from_index(-1), None);
    assert_eq!(ResourceType::try_from_index(3), Some(ResourceType::SoundSource));
}

#[test]
fn the_sign_of_a_number_is_its_highest_bit() {
    assert_eq!(bits(2.0).negated(), bits(-2.0));
    assert_eq!(bits(-0.5).negated(), bits(0.5));
    assert_eq!(bits(0.0).negated(), bits(-0.0));
    assert_eq!(FloatBits(0x7fc0_0000).negated(), FloatBits(0xffc0_0000));
}

#[test]
fn resources_of_a_recent_file() {
    let mut data = 5i32.to_le_bytes().to_vec();
    data.extend(2i32.to_le_bytes());
    data.extend(light());
    data.extend(1i32.to_le_bytes());
    data.extend(object(true));
    data.extend(3i32.to_le_bytes());
    data.extend(sound(true));
    data.extend(4i32.to_le_bytes());
    data.extend(effect());
    data.extend(1i32.to_le_bytes());
    data.extend(object(true));
    data.extend([0xaa, 0xbb]);

    let mut stream = ByteStream::with_version(&data, Version::new(2, 1));
    let resources = MapResources::from_bytes(&mut stream, None).unwrap();
    assert_eq!(stream.get_offset(), data.len() - 2);
    assert_eq!(resources.resources_amount, 5);
    assert_eq!(resources.objects.len(), 2);
    assert_eq!(resources.light_sources.len(), 1);
    assert_eq!(resources.sound_sources.len(), 1);
    assert_eq!(resources.effect_sources.len(), 1);

    let object = &resources.objects[0];
    assert_eq!(object.name.as_deref(), Some("tree"));
    assert_eq!(object.model_name, "tree.rsm");
    assert_eq!(object.transform.position, Vector3Bits { x: bits(1.0), y: bits(-2.0), z: bits(3.0) });
    assert_eq!(object.transform.rotation, Vector3Bits { x: bits(0.0), y: bits(90.0), z: bits(0.0) });
    assert_eq!(object.transform.scale, Vector3Bits { x: bits(1.0), y: bits(1.0), z: bits(1.0) });
    assert_eq!(object.lift, 1);
    assert_eq!(resources.objects[1].lift, 4);

    let light = &resources.light_sources[0];
    assert_eq!(light.name, "lamp");
    assert_eq!(light.position, Vector3Bits { x: bits(4.0), y: bits(5.0), z: bits(6.0) });
    assert_eq!(light.color, Vector3Bits { x: bits(1.0), y: bits(0.5), z: bits(0.25) });
    assert_eq!(light.range, bits(30.0));

    let sound = &resources.sound_sources[0];
    assert_eq!(sound.name, "wind");
    assert_eq!(sound.sound_file, "wind.wav");
    assert_eq!(sound.position, Vector3Bits { x: bits(7.0), y: bits(-8.0), z: bits(9.0) });
    assert_eq!(sound.volume, bits(0.5));
    assert_eq!((sound.width, sound.height), (10, 20));
    assert_eq!(sound.range, bits(100.0));
    assert_eq!(sound.cycle, bits(2.5));

    let effect = &resources.effect_sources[0];
    assert_eq!(effect.name, "smoke");
    assert_eq!(effect.position, Vector3Bits { x: bits(1.0), y: bits(-0.0), z: bits(-1.0) });
    assert_eq!(effect.effect_type, 47);
    assert_eq!(effect.emit_speed, bits(1.5));
}

#[test]
fn resources_of_an_old_file() {
    let mut data = 2i32.to_le_bytes().to_vec();
    data.extend(1i32.to_le_bytes());
    data.extend(object(false));
    data.extend(3i32.to_le_bytes());
    data.extend(sound(false));
    let mut stream = ByteStream::with_version(&data, Version::new(1, 5));
    let resources = MapResources::from_bytes(&mut stream, None).unwrap();
    assert!(stream.is_empty());
    assert_eq!(resources.objects.len(), 1);
    assert_eq!(resources.objects[0].name, None);
    assert_eq!(resources.objects[0].model_name, "tree.rsm");
    assert_eq!(resources.objects[0].lift, 0);
    assert_eq!(resources.objects[0].transform.position, Vector3Bits { x: bits(1.0), y: bits(-2.0), z: bits(3.0) });
    assert_eq!(resources.sound_sources[0].cycle, bits(4.0));
    assert_eq!(resources.sound_sources[0].range, bits(100.0));

    // the same bytes in a file of version 1.6 hold too little for a named object
    let mut stream = ByteStream::with_version(&data, Version::new(1, 6));
    assert_eq!(MapResources::from_bytes(&mut stream, None).err(), Some(ConversionError::Invalid));
    assert_eq!(stream.get_offset(), 0);
}

#[test]
fn resources_that_do_not_decode() {
    let mut data = 1i32.to_le_bytes().to_vec();
    data.extend(9i32.to_le_bytes());
    data.extend(light());
    let mut stream = ByteStream::with_version(&data, Version::new(2, 1));
    assert_eq!(MapResources::from_bytes(&mut stream, None).err(), Some(ConversionError::Invalid));
    assert_eq!(stream.get_offset(), 0);

    let mut data = 2i32.to_le_bytes().to_vec();
    data.extend(2i32.to_le_bytes());
    data.extend(light());
    let mut stream = ByteStream::with_version(&data, Version::new(2, 1));
    assert_eq!(MapResources::from_bytes(&mut stream, None).err(), Some(ConversionError::Incomplete));

    let data = (-1i32).to_le_bytes();
    let mut stream = ByteStream::with_version(&data, Version::new(2, 1));
    assert_eq!(MapResources::from_bytes(&mut stream, None).err(), Some(ConversionError::Invalid));
    let mut stream = ByteStream::with_version(&data[..3], Version::new(2, 1));
    assert_eq!(MapResources::from_bytes(&mut stream, None).err(), Some(ConversionError::Incomplete));

    let data = 0i32.to_le_bytes();
    let mut stream = ByteStream::with_version(&data, Version::new(2, 1));
    let resources = MapResources::from_bytes(&mut stream, None).unwrap();
    assert!(resources.objects.is_empty() && resources.light_sources.is_empty());
}

#[test]
fn single_records() {
    let data = light();
    let mut stream = ByteStream::new(&data);
    let light = LightSource::from_bytes(&mut stream).unwrap();
    assert_eq!(light.name, "lamp");
    assert_eq!(stream.get_offset(), 108);
    let data = effect();
    let mut stream = ByteStream::new(&data);
    assert_eq!(EffectSource::from_bytes(&mut stream).unwrap().effect_type, 47);
    assert_eq!(stream.get_offset(), 116);
    let data = sound(false);
    let mut stream = ByteStream::new(&data);
    assert_eq!(SoundSource::from_bytes(&mut stream).unwrap().height, 20);
    assert_eq!(stream.get_offset(), 188);
    let data = object(true);
    let mut stream = ByteStream::with_version(&data, Version::new(1, 6));
    assert_eq!(ObjectData::from_bytes(&mut stream, 3).unwrap().lift, 3);
    assert_eq!(stream.get_offset(), 248);
}

#[test]
fn negative_numbers_are_kept_as_they_are_cast() {
    let mut data = sound(false);
    data[176..180].copy_from_slice(&(-1i32).to_le_bytes());
    data[180..184].copy_from_slice(&i32::MIN.to_le_bytes());
    let mut stream = ByteStream::new(&data);
    let source = SoundSource::from_bytes(&mut stream).unwrap();
    assert_eq!(source.width, usize::MAX);
    assert_eq!(source.width, -1i32 as usize);
    assert_eq!(source.height, usize::MAX - 0x7fff_ffff);
    assert_eq!(source.height, i32::MIN as usize);
    assert_eq!(stream.get_offset(), 188);

    let mut data = effect();
    data[92..96].copy_from_slice(&(-2i32).to_le_bytes());
    let mut stream = ByteStream::new(&data);
    let source = EffectSource::from_bytes(&mut stream).unwrap();
    assert_eq!(source.effect_type, usize::MAX - 1);
    assert_eq!(stream.get_offset(), 116);

    let mut data = float(5.0);
    data.extend((-3i32).to_le_bytes());
    data.extend(float(1.0));
    data.extend(float(2.0));
    data.extend(float(50.0));
    data.extend((-4i32).to_le_bytes());
    let mut stream = ByteStream::with_version(&data, Version::new(1, 9));
    let settings = WaterSettings::from_bytes(&mut stream, None).unwrap();
    assert_eq!(settings.water_level, bits(-5.0));
    assert_eq!(settings.water_type, -3i32 as usize);
    assert_eq!(settings.water_type, usize::MAX - 2);
    assert_eq!(settings.wave_pitch, bits(50.0));
    assert_eq!(settings.water_animation_speed, -4i32 as usize);
    assert_eq!(stream.get_offset(), 24);

    let mut stream = ByteStream::with_version(&data, Version::new(1, 8));
    let settings = WaterSettings::from_bytes(&mut stream, None).unwrap();
    assert_eq!(settings.water_type, usize::MAX - 2);
    assert_eq!(settings.water_animation_speed, 0);
    assert_eq!(stream.get_offset(), 20);

    // a sound source with a negative size does not end the list of resources
    let mut list = 2i32.to_le_bytes().to_vec();
    list.extend(3i32.to_le_bytes());
    let mut record = sound(true);
    record[176..180].copy_from_slice(&(-1i32).to_le_bytes());
    list.extend(record);
    list.extend(2i32.to_le_bytes());
    list.extend(light());
    let mut stream = ByteStream::with_version(&list, Version::new(2, 1));
    let resources = MapResources::from_bytes(&mut stream, None).unwrap();
    assert!(stream.is_empty());
    assert_eq!(resources.sound_sources.len(), 1);
    assert_eq!(resources.sound_sources[0].width, usize::MAX);
    assert_eq!(resources.light_sources.len(), 1);
}

#[test]
fn water_settings_grow_with_the_version() {
    let mut data = float(5.0);
    data.extend(3i32.to_le_bytes());
    data.extend(float(1.0));
    data.extend(float(2.0));
    data.extend(float(50.0));
    data.extend(4i32.to_le_bytes());

    let mut stream = ByteStream::with_version(&data, Version::new(1, 2));
    assert_eq!(WaterSettings::from_bytes(&mut stream, None), Ok(WaterSettings::new()));
    assert_eq!(stream.get_offset(), 0);

    let mut stream = ByteStream::with_version(&data, Version::new(1, 3));
    let settings = WaterSettings::from_bytes(&mut stream, None).unwrap();
    assert_eq!(settings.water_level, bits(-5.0));
    assert_eq!(settings.water_type, 0);
    assert_eq!(stream.get_offset(), 4);

    let mut stream = ByteStream::with_version(&data, Version::new(1, 8));
    let settings = WaterSettings::from_bytes(&mut stream, None).unwrap();
    assert_eq!(settings.water_level, bits(-5.0));
    assert_eq!(settings.water_type, 3);
    assert_eq!(settings.wave_height, bits(1.0));
    assert_eq!(settings.wave_speed, bits(2.0));
    assert_eq!(settings.wave_pitch, bits(50.0));
    assert_eq!(settings.water_animation_speed, 0);
    assert_eq!(stream.get_offset(), 20);

    let mut stream = ByteStream::with_version(&data, Version::new(2, 0));
    let settings = WaterSettings::from_bytes(&mut stream, None).unwrap();
    assert_eq!(settings.water_animation_speed, 4);
    assert_eq!(stream.get_offset(), 24);

    let mut stream = ByteStream::with_version(&data[..23], Version::new(1, 9));
    assert_eq!(WaterSettings::from_bytes(&mut stream, None), Err(ConversionError::Incomplete));
    assert_eq!(stream.get_offset(), 0);
}

#[test]
fn light_settings_grow_with_the_version() {
    let mut data = 45i32.to_le_bytes().to_vec();
    data.extend((-15i32).to_le_bytes());
    data.extend(vector(1.0, 0.9, 0.8));
    data.extend(vector(0.3, 0.2, 0.1));
    data.extend(float(0.5));

    let mut stream = ByteStream::with_version(&data, Version::new(1, 4));
    let settings = LightSettings::from_bytes(&mut stream, None).unwrap();
    assert_eq!(settings, LightSettings::new());
    assert_eq!(settings.light_intensity, bits(1.0));
    assert_eq!(settings.diffuse_color, Vector3Bits { x: bits(1.0), y: bits(1.0), z: bits(1.0) });
    assert_eq!(stream.get_offset(), 0);

    let mut stream = ByteStream::with_version(&data, Version::new(1, 5));
    let settings = LightSettings::from_bytes(&mut stream, None).unwrap();
    assert_eq!((settings.light_longitude, settings.light_latitude), (45, -15));
    assert_eq!(settings.diffuse_color, Vector3Bits { x: bits(1.0), y: bits(0.9), z: bits(0.8) });
    assert_eq!(settings.ambient_color, Vector3Bits { x: bits(0.3), y: bits(0.2), z: bits(0.1) });
    assert_eq!(settings.light_intensity, bits(1.0));
    assert_eq!(stream.get_offset(), 32);

    let mut stream = ByteStream::with_version(&data, Version::new(1, 7));
    let settings = LightSettings::from_bytes(&mut stream, None).unwrap();
    assert_eq!(settings.light_intensity, bits(0.5));
    assert_eq!(stream.get_offset(), 36);

    let mut stream = ByteStream::with_version(&data[..35], Version::new(1, 7));
    assert_eq!(LightSettings::from_bytes(&mut stream, None), Err(ConversionError::Incomplete));
}

#[test]
fn versions_are_ordered() {
    let version = Version::new(1, 6);
    assert!(version.equals_or_above(1, 6));
    assert!(version.equals_or_above(1, 5));
    assert!(version.equals_or_above(0, 9));
    assert!(!version.equals_or_above(1, 7));
    assert!(!version.equals_or_above(2, 0));
    assert!(Version::new(2, 0).equals_or_above(1, 9));
}
