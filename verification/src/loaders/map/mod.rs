//! The resources of a map file.

pub mod resource;

pub use crate::loaders::map::resource::{
    EffectSource, LightSettings, LightSource, MapResources, ObjectData, ResourceType, SoundSource,
    WaterSettings,
};
