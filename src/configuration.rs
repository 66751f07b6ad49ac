//! Live edits of the terrain and camera parameters.
use vstd::prelude::*;
use crate::color::Rgb;

verus! {

/// One edit of one parameter, as it arrives from the configuration channel.
///
/// Lengths, heights, the noise depth coordinate `TerrainZ`, angles and ratios
/// are fixed-point thousandths; the seed is a plain integer.
#[derive(Clone, Copy, Debug, PartialEq, Eq, Structural)]
pub enum ConfigurationMessage {
    TerrainWidth(i32),
    TerrainDepth(i32),
    TerrainSeed(i64),
    TerrainCubeSize(i32),
    TerrainColor(Rgb),
    TerrainMaxHeight(i32),
    TerrainFailoff(i32),
    TerrainZ(i64),
    TerrainFractalOctaves(i32),
    TerrainFractalAmplitude(i32),
    TerrainFractalFrequency(i32),
    CameraPositionX(i32),
    CameraPositionY(i32),
    CameraPositionZ(i32),
    CameraFieldViewY(i32),
    CameraZFar(i32),
    CameraTargetX(i32),
    CameraTargetY(i32),
    CameraTargetZ(i32),
    CameraUpX(i32),
    CameraUpY(i32),
    CameraUpZ(i32),
}

/// Which parameter a message edits: two messages edit the same parameter
/// exactly when their tags are equal.
pub open spec fn field_of(m: ConfigurationMessage) -> nat {
    match m {
        ConfigurationMessage::TerrainWidth(_) => 0,
        ConfigurationMessage::TerrainDepth(_) => 1,
        ConfigurationMessage::TerrainSeed(_) => 2,
        ConfigurationMessage::TerrainCubeSize(_) => 3,
        ConfigurationMessage::TerrainColor(_) => 4,
        ConfigurationMessage::TerrainMaxHeight(_) => 5,
        ConfigurationMessage::TerrainFailoff(_) => 6,
        ConfigurationMessage::TerrainZ(_) => 7,
        ConfigurationMessage::TerrainFractalOctaves(_) => 8,
        ConfigurationMessage::TerrainFractalAmplitude(_) => 9,
        ConfigurationMessage::TerrainFractalFrequency(_) => 10,
        ConfigurationMessage::CameraPositionX(_) => 11,
        ConfigurationMessage::CameraPositionY(_) => 12,
        ConfigurationMessage::CameraPositionZ(_) => 13,
        ConfigurationMessage::CameraFieldViewY(_) => 14,
        ConfigurationMessage::CameraZFar(_) => 15,
        ConfigurationMessage::CameraTargetX(_) => 16,
        ConfigurationMessage::CameraTargetY(_) => 17,
        ConfigurationMessage::CameraTargetZ(_) => 18,
        ConfigurationMessage::CameraUpX(_) => 19,
        ConfigurationMessage::CameraUpY(_) => 20,
        ConfigurationMessage::CameraUpZ(_) => 21,
    }
}

/// Whether the value a message carries lies in its field's domain: a voxel
/// edge and an octave count of at least one, and no negative maximum height
/// or falloff radius. Every other value is in its domain.
pub open spec fn in_domain(m: ConfigurationMessage) -> bool {
    match m {
        ConfigurationMessage::TerrainCubeSize(v) => v > 0,
        ConfigurationMessage::TerrainMaxHeight(v) => v >= 0,
        ConfigurationMessage::TerrainFailoff(v) => v >= 0,
        ConfigurationMessage::TerrainFractalOctaves(v) => v >= 1,
        _ => true,
    }
}

} // verus!
