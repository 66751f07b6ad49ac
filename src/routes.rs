//! Checking the bodies of parameter edit requests and turning them into
//! configuration messages.
use vstd::prelude::*;
use vstd::utf8::encode_utf8;
use crate::color::{decode_hex_color, parse_hex_color};
use crate::configuration::ConfigurationMessage;

verus! {

/// Body of a request that sets the noise seed.
pub struct Seed {
    pub value: i64,
}

/// Body of a request that sets the base color, as six hexadecimal digits.
pub struct Color {
    pub value: String,
}

/// Body of a request that sets the number of octaves.
pub struct Octaves {
    pub value: i32,
}

/// Body of a request that sets the voxel edge, in thousandths.
pub struct CubeSize {
    pub value: i32,
}

/// Body of a request that sets the maximum height, in thousandths.
pub struct MaxHeight {
    pub value: i32,
}

/// Body of a request that sets the falloff radius, in thousandths.
pub struct Failoff {
    pub value: i32,
}

/// Any seed is accepted.
pub fn terrain_change_seed(data: &Seed) -> (r: ConfigurationMessage)
    ensures
        r == ConfigurationMessage::TerrainSeed(data.value),
{
    ConfigurationMessage::TerrainSeed(data.value)
}

/// A color is accepted when it is exactly six hexadecimal digits.
pub fn terrain_change_color(data: &Color) -> (r: Option<ConfigurationMessage>)
    ensures
        r == match decode_hex_color(encode_utf8(data.value@)) {
            Some(c) => Some(ConfigurationMessage::TerrainColor(c)),
            None => None,
        },
{
    match parse_hex_color(data.value.as_str()) {
        Some(c) => Some(ConfigurationMessage::TerrainColor(c)),
        None => None,
    }
}

/// An octave count is accepted when it is at least one.
pub fn terrain_change_fractal_octaves(data: &Octaves) -> (r: Option<ConfigurationMessage>)
    ensures
        r == if data.value >= 1 {
            Some(ConfigurationMessage::TerrainFractalOctaves(data.value))
        } else {
            None
        },
{
    if data.value >= 1 {
        Some(ConfigurationMessage::TerrainFractalOctaves(data.value))
    } else {
        None
    }
}

/// A voxel edge is accepted when it is positive.
pub fn terrain_change_cube_size(data: &CubeSize) -> (r: Option<ConfigurationMessage>)
    ensures
        r == if data.value > 0 {
            Some(ConfigurationMessage::TerrainCubeSize(data.value))
        } else {
            None
        },
{
    if data.value > 0 {
        Some(ConfigurationMessage::TerrainCubeSize(data.value))
    } else {
        None
    }
}

/// A maximum height is accepted when it is not negative.
pub fn terrain_change_max_height(data: &MaxHeight) -> (r: Option<ConfigurationMessage>)
    ensures
        r == if data.value >= 0 {
            Some(ConfigurationMessage::TerrainMaxHeight(data.value))
        } else {
            None
        },
{
    if data.value >= 0 {
        Some(ConfigurationMessage::TerrainMaxHeight(data.value))
    } else {
        None
    }
}

/// A falloff radius is accepted when it is not negative.
pub fn terrain_change_failoff(data: &Failoff) -> (r: Option<ConfigurationMessage>)
    ensures
        r == if data.value >= 0 {
            Some(ConfigurationMessage::TerrainFailoff(data.value))
        } else {
            None
        },
{
    if data.value >= 0 {
        Some(ConfigurationMessage::TerrainFailoff(data.value))
    } else {
        None
    }
}

} // verus!
