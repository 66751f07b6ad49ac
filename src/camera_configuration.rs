//! The camera parameter snapshot and how an edit replaces one of its fields.
use vstd::prelude::*;
use crate::configuration::{field_of, ConfigurationMessage};

verus! {

/// Camera pose and projection, in fixed-point thousandths; the vertical field
/// of view is in thousandths of a degree.
#[derive(Clone, Copy, Debug, PartialEq, Eq, Structural)]
pub struct CameraConfiguration {
    pub position_x: i32,
    pub position_y: i32,
    pub position_z: i32,
    pub field_view_y: i32,
    pub z_far: i32,
    pub target_x: i32,
    pub target_y: i32,
    pub target_z: i32,
    pub up_x: i32,
    pub up_y: i32,
    pub up_z: i32,
}

impl CameraConfiguration {
    pub fn new(
        position_x: i32,
        position_y: i32,
        position_z: i32,
        field_view_y: i32,
        z_far: i32,
        target_x: i32,
        target_y: i32,
        target_z: i32,
        up_x: i32,
        up_y: i32,
        up_z: i32,
    ) -> (r: Self)
        ensures
            r == (CameraConfiguration {
                position_x,
                position_y,
                position_z,
                field_view_y,
                z_far,
                target_x,
                target_y,
                target_z,
                up_x,
                up_y,
                up_z,
            }),
    {
        CameraConfiguration {
            position_x,
            position_y,
            position_z,
            field_view_y,
            z_far,
            target_x,
            target_y,
            target_z,
            up_x,
            up_y,
            up_z,
        }
    }
}

/// The snapshot after one optional edit; edits of terrain fields leave it as
/// it is.
pub open spec fn camera_after(c: CameraConfiguration, msg: Option<ConfigurationMessage>) -> CameraConfiguration {
    match msg {
        Some(ConfigurationMessage::CameraPositionX(v)) => CameraConfiguration { position_x: v, ..c },
        Some(ConfigurationMessage::CameraPositionY(v)) => CameraConfiguration { position_y: v, ..c },
        Some(ConfigurationMessage::CameraPositionZ(v)) => CameraConfiguration { position_z: v, ..c },
        Some(ConfigurationMessage::CameraFieldViewY(v)) => CameraConfiguration { field_view_y: v, ..c },
        Some(ConfigurationMessage::CameraZFar(v)) => CameraConfiguration { z_far: v, ..c },
        Some(ConfigurationMessage::CameraTargetX(v)) => CameraConfiguration { target_x: v, ..c },
        Some(ConfigurationMessage::CameraTargetY(v)) => CameraConfiguration { target_y: v, ..c },
        Some(ConfigurationMessage::CameraTargetZ(v)) => CameraConfiguration { target_z: v, ..c },
        Some(ConfigurationMessage::CameraUpX(v)) => CameraConfiguration { up_x: v, ..c },
        Some(ConfigurationMessage::CameraUpY(v)) => CameraConfiguration { up_y: v, ..c },
        Some(ConfigurationMessage::CameraUpZ(v)) => CameraConfiguration { up_z: v, ..c },
        _ => c,
    }
}

/// Applies one optional edit to the camera snapshot.
pub fn update_configuration(
    camera_configuration: CameraConfiguration,
    msg: Option<ConfigurationMessage>,
) -> (r: CameraConfiguration)
    ensures
        r == camera_after(camera_configuration, msg),
{
    let c = camera_configuration;
    match msg {
        Some(ConfigurationMessage::CameraPositionX(v)) => CameraConfiguration { position_x: v, ..c },
        Some(ConfigurationMessage::CameraPositionY(v)) => CameraConfiguration { position_y: v, ..c },
        Some(ConfigurationMessage::CameraPositionZ(v)) => CameraConfiguration { position_z: v, ..c },
        Some(ConfigurationMessage::CameraFieldViewY(v)) => CameraConfiguration { field_view_y: v, ..c },
        Some(ConfigurationMessage::CameraZFar(v)) => CameraConfiguration { z_far: v, ..c },
        Some(ConfigurationMessage::CameraTargetX(v)) => CameraConfiguration { target_x: v, ..c },
        Some(ConfigurationMessage::CameraTargetY(v)) => CameraConfiguration { target_y: v, ..c },
        Some(ConfigurationMessage::CameraTargetZ(v)) => CameraConfiguration { target_z: v, ..c },
        Some(ConfigurationMessage::CameraUpX(v)) => CameraConfiguration { up_x: v, ..c },
        Some(ConfigurationMessage::CameraUpY(v)) => CameraConfiguration { up_y: v, ..c },
        Some(ConfigurationMessage::CameraUpZ(v)) => CameraConfiguration { up_z: v, ..c },
        _ => c,
    }
}

/// With no edit pending, the camera snapshot is returned unchanged.
pub proof fn lemma_no_camera_update_is_identity(c: CameraConfiguration)
    ensures
        camera_after(c, None) == c,
{
}

/// Camera edits of two different fields give the same snapshot in either order.
pub proof fn lemma_independent_camera_updates_commute(
    c: CameraConfiguration,
    a: ConfigurationMessage,
    b: ConfigurationMessage,
)
    requires
        field_of(a) != field_of(b),
    ensures
        camera_after(camera_after(c, Some(a)), Some(b)) == camera_after(
            camera_after(c, Some(b)),
            Some(a),
        ),
{
}

} // verus!
