//! Per-frame folding of the pending configuration edits.
use vstd::prelude::*;
use crate::camera_configuration::{self, camera_after, CameraConfiguration};
use crate::configuration::ConfigurationMessage;
use crate::terrain_configuration::{self, terrain_after, TerrainConfiguration};

verus! {

/// The terrain snapshot after the edits `msgs`, applied in order.
pub open spec fn terrain_after_all(t: TerrainConfiguration, msgs: Seq<ConfigurationMessage>) -> TerrainConfiguration
    decreases msgs.len(),
{
    if msgs.len() == 0 {
        t
    } else {
        terrain_after(terrain_after_all(t, msgs.drop_last()), Some(msgs.last()))
    }
}

/// The camera snapshot after the edits `msgs`, applied in order.
pub open spec fn camera_after_all(c: CameraConfiguration, msgs: Seq<ConfigurationMessage>) -> CameraConfiguration
    decreases msgs.len(),
{
    if msgs.len() == 0 {
        c
    } else {
        camera_after(camera_after_all(c, msgs.drop_last()), Some(msgs.last()))
    }
}

/// Applies one optional edit to both snapshots; each takes the edits of its
/// own fields.
pub fn update_configuration(
    terrain_configuration: TerrainConfiguration,
    camera_configuration: CameraConfiguration,
    msg: Option<ConfigurationMessage>,
) -> (r: (TerrainConfiguration, CameraConfiguration))
    ensures
        r == (terrain_after(terrain_configuration, msg), camera_after(camera_configuration, msg)),
        terrain_configuration.wf() ==> r.0.wf(),
{
    (
        terrain_configuration::update_configuration(terrain_configuration, msg),
        camera_configuration::update_configuration(camera_configuration, msg),
    )
}

/// What one frame does with the edits that arrived since the last one.
pub struct FrameUpdate {
    pub terrain: TerrainConfiguration,
    pub camera: CameraConfiguration,
    /// Whether the mesh and the camera are to be rebuilt from the new
    /// snapshots: exactly when at least one edit was pending.
    pub regenerate: bool,
}

/// Folds every pending edit, in arrival order, into new snapshots. With no
/// edit pending the frame keeps its snapshots and rebuilds nothing.
pub fn fold_pending_updates(
    terrain_configuration: TerrainConfiguration,
    camera_configuration: CameraConfiguration,
    pending: &Vec<ConfigurationMessage>,
) -> (r: FrameUpdate)
    ensures
        r.terrain == terrain_after_all(terrain_configuration, pending@),
        r.camera == camera_after_all(camera_configuration, pending@),
        r.regenerate == (pending.len() > 0),
        terrain_configuration.wf() ==> r.terrain.wf(),
{
    let mut terrain = terrain_configuration;
    let mut camera = camera_configuration;
    let mut i: usize = 0;
    while i < pending.len()
        invariant
            i <= pending.len(),
            terrain == terrain_after_all(terrain_configuration, pending@.take(i as int)),
            camera == camera_after_all(camera_configuration, pending@.take(i as int)),
            terrain_configuration.wf() ==> terrain.wf(),
        decreases pending.len() - i,
    {
        assert(pending@.take(i + 1).drop_last() =~= pending@.take(i as int));
        let (t, c) = update_configuration(terrain, camera, Some(pending[i]));
        terrain = t;
        camera = c;
        i = i + 1;
    }
    assert(pending@.take(pending.len() as int) =~= pending@);
    FrameUpdate { terrain, camera, regenerate: pending.len() > 0 }
}

} // verus!
