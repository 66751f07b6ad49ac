use terrain_synth::camera_configuration::{self, CameraConfiguration};
use terrain_synth::color::Rgb;
use terrain_synth::configuration::ConfigurationMessage;
use terrain_synth::routes::{
    terrain_change_color, terrain_change_cube_size, terrain_change_failoff, terrain_change_fractal_octaves,
    terrain_change_max_height, terrain_change_seed, Color, CubeSize, Failoff, MaxHeight, Octaves, Seed,
};
use terrain_synth::terrain_configuration::{self, TerrainConfiguration};
use terrain_synth::visualization::{fold_pending_updates, update_configuration};

fn terrain() -> TerrainConfiguration {
    TerrainConfiguration::new(
        50000,
        50000,
        40000345266,
        1000,
        Rgb { red: 0x30, green: 0x46, blue: 0x30 },
        4000,
        200000,
        25000,
        3,
        500,
        2000,
    )
}

fn camera() -> CameraConfiguration {
    CameraConfiguration::new(35000, 22000, 82000, 45000, 100000, 18000, -10000, 0, 0, 15000, 0)
}

#[test]
fn no_update_keeps_the_snapshot() {
    assert_eq!(terrain_configuration::update_configuration(terrain(), None), terrain());
    assert_eq!(camera_configuration::update_configuration(camera(), None), camera());
    let frame = fold_pending_updates(terrain(), camera(), &vec![]);
    assert_eq!(frame.terrain, terrain());
    assert_eq!(frame.camera, camera());
    assert!(!frame.regenerate);
}

#[test]
fn later_seed_wins() {
    let pending = vec![ConfigurationMessage::TerrainSeed(42), ConfigurationMessage::TerrainSeed(43)];
    let frame = fold_pending_updates(terrain(), camera(), &pending);
    assert_eq!(frame.terrain.seed, 43);
    assert!(frame.regenerate);
    let mut expected = terrain();
    expected.seed = 43;
    assert_eq!(frame.terrain, expected);
    assert_eq!(frame.camera, camera());
}

#[test]
fn independent_updates_commute() {
    let a = ConfigurationMessage::TerrainWidth(12000);
    let b = ConfigurationMessage::TerrainColor(Rgb { red: 1, green: 2, blue: 3 });
    let ab = fold_pending_updates(terrain(), camera(), &vec![a, b]);
    let ba = fold_pending_updates(terrain(), camera(), &vec![b, a]);
    assert_eq!(ab.terrain, ba.terrain);
    assert_eq!(ab.terrain.tot_width, 12000);
    let c = ConfigurationMessage::CameraUpX(5);
    let d = ConfigurationMessage::CameraZFar(7);
    let cd = fold_pending_updates(terrain(), camera(), &vec![c, d]);
    let dc = fold_pending_updates(terrain(), camera(), &vec![d, c]);
    assert_eq!(cd.camera, dc.camera);
    assert_eq!(cd.camera.up_x, 5);
    assert_eq!(cd.camera.z_far, 7);
}

#[test]
fn edits_reach_their_own_snapshot() {
    let (t, c) = update_configuration(terrain(), camera(), Some(ConfigurationMessage::CameraPositionX(1)));
    assert_eq!(t, terrain());
    assert_eq!(c.position_x, 1);
    let (t, c) = update_configuration(terrain(), camera(), Some(ConfigurationMessage::TerrainZ(-4)));
    assert_eq!(t.z, -4);
    assert_eq!(c, camera());
}

#[test]
fn out_of_domain_edits_are_ignored() {
    let t = terrain();
    let pending = vec![
        ConfigurationMessage::TerrainCubeSize(0),
        ConfigurationMessage::TerrainFractalOctaves(0),
        ConfigurationMessage::TerrainMaxHeight(-1),
        ConfigurationMessage::TerrainFailoff(-1),
    ];
    let frame = fold_pending_updates(t, camera(), &pending);
    assert_eq!(frame.terrain, t);
    assert!(frame.regenerate);
    let t2 = terrain_configuration::update_configuration(t, Some(ConfigurationMessage::TerrainCubeSize(250)));
    assert_eq!(t2.cube_size, 250);
    let t3 = terrain_configuration::update_configuration(t, Some(ConfigurationMessage::TerrainFractalOctaves(8)));
    assert_eq!(t3.fractal_octaves, 8);
}

#[test]
fn negative_gain_and_lacunarity_are_applied() {
    let pending = vec![
        ConfigurationMessage::TerrainFractalAmplitude(-250),
        ConfigurationMessage::TerrainFractalFrequency(-1500),
    ];
    let frame = fold_pending_updates(terrain(), camera(), &pending);
    assert_eq!(frame.terrain.fractal_amplitude, -250);
    assert_eq!(frame.terrain.fractal_frequency, -1500);
}

#[test]
fn request_bodies_are_checked() {
    assert_eq!(terrain_change_seed(&Seed { value: 42 }), ConfigurationMessage::TerrainSeed(42));
    assert_eq!(
        terrain_change_color(&Color { value: "4955ff".to_string() }),
        Some(ConfigurationMessage::TerrainColor(Rgb { red: 0x49, green: 0x55, blue: 0xff }))
    );
    assert_eq!(terrain_change_color(&Color { value: "4955f".to_string() }), None);
    assert_eq!(terrain_change_color(&Color { value: "49g5ff".to_string() }), None);
    assert_eq!(terrain_change_color(&Color { value: "\u{e9}955f".to_string() }), None);
    assert_eq!(terrain_change_fractal_octaves(&Octaves { value: 8 }), Some(ConfigurationMessage::TerrainFractalOctaves(8)));
    assert_eq!(terrain_change_fractal_octaves(&Octaves { value: 0 }), None);
    assert_eq!(terrain_change_cube_size(&CubeSize { value: 200 }), Some(ConfigurationMessage::TerrainCubeSize(200)));
    assert_eq!(terrain_change_cube_size(&CubeSize { value: 0 }), None);
    assert_eq!(terrain_change_cube_size(&CubeSize { value: -5 }), None);
    assert_eq!(terrain_change_max_height(&MaxHeight { value: 0 }), Some(ConfigurationMessage::TerrainMaxHeight(0)));
    assert_eq!(terrain_change_max_height(&MaxHeight { value: -1 }), None);
    assert_eq!(terrain_change_failoff(&Failoff { value: 95480 }), Some(ConfigurationMessage::TerrainFailoff(95480)));
    assert_eq!(terrain_change_failoff(&Failoff { value: -3 }), None);
}
