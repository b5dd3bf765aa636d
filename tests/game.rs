use sprite_game::{
    clamp_axis, confine_transform, diagonal_leg, displacement, enemy_at, half_extent,
    move_transform, Enemy, Entity, Keys, Lookup, Player, Scene, Tag, Transform, WindowSize,
    NUM_ENEMIES, PLAYER_HEIGHT, PLAYER_WIDTH, SCALE_ONE, SPRITE_SCALE,
};

const NONE: Keys = Keys { w: false, a: false, s: false, d: false };

fn keys(w: bool, a: bool, s: bool, d: bool) -> Keys {
    Keys { w, a, s, d }
}

fn at(x: i64, y: i64) -> Transform {
    Transform { x, y, scale_x: SPRITE_SCALE, scale_y: SPRITE_SCALE }
}

fn window(width: u32, height: u32) -> WindowSize {
    WindowSize { width, height }
}

fn all_key_sets() -> Vec<Keys> {
    let mut v = Vec::new();
    for bits in 0u8..16 {
        v.push(keys(bits & 1 != 0, bits & 2 != 0, bits & 4 != 0, bits & 8 != 0));
    }
    v
}

#[test]
fn holding_w_for_a_second_then_confining() {
    let t = at(400_000, 300_000);
    let moved = move_transform(t, keys(true, false, false, false), 1000);
    assert_eq!((moved.x, moved.y), (400_000, 800_000));
    let kept = confine_transform(moved, window(800, 600));
    assert_eq!((kept.x, kept.y), (400_000, 548_000));
    assert_eq!((kept.scale_x, kept.scale_y), (SPRITE_SCALE, SPRITE_SCALE));
}

#[test]
fn no_keys_no_movement() {
    let t = at(123_456, -7_890);
    for dt in [0u32, 1, 16, 1000, u32::MAX] {
        assert_eq!(displacement(NONE, dt), (0, 0));
        assert_eq!(move_transform(t, NONE, dt), t);
    }
}

#[test]
fn each_key_moves_a_full_step_along_its_axis() {
    assert_eq!(displacement(keys(true, false, false, false), 16), (0, 8000));
    assert_eq!(displacement(keys(false, false, true, false), 16), (0, -8000));
    assert_eq!(displacement(keys(false, true, false, false), 16), (-8000, 0));
    assert_eq!(displacement(keys(false, false, false, true), 16), (8000, 0));
}

#[test]
fn diagonal_is_no_faster_than_straight() {
    for dt in [1u32, 7, 16, 33, 1000, 123_457] {
        let len = 500 * dt as i128;
        for k in all_key_sets() {
            let (mx, my) = displacement(k, dt);
            if (mx, my) == (0, 0) {
                continue;
            }
            let (mx, my) = (mx as i128, my as i128);
            assert!(mx * mx + my * my <= len * len);
            assert!(len * len < (mx.abs() + 1).pow(2) + (my.abs() + 1).pow(2));
        }
    }
    assert_eq!(displacement(keys(true, false, false, true), 1000), (353_553, 353_553));
    assert_eq!(displacement(keys(false, true, true, false), 1000), (-353_553, -353_553));
}

#[test]
fn opposing_keys_cancel() {
    assert_eq!(displacement(keys(true, false, true, false), 1000), (0, 0));
    assert_eq!(displacement(keys(false, true, false, true), 1000), (0, 0));
    assert_eq!(displacement(keys(true, true, true, true), 1000), (0, 0));
    assert_eq!(displacement(keys(true, true, true, false), 1000), (-500_000, 0));
    assert_eq!(displacement(keys(false, true, true, true), 1000), (0, -500_000));
}

#[test]
fn diagonal_leg_values() {
    assert_eq!(diagonal_leg(0), 0);
    assert_eq!(diagonal_leg(1), 0);
    assert_eq!(diagonal_leg(2), 1);
    assert_eq!(diagonal_leg(10), 7);
    assert_eq!(diagonal_leg(500_000), 353_553);
    let big: u64 = 500 * u32::MAX as u64;
    let c = diagonal_leg(big) as u128;
    let b = big as u128;
    assert!(2 * c * c <= b * b && b * b < 2 * (c + 1) * (c + 1));
}

#[test]
fn half_extents_at_sprite_scale() {
    assert_eq!(half_extent(PLAYER_WIDTH, SPRITE_SCALE), 73_000);
    assert_eq!(half_extent(PLAYER_HEIGHT, SPRITE_SCALE), 52_000);
    assert_eq!(half_extent(PLAYER_WIDTH, SCALE_ONE), 146_000);
}

#[test]
fn clamp_axis_order() {
    assert_eq!(clamp_axis(5, 10, 20), 10);
    assert_eq!(clamp_axis(25, 10, 20), 20);
    assert_eq!(clamp_axis(15, 10, 20), 15);
    assert_eq!(clamp_axis(5, 30, 20), 20);
    assert_eq!(clamp_axis(50, 30, 20), 20);
}

#[test]
fn confinement_keeps_the_sprite_inside() {
    let w = window(800, 600);
    for x in [i64::MIN, -1_000_000, 0, 73_000, 400_000, 727_000, 800_000, i64::MAX] {
        for y in [i64::MIN, -5, 52_000, 300_000, 548_000, 600_001, i64::MAX] {
            let r = confine_transform(at(x, y), w);
            assert!(73_000 <= r.x && r.x <= 727_000);
            assert!(52_000 <= r.y && r.y <= 548_000);
            if (73_000..=727_000).contains(&x) {
                assert_eq!(r.x, x);
            }
        }
    }
}

#[test]
fn confinement_in_a_window_narrower_than_the_sprite() {
    let w = window(100, 600);
    for x in [-50_000, 0, 27_000, 50_000, 73_000, 200_000] {
        let r = confine_transform(at(x, 300_000), w);
        assert_eq!(r.x, 100_000 - 73_000);
        assert_eq!(r.y, 300_000);
    }
    let r = confine_transform(at(10, 10), window(0, 0));
    assert_eq!((r.x, r.y), (-73_000, -52_000));
}

#[test]
fn enemy_placement_from_draws() {
    let w = window(800, 600);
    let e = enemy_at(0, 0, w);
    assert_eq!(e.tag, Tag::Enemy(Enemy));
    assert_eq!((e.transform.x, e.transform.y), (0, 0));
    let e = enemy_at(0x8000_0000, 0x4000_0000, w);
    assert_eq!((e.transform.x, e.transform.y), (400_000, 150_000));
    let e = enemy_at(u32::MAX, u32::MAX, w);
    assert_eq!((e.transform.x, e.transform.y), (799_999, 599_999));
    assert_eq!((e.transform.scale_x, e.transform.scale_y), (SPRITE_SCALE, SPRITE_SCALE));
    let e = enemy_at(u32::MAX, 12345, window(0, 0));
    assert_eq!((e.transform.x, e.transform.y), (0, 0));
}

#[test]
fn spawn_enemies_places_four_inside() {
    let w = window(640, 480);
    let mut scene = Scene::new();
    scene.spawn_camera(w);
    scene.spawn_enemies(w);
    assert_eq!(scene.entities.len(), 1 + NUM_ENEMIES);
    assert_eq!(scene.entities[0].tag, Tag::Camera);
    for e in &scene.entities[1..] {
        assert_eq!(e.tag, Tag::Enemy(Enemy));
        assert!(0 <= e.transform.x && e.transform.x < 640_000);
        assert!(0 <= e.transform.y && e.transform.y < 480_000);
    }
}

#[test]
fn setup_has_one_player_one_camera_four_enemies() {
    let w = window(800, 600);
    let scene = Scene::setup(w);
    let count = |tag: Tag| scene.entities.iter().filter(|e| e.tag == tag).count();
    assert_eq!(count(Tag::Player(Player)), 1);
    assert_eq!(count(Tag::Camera), 1);
    assert_eq!(count(Tag::Enemy(Enemy)), 4);
    assert_eq!(scene.entities.len(), 6);
    assert_eq!(scene.entities[0].transform, at(400_000, 300_000));
    let cam = scene.entities[5].transform;
    assert_eq!((cam.x, cam.y, cam.scale_x), (400_000, 300_000, SCALE_ONE));
    assert_eq!(scene.find_player(), Lookup::Found(0));
}

#[test]
fn frame_moves_and_confines_the_player() {
    let w = window(800, 600);
    let mut scene = Scene::setup(w);
    let enemies: Vec<Entity> = scene.entities[1..5].to_vec();
    scene.player_movement(keys(true, false, false, false), 1000);
    assert_eq!(scene.entities[0].transform, at(400_000, 800_000));
    scene.confine_player(w);
    assert_eq!(scene.entities[0].transform, at(400_000, 548_000));
    assert_eq!(scene.entities[1..5].to_vec(), enemies);
}

#[test]
fn updates_skip_without_a_single_player() {
    let w = window(800, 600);
    let mut scene = Scene::new();
    assert_eq!(scene.find_player(), Lookup::NotFound);
    scene.spawn_camera(w);
    scene.player_movement(keys(true, false, false, false), 1000);
    scene.confine_player(w);
    assert_eq!(scene.entities[0].transform.x, 400_000);

    let mut two = Scene::new();
    two.spawn_player(w);
    two.spawn_player(w);
    assert_eq!(two.find_player(), Lookup::Ambiguous);
    two.player_movement(keys(true, false, false, false), 1000);
    two.confine_player(window(10, 10));
    for e in &two.entities {
        assert_eq!(e.transform, at(400_000, 300_000));
    }
}
