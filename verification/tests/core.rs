use arcade_core::config::Config;
use arcade_core::config::POS_LIMIT;
use arcade_core::config::Viewport;
use arcade_core::game::KeyState;
use arcade_core::game::initialize;
use arcade_core::game::player_kinds;
use arcade_core::game::tick;
use arcade_core::store::Component;
use arcade_core::store::ComponentKind;
use arcade_core::store::Speed;
use arcade_core::store::Store;
use arcade_core::store::Transform;
use arcade_core::store::Vec2S;
use arcade_core::store::Vec3S;

// The default configuration ticks at 1/60 s, so one world unit is
// 4 * 60 = 240 subunits.

const NO_KEYS: KeyState = KeyState { move_left: false, move_right: false };
const LEFT: KeyState = KeyState { move_left: true, move_right: false };
const RIGHT: KeyState = KeyState { move_left: false, move_right: true };
const BOTH: KeyState = KeyState { move_left: true, move_right: true };

fn spawn_default() -> Store {
    initialize(Viewport { width: 600, height: 600 }, Config::default())
}

#[test]
fn spawn_places_player_for_height_600() {
    // H = 600: translation = (0, -276.25, 10) world units, scale (0.5, 0.5).
    let s = spawn_default();
    let t = s.get_transform(0).unwrap();
    assert_eq!(t.translation, Vec3S { x: 0, y: -66300, z: 2400 });
    // -66300 subunits is -276.25 world units: -276.25 = -1105/4, and
    // 4 * -66300 == -1105 * 240 at 240 subunits per unit.
    assert_eq!(4 * t.translation.y, -1105 * 240);
    assert_eq!(t.scale, Vec2S { x: 120, y: 120 });
    assert_eq!(s.get_speed(0), Some(Speed { units: 500 }));
    assert!(s.has_component(0, ComponentKind::PlayerTag));
}

#[test]
fn spawn_y_scales_with_viewport_height() {
    for h in [0u32, 150, 599, 600, 1080] {
        let s = initialize(Viewport { width: 800, height: h }, Config::default());
        let t = s.get_transform(0).unwrap();
        // y = -H/2 + 23.75 world units, exactly, in 240ths.
        assert_eq!(t.translation.y, (95 - 2 * h as i64) * 60);
        assert_eq!(t.translation.x, 0);
    }
}

#[test]
fn one_right_tick_moves_by_speed_times_dt() {
    // 500 units/s * 1/60 s = 8.333... units = 2000 subunits of 1/240 unit.
    let mut s = spawn_default();
    let dt = s.config.dt;
    tick(&mut s, &RIGHT, dt);
    let t = s.get_transform(0).unwrap();
    assert_eq!(t.translation.x, 2000);
    // y and z untouched
    assert_eq!(t.translation.y, -66300);
    assert_eq!(t.translation.z, 2400);
}

#[test]
fn no_keys_any_number_of_ticks_keeps_x() {
    let mut s = spawn_default();
    let dt = s.config.dt;
    for _ in 0..25 {
        tick(&mut s, &NO_KEYS, dt);
    }
    assert_eq!(s.get_transform(0).unwrap().translation.x, 0);
}

#[test]
fn n_right_ticks_accumulate_linearly_and_monotonically() {
    let mut s = spawn_default();
    let dt = s.config.dt;
    let mut last = 0i64;
    for n in 1..=12i64 {
        tick(&mut s, &RIGHT, dt);
        let x = s.get_transform(0).unwrap().translation.x;
        assert_eq!(x, n * 2000);
        assert!(x > last);
        last = x;
    }
}

#[test]
fn left_and_right_together_act_as_left_alone() {
    let mut a = spawn_default();
    let mut b = spawn_default();
    let dt = a.config.dt;
    tick(&mut a, &BOTH, dt);
    tick(&mut b, &LEFT, dt);
    assert_eq!(a.get_transform(0), b.get_transform(0));
    assert_eq!(a.get_transform(0).unwrap().translation.x, -2000);
}

#[test]
fn removed_tag_makes_ticks_no_ops() {
    let mut s = spawn_default();
    let dt = s.config.dt;
    s.detach(0, ComponentKind::PlayerTag);
    assert!(s.query(&player_kinds()).is_empty());
    let snapshot = s.records.clone();
    for _ in 0..10 {
        tick(&mut s, &RIGHT, dt);
    }
    assert_eq!(s.records, snapshot);
    assert_eq!(s.get_transform(0).unwrap().translation.x, 0);
}

#[test]
fn tick_before_spawn_is_a_no_op() {
    let mut s = Store::new(Config::default());
    let dt = s.config.dt;
    tick(&mut s, &RIGHT, dt);
    assert!(s.records.is_empty());
}

#[test]
fn two_players_make_ticks_no_ops() {
    let mut s = spawn_default();
    let dt = s.config.dt;
    let e = s.create_entity();
    s.attach(
        e,
        Component::Transform(Transform {
            translation: Vec3S { x: 7, y: 8, z: 9 },
            scale: Vec2S { x: 1, y: 1 },
        }),
    );
    s.attach(e, Component::Speed(Speed { units: 3 }));
    s.attach(e, Component::PlayerTag);
    assert_eq!(s.query(&player_kinds()), vec![0, e]);
    let snapshot = s.records.clone();
    tick(&mut s, &RIGHT, dt);
    assert_eq!(s.records, snapshot);
}

#[test]
fn attach_then_query_returns_attached_value() {
    let mut s = Store::new(Config::default());
    let e = s.create_entity();
    let t = Transform {
        translation: Vec3S { x: 1, y: 2, z: 3 },
        scale: Vec2S { x: 4, y: 5 },
    };
    s.attach(e, Component::Transform(t));
    assert_eq!(s.get_transform(e), Some(t));
    assert_eq!(s.query(&vec![ComponentKind::Transform]), vec![e]);
    assert_eq!(s.get_speed(e), None);
}

#[test]
fn attach_overwrites_component_of_same_kind() {
    let mut s = Store::new(Config::default());
    let e = s.create_entity();
    s.attach(e, Component::Speed(Speed { units: 100 }));
    s.attach(e, Component::Speed(Speed { units: 250 }));
    assert_eq!(s.get_speed(e), Some(Speed { units: 250 }));
}

#[test]
fn identifiers_are_fresh_and_queries_keep_creation_order() {
    let mut s = Store::new(Config::default());
    let a = s.create_entity();
    let b = s.create_entity();
    let c = s.create_entity();
    assert_eq!((a, b, c), (0, 1, 2));
    s.attach(c, Component::PlayerTag);
    s.attach(a, Component::PlayerTag);
    assert_eq!(s.query(&vec![ComponentKind::PlayerTag]), vec![a, c]);
    // An empty kind list matches every live entity.
    assert_eq!(s.query(&Vec::new()), vec![a, b, c]);
}

#[test]
fn remove_invalidates_the_identifier() {
    let mut s = Store::new(Config::default());
    let a = s.create_entity();
    let b = s.create_entity();
    s.attach(a, Component::Speed(Speed { units: 9 }));
    s.remove(a);
    assert_eq!(s.get_speed(a), None);
    assert_eq!(s.get_transform(a), None);
    assert!(!s.has_component(a, ComponentKind::Speed));
    // attach to a removed identifier is a no-op
    s.attach(a, Component::Speed(Speed { units: 1 }));
    assert_eq!(s.get_speed(a), None);
    assert_eq!(s.query(&Vec::new()), vec![b]);
    // the identifier is never reused
    assert_eq!(s.create_entity(), 2);
}

#[test]
fn detach_of_absent_component_is_a_no_op() {
    let mut s = Store::new(Config::default());
    let e = s.create_entity();
    let snapshot = s.records.clone();
    s.detach(e, ComponentKind::Transform);
    assert_eq!(s.records, snapshot);
}

#[test]
fn position_at_the_range_edge_stays_put() {
    let mut s = spawn_default();
    let dt = s.config.dt;
    s.attach(
        0,
        Component::Transform(Transform {
            translation: Vec3S { x: POS_LIMIT, y: 0, z: 0 },
            scale: Vec2S { x: 120, y: 120 },
        }),
    );
    tick(&mut s, &RIGHT, dt);
    assert_eq!(s.get_transform(0).unwrap().translation.x, POS_LIMIT);
    // moving back inward works
    tick(&mut s, &LEFT, dt);
    assert_eq!(s.get_transform(0).unwrap().translation.x, POS_LIMIT - 2000);
}

#[test]
fn speed_defaults_to_500() {
    assert_eq!(Speed::default(), Speed { units: 500 });
    let c = Config::default();
    assert_eq!(c.default_speed, 500);
    assert_eq!((c.dt.num, c.dt.den), (1, 60));
    assert_eq!(c.spawn_offset_quarters, 95);
}
