use doomlike::arith::{div_floor_wide, div_trunc, div_trunc_wide};
use doomlike::camera::{
    clip_behind_player, project, transform, transform_inverse, view_height, Player,
};
use doomlike::trig::TrigTable;

fn table() -> TrigTable {
    let fixed = |v: f64| (v * 65536.0).round() as i32;
    let cos: Vec<i32> = (0..360).map(|a| fixed((a as f64).to_radians().cos())).collect();
    let sin: Vec<i32> = (0..360).map(|a| fixed((a as f64).to_radians().sin())).collect();
    TrigTable::new(cos, sin).expect("rounded entries form a table")
}

fn camera(x: i32, y: i32, a: i32) -> Player {
    Player { x, y, z: 20, a, l: 0 }
}

#[test]
fn division_rounds_toward_zero() {
    assert_eq!(div_trunc(7, 2), 3);
    assert_eq!(div_trunc(-7, 2), -3);
    assert_eq!(div_trunc(7, -2), -3);
    assert_eq!(div_trunc(-7, -2), 3);
    assert_eq!(div_trunc(0, -5), 0);
    assert_eq!(div_trunc_wide(-9, 4), -2);
    assert_eq!(div_trunc_wide(9, -4), -2);
    assert_eq!(div_trunc_wide(1 << 100, -(1 << 98)), -4);
}

#[test]
fn division_rounds_down() {
    assert_eq!(div_floor_wide(7, 2), 3);
    assert_eq!(div_floor_wide(-7, 2), -4);
    assert_eq!(div_floor_wide(-8, 2), -4);
    assert_eq!(div_floor_wide(-1, 8), -1);
    assert_eq!(div_floor_wide(0, 8), 0);
}

#[test]
fn table_refuses_wrong_length() {
    assert!(TrigTable::new(vec![65536; 359], vec![0; 359]).is_none());
    assert!(TrigTable::new(vec![65536; 360], vec![0; 361]).is_none());
    assert!(TrigTable::new(Vec::new(), Vec::new()).is_none());
}

#[test]
fn table_refuses_entries_off_the_unit_circle() {
    assert!(TrigTable::new(vec![65536; 360], vec![0; 360]).is_some());
    // too long: 65536^2 + 512^2 exceeds the tolerance of 2 * 65536
    assert!(TrigTable::new(vec![65536; 360], vec![512; 360]).is_none());
    // too short
    assert!(TrigTable::new(vec![65000; 360], vec![0; 360]).is_none());
    // an entry beyond the scale
    assert!(TrigTable::new(vec![65537; 360], vec![0; 360]).is_none());
    let mut cos = vec![65536; 360];
    cos[359] = 0;
    assert!(TrigTable::new(cos, vec![0; 360]).is_none());
}

#[test]
fn table_lookup() {
    let math = table();
    assert_eq!(math.cos(0), 65536);
    assert_eq!(math.sin(0), 0);
    assert_eq!(math.cos(90), 0);
    assert_eq!(math.sin(90), 65536);
    assert_eq!(math.cos(45), 46341);
    assert_eq!(math.sin(30), 32768);
    assert_eq!(math.cos(350), 64540);
    assert_eq!(math.sin(350), -11380);
}

#[test]
fn transform_at_angle_zero_only_translates() {
    let math = table();
    assert_eq!(transform(0, 0, &camera(70, -110, 0), &math), (-70, 110));
    assert_eq!(transform(70, -110, &camera(70, -110, 0), &math), (0, 0));
}

#[test]
fn transform_turns_against_the_facing_angle() {
    let math = table();
    assert_eq!(transform(0, 0, &camera(70, -110, 90), &math), (-110, -70));
    assert_eq!(transform(10, 0, &camera(0, 0, 45), &math), (7, 7));
    assert_eq!(transform(3, -4, &camera(0, 0, 200), &math), (-4, 2));
}

#[test]
fn transform_inverse_undoes_exact_turns() {
    let math = table();
    assert_eq!(transform_inverse(-70, 110, &camera(70, -110, 0), &math), (0, 0));
    assert_eq!(transform_inverse(-110, -70, &camera(70, -110, 90), &math), (0, 0));
    assert_eq!(transform_inverse(7, 7, &camera(0, 0, 45), &math), (9, 0));
}

#[test]
fn transform_round_trips_at_every_angle() {
    let math = table();
    let points = [(0, 0), (32, 0), (-96, 64), (1000, -777), (32768, 32768), (-32768, 32767)];
    for a in 0..360 {
        for &(cx, cy) in &[(0, 0), (70, -110), (-32768, 32768)] {
            let player = camera(cx, cy, a);
            for &(x, y) in &points {
                let w = transform(x, y, &player, &math);
                let back = transform_inverse(w.0, w.1, &player, &math);
                assert!((back.0 - x).abs() <= 4, "x of {:?} at {}", (x, y), a);
                assert!((back.1 - y).abs() <= 4, "y of {:?} at {}", (x, y), a);
            }
        }
    }
}

#[test]
fn view_height_adds_the_look_tilt() {
    let level = Player { x: 0, y: 0, z: 20, a: 0, l: 0 };
    assert_eq!(view_height(0, &level, 100), -20);
    assert_eq!(view_height(40, &level, 100), 20);
    let up = Player { x: 0, y: 0, z: 20, a: 0, l: 10 };
    assert_eq!(view_height(0, &up, 100), -20 + 31);
    let down = Player { x: 0, y: 0, z: 20, a: 0, l: -10 };
    assert_eq!(view_height(0, &down, 100), -20 - 31);
    assert_eq!(view_height(0, &down, -100), -20 + 31);
}

#[test]
fn clip_moves_the_end_to_the_near_plane() {
    let (mut x, mut y, mut z) = (-10, -5, 0);
    clip_behind_player(&mut x, &mut y, &mut z, 30, 15, 40);
    assert_eq!((x, y, z), (0, 1, 10));
}

#[test]
fn clip_one_end_behind_gives_forward_one() {
    for &(ya, yb) in &[(0, 1), (-1, 1), (-131072, 131072), (0, 7), (-3, 1000)] {
        let (mut x, mut y, mut z) = (-20, ya, -20);
        clip_behind_player(&mut x, &mut y, &mut z, 20, yb, 20);
        assert_eq!(y, 1);
        assert!(-20 <= x && x <= 20);
        assert!(-20 <= z && z <= 20);
    }
}

#[test]
fn clip_rounds_toward_zero() {
    // s = 1/3: x = -10 + 10/3 = -6.66.., z = 7/3 = 2.33..
    let (mut x, mut y, mut z) = (-10, -1, 0);
    clip_behind_player(&mut x, &mut y, &mut z, 0, 2, 7);
    assert_eq!((x, y, z), (-6, 1, 2));
}

#[test]
fn clip_equal_depths_divides_by_one() {
    let (mut x, mut y, mut z) = (1, 3, 10);
    clip_behind_player(&mut x, &mut y, &mut z, 2, 3, 8);
    assert_eq!((x, y, z), (4, 3, 4));
    let (mut x, mut y, mut z) = (5, 0, 5);
    clip_behind_player(&mut x, &mut y, &mut z, 9, 0, 9);
    assert_eq!((x, y, z), (5, 1, 5));
}

#[test]
fn clip_raises_a_forward_coordinate_below_one() {
    // both ends behind: the cut lands at -8 + 2 * 4 = 0, which is raised
    let (mut x, mut y, mut z) = (0, -8, 0);
    clip_behind_player(&mut x, &mut y, &mut z, 1, -4, 1);
    assert_eq!((x, y, z), (2, 1, 2));
}

#[test]
fn project_divides_by_the_distance() {
    assert_eq!(project(16, 32, 40), (180, 310));
    assert_eq!(project(-16, 32, -20), (-20, -65));
    assert_eq!(project(0, 1, 0), (80, 60));
    assert_eq!(project(1, 3, -1), (80 + 66, 60 - 66));
    assert_eq!(project(10_000_000, 1, -10_000_000), (2_000_000_080, -1_999_999_940));
}
