use doomlike::camera::Player;
use doomlike::controls::{Key, Keys};
use doomlike::game::display;
use doomlike::palette::clear_background;
use doomlike::render::render_frame;
use doomlike::timing::Time;
use doomlike::trig::TrigTable;
use doomlike::world::{load_level, Geometry};

fn table() -> TrigTable {
    let fixed = |v: f64| (v * 65536.0).round() as i32;
    let cos: Vec<i32> = (0..360).map(|a| fixed((a as f64).to_radians().cos())).collect();
    let sin: Vec<i32> = (0..360).map(|a| fixed((a as f64).to_radians().sin())).collect();
    TrigTable::new(cos, sin).expect("rounded entries form a table")
}

fn demo_level() -> Geometry {
    load_level(
        &vec![0, 4, 0, 40, 2, 3, 4, 8, 0, 40, 4, 5, 8, 12, 0, 40, 6, 7, 12, 16, 0, 40, 0, 1],
        &vec![
            0, 0, 32, 0, 0, 32, 0, 32, 32, 1, 32, 32, 0, 32, 0, 0, 32, 0, 0, 1, 64, 0, 96, 0, 2,
            96, 0, 96, 32, 3, 96, 32, 64, 32, 2, 64, 32, 64, 0, 3, 64, 64, 96, 64, 4, 96, 64, 96,
            96, 5, 96, 96, 64, 96, 4, 64, 96, 64, 64, 5, 0, 64, 32, 64, 6, 32, 64, 32, 96, 7, 32,
            96, 0, 96, 6, 0, 96, 0, 64, 7,
        ],
    )
    .expect("a valid level")
}

#[test]
fn no_frame_before_it_is_due() {
    let mut time = Time { frame1: 149, frame2: 100 };
    let mut keys = Keys::new();
    keys.set(Key::Forward, true);
    let mut player = Player { x: 70, y: -110, z: 20, a: 0, l: 0 };
    let frame = display(&mut time, &keys, &mut player, &table(), &demo_level());
    assert!(frame.is_none());
    assert_eq!(time, Time { frame1: 149, frame2: 100 });
    assert_eq!(player, Player { x: 70, y: -110, z: 20, a: 0, l: 0 });
}

#[test]
fn due_frame_moves_the_camera_and_draws_from_its_new_place() {
    let math = table();
    let level = demo_level();
    let mut time = Time { frame1: 150, frame2: 100 };
    let mut keys = Keys::new();
    keys.set(Key::Forward, true);
    keys.set(Key::Right, true);
    let mut player = Player { x: 70, y: -110, z: 20, a: 356, l: 0 };
    let frame = display(&mut time, &keys, &mut player, &math, &level).expect("a frame is due");
    assert_eq!(time, Time { frame1: 150, frame2: 150 });
    assert_eq!(player, Player { x: 70, y: -100, z: 20, a: 0, l: 0 });

    let mut expected = Vec::new();
    clear_background(&mut expected);
    assert_eq!(&frame[..160 * 120], &expected[..]);
    assert_eq!(&frame[160 * 120..], &render_frame(&player, &level, &math)[..]);
    assert!(frame.len() > 160 * 120);
    assert!(frame.iter().all(|p| 0 <= p.x && p.x < 160 && 0 <= p.y && p.y < 120));

    // the next frame is due fifty milliseconds after this one
    time.tick(199);
    assert!(display(&mut time, &keys, &mut player, &math, &level).is_none());
    time.tick(200);
    assert!(display(&mut time, &keys, &mut player, &math, &level).is_some());
    assert_eq!(player, Player { x: 70, y: -91, z: 20, a: 4, l: 0 });
}
