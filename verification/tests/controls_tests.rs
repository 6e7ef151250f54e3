use doomlike::camera::Player;
use doomlike::controls::{move_player, ready_to_move, Key, Keys};
use doomlike::palette::{clear_background, color, pixel, Fill, Palette, Rgb};
use doomlike::screen::PixelWrite;
use doomlike::timing::Time;
use doomlike::trig::TrigTable;

fn table() -> TrigTable {
    let fixed = |v: f64| (v * 65536.0).round() as i32;
    let cos: Vec<i32> = (0..360).map(|a| fixed((a as f64).to_radians().cos())).collect();
    let sin: Vec<i32> = (0..360).map(|a| fixed((a as f64).to_radians().sin())).collect();
    TrigTable::new(cos, sin).expect("rounded entries form a table")
}

fn held(keys: &[Key]) -> Keys {
    let mut all = Keys::new();
    for &key in keys {
        all.set(key, true);
    }
    all
}

fn after(keys: &[Key], player: Player) -> Player {
    let mut moved = player;
    move_player(&held(keys), &mut moved, &table());
    moved
}

fn at(a: i32) -> Player {
    Player { x: 70, y: -110, z: 20, a, l: 0 }
}

#[test]
fn keys_go_down_and_up() {
    let mut keys = Keys::new();
    assert_eq!(keys, Keys { w: false, s: false, a: false, d: false, sl: false, sr: false, m: false });
    keys.set(Key::Forward, true);
    keys.set(Key::StrafeRight, true);
    keys.set(Key::Mode, true);
    assert_eq!(keys, Keys { w: true, s: false, a: false, d: false, sl: false, sr: true, m: true });
    keys.set(Key::Forward, false);
    keys.set(Key::Backward, true);
    keys.set(Key::Left, true);
    keys.set(Key::Right, true);
    keys.set(Key::StrafeLeft, true);
    assert_eq!(keys, Keys { w: false, s: true, a: true, d: true, sl: true, sr: true, m: true });
}

#[test]
fn no_key_no_move() {
    assert_eq!(after(&[], at(123)), at(123));
    assert_eq!(after(&[Key::Mode], at(123)), at(123));
}

#[test]
fn turning_wraps_round_the_full_turn() {
    assert_eq!(after(&[Key::Left], at(10)).a, 6);
    assert_eq!(after(&[Key::Left], at(2)).a, 358);
    assert_eq!(after(&[Key::Left], at(0)).a, 356);
    assert_eq!(after(&[Key::Left], at(4)).a, 0);
    assert_eq!(after(&[Key::Right], at(10)).a, 14);
    assert_eq!(after(&[Key::Right], at(356)).a, 0);
    assert_eq!(after(&[Key::Right], at(359)).a, 3);
    assert_eq!(after(&[Key::Right], at(355)).a, 359);
    assert_eq!(after(&[Key::Left, Key::Right], at(2)).a, 2);
    assert_eq!(after(&[Key::Left, Key::Right], at(358)).a, 358);
}

#[test]
fn walking_follows_the_facing_angle() {
    let p = after(&[Key::Forward], at(0));
    assert_eq!((p.x, p.y), (70, -100));
    let p = after(&[Key::Backward], at(0));
    assert_eq!((p.x, p.y), (70, -120));
    let p = after(&[Key::Forward], at(90));
    assert_eq!((p.x, p.y), (80, -110));
    let p = after(&[Key::Forward], at(30));
    assert_eq!((p.x, p.y), (75, -102));
    let p = after(&[Key::Forward], at(45));
    assert_eq!((p.x, p.y), (77, -103));
    let p = after(&[Key::Forward], at(180));
    assert_eq!((p.x, p.y), (70, -120));
    let p = after(&[Key::Forward], at(270));
    assert_eq!((p.x, p.y), (60, -110));
    let p = after(&[Key::Forward, Key::Backward], at(30));
    assert_eq!((p.x, p.y), (70, -110));
}

#[test]
fn walking_uses_the_angle_after_the_turn() {
    // from 26 degrees the right key turns to 30 before the step is taken
    let p = after(&[Key::Forward, Key::Right], at(26));
    assert_eq!((p.x, p.y, p.a), (75, -102, 30));
}

#[test]
fn stepping_sideways() {
    let p = after(&[Key::StrafeRight], at(0));
    assert_eq!((p.x, p.y), (80, -110));
    let p = after(&[Key::StrafeLeft], at(0));
    assert_eq!((p.x, p.y), (60, -110));
    let p = after(&[Key::StrafeRight], at(30));
    assert_eq!((p.x, p.y), (78, -115));
    let p = after(&[Key::StrafeLeft, Key::Mode], at(30));
    assert_eq!((p.x, p.y), (62, -105));
    let p = after(&[Key::Forward, Key::StrafeRight], at(0));
    assert_eq!((p.x, p.y), (80, -100));
}

#[test]
fn mode_key_changes_turning_to_looking_and_walking_to_flying() {
    let p = after(&[Key::Mode, Key::Left], at(10));
    assert_eq!(p, Player { x: 70, y: -110, z: 20, a: 10, l: -1 });
    let p = after(&[Key::Mode, Key::Right], at(10));
    assert_eq!(p, Player { x: 70, y: -110, z: 20, a: 10, l: 1 });
    let p = after(&[Key::Mode, Key::Forward], at(10));
    assert_eq!(p, Player { x: 70, y: -110, z: 24, a: 10, l: 0 });
    let p = after(&[Key::Mode, Key::Backward], at(10));
    assert_eq!(p, Player { x: 70, y: -110, z: 16, a: 10, l: 0 });
    let p = after(&[Key::Mode, Key::Backward, Key::Forward, Key::Left, Key::Right], at(10));
    assert_eq!(p, at(10));
}

#[test]
fn camera_at_the_end_of_the_range_can_still_move() {
    let edge = Player { x: i32::MAX - 20, y: i32::MIN + 20, z: i32::MAX - 4, a: 45, l: i32::MIN + 1 };
    assert!(ready_to_move(&edge));
    let p = after(&[Key::Forward, Key::StrafeRight], edge);
    assert_eq!((p.x, p.y), (i32::MAX - 6, i32::MIN + 20));
    let p = after(&[Key::Mode, Key::Forward, Key::Left], edge);
    assert_eq!((p.z, p.l), (i32::MAX, i32::MIN));
    assert!(!ready_to_move(&Player { x: i32::MAX - 19, ..edge }));
    assert!(!ready_to_move(&Player { z: i32::MAX - 3, ..edge }));
    assert!(!ready_to_move(&Player { l: i32::MIN, ..edge }));
    assert!(!ready_to_move(&Player { a: 360, ..edge }));
    assert!(!ready_to_move(&Player { a: -1, ..edge }));
}

#[test]
fn camera_validity() {
    assert!(at(0).is_valid());
    assert!(Player { x: 32768, y: -32768, z: 32768, a: 359, l: 1024 }.is_valid());
    assert!(!Player { x: 32769, y: 0, z: 0, a: 0, l: 0 }.is_valid());
    assert!(!Player { x: 0, y: -32769, z: 0, a: 0, l: 0 }.is_valid());
    assert!(!Player { x: 0, y: 0, z: 32769, a: 0, l: 0 }.is_valid());
    assert!(!Player { x: 0, y: 0, z: 0, a: 360, l: 0 }.is_valid());
    assert!(!Player { x: 0, y: 0, z: 0, a: -1, l: 0 }.is_valid());
    assert!(!Player { x: 0, y: 0, z: 0, a: 0, l: -1025 }.is_valid());
}

#[test]
fn palette_colours() {
    assert_eq!(color(0), Rgb { r: 255, g: 255, b: 0 });
    assert_eq!(color(1), Rgb { r: 160, g: 160, b: 0 });
    assert_eq!(color(2), Rgb { r: 0, g: 255, b: 0 });
    assert_eq!(color(3), Rgb { r: 0, g: 160, b: 0 });
    assert_eq!(color(4), Rgb { r: 0, g: 255, b: 255 });
    assert_eq!(color(5), Rgb { r: 0, g: 160, b: 160 });
    assert_eq!(color(6), Rgb { r: 160, g: 100, b: 0 });
    assert_eq!(color(7), Rgb { r: 110, g: 50, b: 0 });
    assert_eq!(color(8), Rgb { r: 0, g: 60, b: 130 });
}

#[test]
fn unknown_colours_are_black() {
    assert_eq!(color(9), Rgb { r: 0, g: 0, b: 0 });
    assert_eq!(color(-1), Rgb { r: 0, g: 0, b: 0 });
    assert_eq!(color(i32::MAX), Rgb { r: 0, g: 0, b: 0 });
}

#[test]
fn pixel_is_a_square_counted_from_the_bottom() {
    assert_eq!(
        pixel(3, 5, 0),
        Fill { color: Rgb { r: 255, g: 255, b: 0 }, x: 14, y: 458, w: 4, h: 4 }
    );
    assert_eq!(pixel(0, 0, 8), Fill { color: Rgb { r: 0, g: 60, b: 130 }, x: 2, y: 478, w: 4, h: 4 });
    assert_eq!(pixel(159, 119, 7).x, 638);
    assert_eq!(pixel(159, 119, 7).y, 2);
    assert_eq!(pixel(-1, 120, 7).x, -2);
    assert_eq!(pixel(-1, 120, 7).y, -2);
    assert_eq!(pixel(500_000_000, -500_000_000, 1).x, 2_000_000_002);
    assert_eq!(pixel(500_000_000, -500_000_000, 1).y, 2_000_000_478);
}

#[test]
fn background_covers_the_frame_row_by_row() {
    let mut out = vec![PixelWrite { x: 5, y: 5, c: 1 }];
    clear_background(&mut out);
    assert_eq!(out.len(), 1 + 160 * 120);
    assert_eq!(out[0], PixelWrite { x: 5, y: 5, c: 1 });
    assert_eq!(out[1], PixelWrite { x: 0, y: 0, c: 8 });
    assert_eq!(out[2], PixelWrite { x: 1, y: 0, c: 8 });
    assert_eq!(out[160], PixelWrite { x: 159, y: 0, c: 8 });
    assert_eq!(out[161], PixelWrite { x: 0, y: 1, c: 8 });
    assert_eq!(out[160 * 120], PixelWrite { x: 159, y: 119, c: 8 });
    for (i, p) in out[1..].iter().enumerate() {
        assert_eq!(*p, PixelWrite { x: (i % 160) as i32, y: (i / 160) as i32, c: 8 });
    }
}

#[test]
fn frame_is_due_after_fifty_milliseconds() {
    let mut time = Time::new();
    assert_eq!(time, Time { frame1: 0, frame2: 0 });
    assert!(!time.frame_due());
    time.tick(49);
    assert_eq!(time, Time { frame1: 49, frame2: 0 });
    assert!(!time.frame_due());
    time.tick(50);
    assert!(time.frame_due());
    // a frame counts from the reading before it was drawn
    time.mark_frame();
    time.tick(58);
    assert_eq!(time, Time { frame1: 58, frame2: 50 });
    assert!(!time.frame_due());
    time.tick(99);
    assert!(!time.frame_due());
    time.tick(100);
    assert!(time.frame_due());
    time.mark_frame();
    assert_eq!(time, Time { frame1: 100, frame2: 100 });
    assert!(!time.frame_due());
}

#[test]
fn clock_takes_the_whole_range() {
    let mut time = Time::new();
    time.tick(u128::MAX);
    assert!(time.frame_due());
    time.mark_frame();
    assert!(!time.frame_due());
    assert_eq!(time, Time { frame1: u128::MAX, frame2: u128::MAX });
}

#[test]
fn palette_entries_by_index() {
    let all = [
        Palette::Yellow,
        Palette::DarkYellow,
        Palette::Green,
        Palette::DarkGreen,
        Palette::Cyan,
        Palette::DarkCyan,
        Palette::Brown,
        Palette::DarkBrown,
        Palette::Background,
    ];
    for (c, entry) in all.iter().enumerate() {
        assert_eq!(Palette::from_index(c as i32), Some(*entry));
        assert_eq!(entry.rgb(), color(c as i32));
    }
    assert_eq!(Palette::from_index(9), None);
    assert_eq!(Palette::from_index(-1), None);
    assert_eq!(Palette::Brown.rgb(), Rgb { r: 160, g: 100, b: 0 });
}
