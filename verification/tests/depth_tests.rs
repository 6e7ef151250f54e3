use doomlike::camera::Player;
use doomlike::depth::{dist, measure_level, measure_sector, sort_by_depth};
use doomlike::trig::TrigTable;
use doomlike::world::load_level;

fn table() -> TrigTable {
    let fixed = |v: f64| (v * 65536.0).round() as i32;
    let cos: Vec<i32> = (0..360).map(|a| fixed((a as f64).to_radians().cos())).collect();
    let sin: Vec<i32> = (0..360).map(|a| fixed((a as f64).to_radians().sin())).collect();
    TrigTable::new(cos, sin).expect("rounded entries form a table")
}

fn demo_sectors() -> Vec<i32> {
    vec![0, 4, 0, 40, 2, 3, 4, 8, 0, 40, 4, 5, 8, 12, 0, 40, 6, 7, 12, 16, 0, 40, 0, 1]
}

fn demo_walls() -> Vec<i32> {
    vec![
        0, 0, 32, 0, 0, 32, 0, 32, 32, 1, 32, 32, 0, 32, 0, 0, 32, 0, 0, 1, 64, 0, 96, 0, 2, 96,
        0, 96, 32, 3, 96, 32, 64, 32, 2, 64, 32, 64, 0, 3, 64, 64, 96, 64, 4, 96, 64, 96, 96, 5,
        96, 96, 64, 96, 4, 64, 96, 64, 64, 5, 0, 64, 32, 64, 6, 32, 64, 32, 96, 7, 32, 96, 0, 96,
        6, 0, 96, 0, 64, 7,
    ]
}

#[test]
fn dist_is_the_squared_distance() {
    assert_eq!(dist(0, 0, 3, 4), 25);
    assert_eq!(dist(3, 4, 0, 0), 25);
    assert_eq!(dist(-1, -1, -1, -1), 0);
    assert_eq!(dist(1, 2, 4, 6), 25);
}

#[test]
fn dist_takes_the_whole_range() {
    let side: i128 = (1 << 32) - 1;
    assert_eq!(dist(i32::MIN, i32::MIN, i32::MAX, i32::MAX), 2 * side * side);
}

#[test]
fn depth_of_a_square_sector() {
    // walls at 100 and 132 ahead, 16 to either side: the middles lie at
    // (0, 100), (16, 116), (0, 132), (-16, 116)
    let level = load_level(
        &vec![0, 4, 0, 40, 2, 3],
        &vec![
            -16, 100, 16, 100, 0, 16, 100, 16, 132, 1, 16, 132, -16, 132, 0, -16, 132, -16, 100,
            1,
        ],
    )
    .expect("a valid level");
    let player = Player { x: 0, y: 0, z: 20, a: 0, l: 0 };
    let sum = 100 * 100 + (16 * 16 + 116 * 116) + 132 * 132 + (16 * 16 + 116 * 116);
    assert_eq!(measure_sector(&level, 0, &player, &table()), sum / 4);
    assert_eq!(measure_sector(&level, 0, &player, &table()), 13712);
}

#[test]
fn depths_of_the_demo_level() {
    let level = load_level(&demo_sectors(), &demo_walls()).expect("a valid level");
    let math = table();
    let player = Player { x: 70, y: -110, z: 20, a: 0, l: 0 };
    assert_eq!(measure_level(&level, &player, &math), vec![19048, 16232, 36456, 39272]);
    let turned = Player { x: 70, y: -110, z: -20, a: 350, l: -5 };
    assert_eq!(measure_level(&level, &turned, &math), vec![18733, 15979, 36060, 39052]);
    let inside = Player { x: 48, y: 48, z: 20, a: 45, l: 0 };
    assert_eq!(measure_level(&level, &inside, &math), vec![2233, 2233, 2233, 2233]);
}

#[test]
fn order_is_descending() {
    assert_eq!(sort_by_depth(&vec![19048, 16232, 36456, 39272]), vec![3, 2, 0, 1]);
    assert_eq!(sort_by_depth(&vec![1, 2, 3, 4, 5]), vec![4, 3, 2, 1, 0]);
    assert_eq!(sort_by_depth(&vec![5, 4, 3, 2, 1]), vec![0, 1, 2, 3, 4]);
    assert_eq!(sort_by_depth(&vec![50, 100]), vec![1, 0]);
    assert_eq!(sort_by_depth(&vec![100, 50]), vec![0, 1]);
}

#[test]
fn order_is_stable() {
    assert_eq!(sort_by_depth(&vec![7, 7, 7, 7]), vec![0, 1, 2, 3]);
    assert_eq!(sort_by_depth(&vec![50, 100, 50, 100]), vec![1, 3, 0, 2]);
    assert_eq!(sort_by_depth(&vec![0, 9, 0, 9, 0]), vec![1, 3, 0, 2, 4]);
}

#[test]
fn order_of_nothing_and_of_one() {
    assert_eq!(sort_by_depth(&Vec::new()), Vec::<usize>::new());
    assert_eq!(sort_by_depth(&vec![-3]), vec![0]);
}

#[test]
fn deeper_sectors_come_first_for_every_pair() {
    let depths: Vec<i64> = vec![12, 5, 12, 99, 0, 5, 5, 73, 12, 1];
    let order = sort_by_depth(&depths);
    assert_eq!(order.len(), depths.len());
    let place = |s: usize| order.iter().position(|&o| o == s).expect("every sector is in it");
    for a in 0..depths.len() {
        for b in 0..depths.len() {
            if depths[a] > depths[b] || (depths[a] == depths[b] && a < b) {
                assert!(place(a) < place(b));
            }
        }
    }
}
