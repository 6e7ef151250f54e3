//! The level: wall segments grouped into sectors, and the loader that
//! reads both from flat lists of numbers.
use vstd::prelude::*;

verus! {

/// Largest magnitude of a world coordinate. Levels and cameras inside this
/// cube can be rendered without any intermediate value leaving its type.
pub const WORLD_LIMIT: i32 = 32768;

/// A wall: a segment between two points of the floor plan, and its colour.
#[derive(Clone, Copy, Debug, PartialEq, Eq, Structural)]
pub struct Wall {
    pub x1: i32,
    pub y1: i32,
    pub x2: i32,
    pub y2: i32,
    pub c: i32,
}

/// A sector: the walls `ws..we` of the level, a floor at height `z1`, a
/// ceiling `z2` above the floor, and the colours of floor (`c1`) and
/// ceiling (`c2`).
#[derive(Clone, Copy, Debug, PartialEq, Eq, Structural)]
pub struct Sector {
    pub ws: usize,
    pub we: usize,
    pub z1: i32,
    pub z2: i32,
    pub c1: i32,
    pub c2: i32,
}

impl Wall {
    /// Both ends lie within `WORLD_LIMIT`.
    pub open spec fn wf(&self) -> bool {
        &&& -WORLD_LIMIT <= self.x1 <= WORLD_LIMIT
        &&& -WORLD_LIMIT <= self.y1 <= WORLD_LIMIT
        &&& -WORLD_LIMIT <= self.x2 <= WORLD_LIMIT
        &&& -WORLD_LIMIT <= self.y2 <= WORLD_LIMIT
    }

    /// Tests `wf`.
    pub fn is_valid(&self) -> (ok: bool)
        ensures
            ok == self.wf(),
    {
        -WORLD_LIMIT <= self.x1 && self.x1 <= WORLD_LIMIT && -WORLD_LIMIT <= self.y1 && self.y1
            <= WORLD_LIMIT && -WORLD_LIMIT <= self.x2 && self.x2 <= WORLD_LIMIT && -WORLD_LIMIT
            <= self.y2 && self.y2 <= WORLD_LIMIT
    }
}

impl Sector {
    /// The ceiling is not below the floor, and both lie within
    /// `WORLD_LIMIT`.
    pub open spec fn heights_wf(&self) -> bool {
        &&& -WORLD_LIMIT <= self.z1
        &&& 0 <= self.z2
        &&& self.z1 + self.z2 <= WORLD_LIMIT
    }

    /// The sector has at least one wall, its walls begin at `start` and
    /// end within the `walls` of the level, and its heights are well
    /// formed.
    pub open spec fn wf(&self, start: int, walls: int) -> bool {
        &&& self.ws == start
        &&& self.ws < self.we <= walls
        &&& self.heights_wf()
    }

    /// Tests `wf`.
    pub fn is_valid(&self, start: usize, walls: usize) -> (ok: bool)
        ensures
            ok == self.wf(start as int, walls as int),
    {
        self.ws == start && self.ws < self.we && self.we <= walls && -WORLD_LIMIT <= self.z1 && 0
            <= self.z2 && self.z1 as i64 + self.z2 as i64 <= WORLD_LIMIT as i64
    }
}

/// Where the walls of sector `i` must begin: at 0, or where the walls of
/// the sector before it end.
pub open spec fn sector_start(sectors: Seq<Sector>, i: int) -> int {
    if i == 0 {
        0
    } else {
        sectors[i - 1].we as int
    }
}

/// Sector `i` is well formed and its walls begin where they must.
pub open spec fn sector_in_place(sectors: Seq<Sector>, i: int, walls: int) -> bool {
    sectors[i].wf(sector_start(sectors, i), walls)
}

/// The sectors divide the walls among them, in order and without a gap,
/// and every wall and sector is well formed.
pub open spec fn valid_level(walls: Seq<Wall>, sectors: Seq<Sector>) -> bool {
    &&& forall|k: int| 0 <= k < walls.len() ==> (#[trigger] walls[k]).wf()
    &&& forall|i: int|
        0 <= i < sectors.len() ==> #[trigger] sector_in_place(sectors, i, walls.len() as int)
    &&& sector_start(sectors, sectors.len() as int) == walls.len()
}

/// A level: walls and the sectors that own them. Immutable once made.
pub struct Geometry {
    walls: Vec<Wall>,
    sectors: Vec<Sector>,
}

impl Geometry {
    /// The walls of the level.
    pub closed spec fn walls(&self) -> Seq<Wall> {
        self.walls@
    }

    /// The sectors of the level.
    pub closed spec fn sectors(&self) -> Seq<Sector> {
        self.sectors@
    }

    /// The level is a `valid_level`.
    pub open spec fn wf(&self) -> bool {
        valid_level(self.walls(), self.sectors())
    }

    /// Makes a level of the given walls and sectors, if they form a
    /// `valid_level`.
    pub fn new(walls: Vec<Wall>, sectors: Vec<Sector>) -> (level: Option<Geometry>)
        ensures
            level.is_some() == valid_level(walls@, sectors@),
            level matches Some(g) ==> g.wf() && g.walls() == walls@ && g.sectors() == sectors@,
    {
        let mut k: usize = 0;
        while k < walls.len()
            invariant
                k <= walls.len(),
                forall|j: int| 0 <= j < k ==> (#[trigger] walls@[j]).wf(),
            decreases walls.len() - k,
        {
            if !walls[k].is_valid() {
                return None;
            }
            k = k + 1;
        }
        let mut start: usize = 0;
        let mut i: usize = 0;
        while i < sectors.len()
            invariant
                i <= sectors.len(),
                start == sector_start(sectors@, i as int),
                forall|j: int|
                    0 <= j < i ==> #[trigger] sector_in_place(sectors@, j, walls@.len() as int),
            decreases sectors.len() - i,
        {
            if !sectors[i].is_valid(start, walls.len()) {
                assert(!sector_in_place(sectors@, i as int, walls@.len() as int));
                return None;
            }
            assert(sector_in_place(sectors@, i as int, walls@.len() as int));
            start = sectors[i].we;
            i = i + 1;
        }
        if start != walls.len() {
            return None;
        }
        Some(Geometry { walls, sectors })
    }

    /// Number of walls.
    pub fn wall_count(&self) -> (n: usize)
        ensures
            n == self.walls().len(),
    {
        self.walls.len()
    }

    /// Number of sectors.
    pub fn sector_count(&self) -> (n: usize)
        ensures
            n == self.sectors().len(),
    {
        self.sectors.len()
    }

    /// Wall number `k`.
    pub fn wall(&self, k: usize) -> (w: Wall)
        requires
            k < self.walls().len(),
        ensures
            w == self.walls()[k as int],
    {
        self.walls[k]
    }

    /// Sector number `i`.
    pub fn sector(&self, i: usize) -> (s: Sector)
        requires
            i < self.sectors().len(),
        ensures
            s == self.sectors()[i as int],
    {
        self.sectors[i]
    }
}

/// The wall that the five numbers from `5 * k` on describe in `data`: x
/// and y of one end, x and y of the other, and the colour.
pub open spec fn parsed_wall(data: Seq<i32>, k: int) -> Wall {
    Wall {
        x1: data[5 * k],
        y1: data[5 * k + 1],
        x2: data[5 * k + 2],
        y2: data[5 * k + 3],
        c: data[5 * k + 4],
    }
}

/// The walls that `data` describes, one for each five numbers.
pub open spec fn parsed_walls(data: Seq<i32>) -> Seq<Wall> {
    Seq::new(data.len() / 5, |k: int| parsed_wall(data, k))
}

/// The six numbers from `6 * i` on can describe a sector: the wall
/// indices are not negative, and floor and ceiling are in order and
/// within `WORLD_LIMIT`.
pub open spec fn sector_record_ok(data: Seq<i32>, i: int) -> bool {
    &&& 0 <= data[6 * i]
    &&& 0 <= data[6 * i + 1]
    &&& -WORLD_LIMIT <= data[6 * i + 2] <= data[6 * i + 3] <= WORLD_LIMIT
}

/// The sector that the six numbers from `6 * i` on describe in `data`:
/// first wall, end of walls, floor, ceiling, floor colour, ceiling colour. The data
/// give the ceiling's height; the sector holds it as a height above the
/// floor.
pub open spec fn parsed_sector(data: Seq<i32>, i: int) -> Sector {
    Sector {
        ws: data[6 * i] as usize,
        we: data[6 * i + 1] as usize,
        z1: data[6 * i + 2],
        z2: (data[6 * i + 3] - data[6 * i + 2]) as i32,
        c1: data[6 * i + 4],
        c2: data[6 * i + 5],
    }
}

/// The sectors that `data` describes, one for each six numbers.
pub open spec fn parsed_sectors(data: Seq<i32>) -> Seq<Sector> {
    Seq::new(data.len() / 6, |i: int| parsed_sector(data, i))
}

/// The two lists describe a level: each is a whole number of records,
/// every sector record is in order, and the walls and sectors that they
/// describe form a `valid_level`.
pub open spec fn valid_level_data(sector_data: Seq<i32>, wall_data: Seq<i32>) -> bool {
    &&& sector_data.len() % 6 == 0
    &&& wall_data.len() % 5 == 0
    &&& forall|i: int|
        0 <= i < sector_data.len() / 6 ==> #[trigger] sector_record_ok(
            sector_data,
            i,
        )
    &&& valid_level(parsed_walls(wall_data), parsed_sectors(sector_data))
}

/// Reads the walls out of level data.
fn load_walls(data: &Vec<i32>) -> (walls: Vec<Wall>)
    requires
        data@.len() % 5 == 0,
    ensures
        walls@ == parsed_walls(data@),
{
    let n: usize = data.len() / 5;
    let mut walls: Vec<Wall> = Vec::new();
    let mut k: usize = 0;
    while k < n
        invariant
            k <= n,
            n == data@.len() / 5,
            data@.len() == 5 * n,
            data@.len() <= usize::MAX,
            walls@.len() == k,
            forall|j: int| 0 <= j < k ==> #[trigger] walls@[j] == parsed_wall(data@, j),
        decreases n - k,
    {
        let at: usize = 5 * k;
        walls.push(
            Wall {
                x1: data[at],
                y1: data[at + 1],
                x2: data[at + 2],
                y2: data[at + 3],
                c: data[at + 4],
            },
        );
        k = k + 1;
    }
    assert(walls@ =~= parsed_walls(data@));
    walls
}

/// Reads the sectors out of level data, if every record is in order.
fn load_sectors(data: &Vec<i32>) -> (sectors: Option<Vec<Sector>>)
    requires
        data@.len() % 6 == 0,
    ensures
        sectors.is_some() == (forall|i: int|
            0 <= i < data@.len() / 6 ==> #[trigger] sector_record_ok(data@, i)),
        sectors matches Some(s) ==> s@ == parsed_sectors(data@),
{
    let n: usize = data.len() / 6;
    let mut sectors: Vec<Sector> = Vec::new();
    let mut i: usize = 0;
    while i < n
        invariant
            i <= n,
            n == data@.len() / 6,
            data@.len() == 6 * n,
            data@.len() <= usize::MAX,
            sectors@.len() == i,
            forall|j: int| 0 <= j < i ==> #[trigger] sector_record_ok(data@, j),
            forall|j: int| 0 <= j < i ==> #[trigger] sectors@[j] == parsed_sector(data@, j),
        decreases n - i,
    {
        let at: usize = 6 * i;
        let ws: i32 = data[at];
        let we: i32 = data[at + 1];
        let floor: i32 = data[at + 2];
        let ceiling: i32 = data[at + 3];
        if ws < 0 || we < 0 || floor < -WORLD_LIMIT || ceiling < floor || ceiling > WORLD_LIMIT {
            assert(!sector_record_ok(data@, i as int));
            return None;
        }
        sectors.push(
            Sector {
                ws: ws as usize,
                we: we as usize,
                z1: floor,
                z2: ceiling - floor,
                c1: data[at + 4],
                c2: data[at + 5],
            },
        );
        i = i + 1;
    }
    assert(sectors@ =~= parsed_sectors(data@));
    Some(sectors)
}

/// Reads a level from two flat lists of numbers: six per sector (first
/// wall, end of walls, floor height, ceiling height, floor colour, ceiling
/// colour) and five per wall (x and y of each end, colour).
///
/// The level is returned exactly when the lists are `valid_level_data`.
pub fn load_level(sector_data: &Vec<i32>, wall_data: &Vec<i32>) -> (level: Option<Geometry>)
    ensures
        level.is_some() == valid_level_data(sector_data@, wall_data@),
        level matches Some(g) ==> g.wf() && g.walls() == parsed_walls(wall_data@) && g.sectors()
            == parsed_sectors(sector_data@),
{
    if sector_data.len() % 6 != 0 || wall_data.len() % 5 != 0 {
        return None;
    }
    let walls: Vec<Wall> = load_walls(wall_data);
    match load_sectors(sector_data) {
        None => None,
        Some(sectors) => Geometry::new(walls, sectors),
    }
}

} // verus!
