use vstd::prelude::*;

verus! {

/// Side length of a square chunk of cells.
pub const CHUNK_SIDE: usize = 32;

/// One square of the world map.
#[derive(Clone, Copy, PartialEq, Eq, Structural, Debug)]
pub struct Cell {
    terrain: i32,
    basic: i32,
    structural: i32,
}

/// A square block of cells, stored row by row.
pub type Chunk = [[Cell; 32]; 32];

impl Cell {
    /// The cell every new chunk is filled with.
    pub closed spec fn fresh() -> Cell {
        Cell { terrain: 0, basic: 1, structural: 2 }
    }

    fn new() -> (r: Cell)
        ensures
            r == Cell::fresh(),
    {
        Cell { terrain: 0, basic: 1, structural: 2 }
    }
}

/// Every cell of `c` is a fresh one.
pub open spec fn chunk_is_fresh(c: Chunk) -> bool {
    forall|i: int, j: int| 0 <= i < 32 && 0 <= j < 32 ==> #[trigger] c@[i]@[j] == Cell::fresh()
}

/// The world map: a growing list of chunks.
pub struct WorldMap {
    pub data: Vec<Chunk>,
}

impl WorldMap {
    fn new() -> (r: WorldMap)
        ensures
            r.data@.len() == 0,
    {
        WorldMap { data: Vec::new() }
    }

    /// Appends a chunk of fresh cells.
    pub fn create_chunk(&mut self)
        ensures
            final(self).data@.len() == old(self).data@.len() + 1,
            final(self).data@.take(old(self).data@.len() as int) == old(self).data@,
            chunk_is_fresh(final(self).data@.last()),
    {
        let cell = Cell::new();
        let row: [Cell; 32] = [cell; 32];
        let chunk: Chunk = [row; 32];
        assert(chunk_is_fresh(chunk));
        self.data.push(chunk);
        assert(self.data@.take(old(self).data@.len() as int) =~= old(self).data@);
    }
}

/// The world as the server holds it.
pub struct GameState {
    pub map: WorldMap,
}

impl GameState {
    pub fn new() -> (r: GameState)
        ensures
            r.map.data@.len() == 0,
    {
        GameState { map: WorldMap::new() }
    }
}

} // verus!
