//! The static terrain of one map: a rectangle-free grid of tiles, indexed by
//! row (y) then column (x).

use vstd::prelude::*;

verus! {

/// One cell of terrain.
#[derive(Clone, Copy, PartialEq, Eq, Structural, Debug)]
pub enum Tile {
    Wall,
    Floor,
    Door,
    Void,
}

pub struct BackgroundMap {
    pub data: Vec<Vec<Tile>>,
}

impl BackgroundMap {
    pub fn data(&self) -> (r: &Vec<Vec<Tile>>)
        ensures
            *r == self.data,
    {
        &self.data
    }

    pub fn get_tile_at(&self, x: u32, y: u32) -> (t: Tile)
        requires
            (y as int) < self.data@.len(),
            (x as int) < self.data@[y as int]@.len(),
        ensures
            t == self.data@[y as int]@[x as int],
    {
        self.data[y as usize][x as usize]
    }
}

} // verus!
