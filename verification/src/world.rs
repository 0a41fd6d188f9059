use crate::game::{Dimension, LevelType};
use vstd::prelude::*;

verus! {

/// A world's block storage; empty until terrain is modeled.
pub struct Chunk {}

/// One dimension's world.
pub struct World {
    pub dimension: Dimension,
    pub level_type: LevelType,
    pub chunk: Chunk,
}

impl World {
    pub fn new(dimension: Dimension, level_type: LevelType) -> (r: World)
        ensures
            r.dimension == dimension,
            r.level_type == level_type,
    {
        World { dimension, level_type, chunk: Chunk {  } }
    }
}

} // verus!
