use crate::level::level_in_range;
use crate::prefab::Prefab;
use vstd::array::spec_array_fill_for_copy_type;
use vstd::prelude::*;
use vstd::std_specs::cmp::PartialEqSpecImpl;

verus! {

/// The number of cells along each side of the grid.
pub const MAP_SIDE: usize = 16;

/// The number of cells of the grid.
pub const MAP_SIZE: usize = 256;

/// What a map pattern holds: the height level and the prefab of each cell,
/// row after row.
pub ghost struct Grid {
    pub levels: Seq<i8>,
    pub prefabs: Seq<Prefab>,
}

impl Grid {
    /// The grid in which every cell is at level 0 and holds nothing.
    pub open spec fn blank() -> Grid {
        Grid {
            levels: Seq::new(MAP_SIZE as nat, |i: int| 0i8),
            prefabs: Seq::new(MAP_SIZE as nat, |i: int| Prefab::Empty),
        }
    }

    /// Whether the grid has a level and a prefab for each of its cells.
    pub open spec fn complete(self) -> bool {
        self.levels.len() == MAP_SIZE && self.prefabs.len() == MAP_SIZE
    }

    /// Whether every cell is at a height level between `MIN_LEVEL` and
    /// `MAX_LEVEL`.
    pub open spec fn levels_in_range(self) -> bool {
        forall|i: int| 0 <= i < self.levels.len() ==> level_in_range(#[trigger] self.levels[i] as int)
    }

    /// The place of the cell in row `x` and column `y`, both counted from 0.
    pub open spec fn index_of(x: int, y: int) -> int {
        x * MAP_SIDE + y
    }
}

/// A map of 16 by 16 cells. Each cell has a height level between -50 and 50,
/// 0 being the base height, and a prefab, which says what is placed on it.
#[derive(Debug)]
pub struct MapPattern {
    level_map: [i8; MAP_SIZE],
    prefab_map: [Prefab; MAP_SIZE],
}

impl View for MapPattern {
    type V = Grid;

    closed spec fn view(&self) -> Grid {
        Grid { levels: self.level_map@, prefabs: self.prefab_map@ }
    }
}

impl Default for MapPattern {
    /// The pattern in which every cell is at level 0 and holds nothing.
    fn default() -> (pattern: MapPattern)
        ensures
            pattern@ == Grid::blank(),
            pattern.wf(),
    {
        let level_map = [0i8; MAP_SIZE];
        let prefab_map = [Prefab::Empty; MAP_SIZE];
        assert(level_map@ =~= Grid::blank().levels);
        assert(prefab_map == spec_array_fill_for_copy_type::<Prefab, MAP_SIZE>(Prefab::Empty));
        assert(prefab_map@ =~= Grid::blank().prefabs);
        MapPattern { level_map, prefab_map }
    }
}

impl Clone for MapPattern {
    fn clone(&self) -> (copy: MapPattern)
        ensures
            copy == *self,
    {
        MapPattern { level_map: self.level_map, prefab_map: self.prefab_map }
    }
}

impl PartialEq for MapPattern {
    fn eq(&self, other: &MapPattern) -> (equal: bool) {
        let mut i: usize = 0;
        while i < MAP_SIZE
            invariant
                i <= MAP_SIZE,
                forall|j: int| 0 <= j < i ==> self@.levels[j] == other@.levels[j],
                forall|j: int| 0 <= j < i ==> self@.prefabs[j] == other@.prefabs[j],
            decreases MAP_SIZE - i,
        {
            if self.level_map[i] != other.level_map[i] || self.prefab_map[i] != other.prefab_map[i] {
                return false;
            }
            i += 1;
        }
        assert(self@.levels =~= other@.levels);
        assert(self@.prefabs =~= other@.prefabs);
        true
    }
}

impl PartialEqSpecImpl for MapPattern {
    open spec fn obeys_eq_spec() -> bool {
        true
    }

    open spec fn eq_spec(&self, other: &MapPattern) -> bool {
        self@ == other@
    }
}

impl Eq for MapPattern {

}

impl MapPattern {
    /// The invariant of a pattern: every cell is at a height level between
    /// `MIN_LEVEL` and `MAX_LEVEL`. Only writing through `get_level_map_mut`
    /// can break it.
    pub open spec fn wf(&self) -> bool {
        self@.levels_in_range()
    }

    /// A pattern has a level and a prefab for each of its 256 cells, whatever
    /// was done to it.
    pub proof fn lemma_complete(&self)
        ensures
            self@.complete(),
    {
    }

    /// Two patterns that hold the same are the same pattern.
    pub proof fn lemma_view_injective(&self, other: &MapPattern)
        requires
            self@ == other@,
        ensures
            *self == *other,
    {
        assert(self.level_map =~= other.level_map);
        assert(self.prefab_map =~= other.prefab_map);
    }

    /// Makes a pattern of the given cells.
    pub(crate) fn from_cells(level_map: [i8; MAP_SIZE], prefab_map: [Prefab; MAP_SIZE]) -> (pattern:
        MapPattern)
        ensures
            pattern@ == (Grid { levels: level_map@, prefabs: prefab_map@ }),
    {
        MapPattern { level_map, prefab_map }
    }

    /// Tells whether `index` is the place of a cell.
    pub fn contains_index(index: usize) -> (inside: bool)
        ensures
            inside == (index < MAP_SIZE),
    {
        index < MAP_SIZE
    }

    /// Tells whether row `x`, column `y` is a cell of the grid.
    pub fn contains_cell(x: usize, y: usize) -> (inside: bool)
        ensures
            inside == (x < MAP_SIDE && y < MAP_SIDE),
    {
        x < MAP_SIDE && y < MAP_SIDE
    }

    /// The height levels of the 256 cells, row after row.
    pub fn get_level_map(&self) -> (levels: &[i8])
        ensures
            levels@ == self@.levels,
    {
        &self.level_map
    }

    /// The height levels of the 256 cells, row after row, for writing. What
    /// is written is not examined: to keep every level between `MIN_LEVEL`
    /// and `MAX_LEVEL` is left to the caller.
    pub fn get_level_map_mut(&mut self) -> (levels: &mut [i8])
        ensures
            levels@ == old(self)@.levels,
            final(self)@.levels == final(levels)@,
            final(self)@.prefabs == old(self)@.prefabs,
    {
        &mut self.level_map
    }

    /// The prefabs of the 256 cells, row after row.
    pub fn get_prefab_map(&self) -> (prefabs: &[Prefab])
        ensures
            prefabs@ == self@.prefabs,
    {
        &self.prefab_map
    }

    /// The prefabs of the 256 cells, row after row, for writing.
    pub fn get_prefab_map_mut(&mut self) -> (prefabs: &mut [Prefab])
        ensures
            prefabs@ == old(self)@.prefabs,
            final(self)@.prefabs == final(prefabs)@,
            final(self)@.levels == old(self)@.levels,
    {
        &mut self.prefab_map
    }

    /// Sets the height level of the cell in row `x` and column `y`, both
    /// counted from 0. The cell must lie in the grid and the level between
    /// `MIN_LEVEL` and `MAX_LEVEL`.
    pub fn set_level_at(&mut self, x: usize, y: usize, level: i8)
        requires
            x < MAP_SIDE,
            y < MAP_SIDE,
            level_in_range(level as int),
        ensures
            final(self)@.levels == old(self)@.levels.update(Grid::index_of(x as int, y as int), level),
            final(self)@.prefabs == old(self)@.prefabs,
            old(self).wf() ==> final(self).wf(),
    {
        self.set_level_at_index(x * MAP_SIDE + y, level);
    }

    /// Sets the height level of the cell at `index`, the cells being counted
    /// row after row from 0. The index must be below 256 and the level
    /// between `MIN_LEVEL` and `MAX_LEVEL`: a level below `MIN_LEVEL` is
    /// refused like one above `MAX_LEVEL`.
    pub fn set_level_at_index(&mut self, index: usize, level: i8)
        requires
            index < MAP_SIZE,
            level_in_range(level as int),
        ensures
            final(self)@.levels == old(self)@.levels.update(index as int, level),
            final(self)@.prefabs == old(self)@.prefabs,
            old(self).wf() ==> final(self).wf(),
    {
        self.level_map[index] = level;
    }

    /// Sets the prefab of the cell in row `x` and column `y`, both counted
    /// from 0. The cell must lie in the grid.
    pub fn set_prefab_at(&mut self, x: usize, y: usize, prefab: Prefab)
        requires
            x < MAP_SIDE,
            y < MAP_SIDE,
        ensures
            final(self)@.prefabs == old(self)@.prefabs.update(
                Grid::index_of(x as int, y as int),
                prefab,
            ),
            final(self)@.levels == old(self)@.levels,
            old(self).wf() ==> final(self).wf(),
    {
        self.prefab_map[x * MAP_SIDE + y] = prefab;
        assert(self@.levels == old(self)@.levels);
    }
}

} // verus!
