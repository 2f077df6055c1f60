//! The in-memory grid model: positions, cell kinds, cells and maps.

use crate::text::{binary8, decimal, push_binary8, push_decimal, push_signed_decimal, signed_decimal};
use crate::tiles::TilesetCache;
use std::sync::Arc;
use vstd::prelude::*;
use vstd::string::StringExecFns;

verus! {

/// A grid coordinate.
#[derive(Debug, Clone, Copy, PartialEq, Eq, Structural)]
pub struct Position {
    pub x: i32,
    pub y: i32,
}

impl Position {
    pub fn new(x: i32, y: i32) -> (p: Self)
        ensures
            p == (Position { x, y }),
    {
        Position { x, y }
    }
}

/// The terrain kinds of a cell. The payload is the record's sub-type byte.
#[derive(Debug, Clone, Copy, PartialEq, Eq, Structural)]
pub enum CellType {
    Normal,
    /// Lava, with its colour variant.
    Lava(u8),
    /// Microbe, with its growth stage.
    Microbe(u8),
    /// Mine; `true` where it is depleted.
    Mine(bool),
    /// Dirt, with its variant.
    Dirt(u8),
    /// Rock, with its variant.
    Rock(u8),
    /// Tube, with the bit mask of its connections.
    Tube(u8),
    /// Wall, with its variant.
    Wall(u8),
}

impl CellType {
    /// The label of a cell kind as a sequence of characters.
    pub open spec fn label(self) -> Seq<char> {
        match self {
            CellType::Normal => "Normal Ground"@,
            CellType::Lava(variant) => "Lava Type "@ + decimal(variant as nat),
            CellType::Microbe(stage) => "Microbe Growth Stage "@ + decimal(stage as nat),
            CellType::Mine(depleted) => if depleted {
                "Mine (Depleted)"@
            } else {
                "Mine (Active)"@
            },
            CellType::Dirt(variant) => "Dirt Type "@ + decimal(variant as nat),
            CellType::Rock(variant) => "Rock Type "@ + decimal(variant as nat),
            CellType::Tube(connections) => "Tube (Connections: "@ + binary8(connections) + ")"@,
            CellType::Wall(variant) => "Wall Type "@ + decimal(variant as nat),
        }
    }

    /// Appends the label of this cell kind to `s`.
    pub fn push_label(&self, s: &mut String)
        ensures
            final(s)@ == old(s)@ + self.label(),
    {
        match *self {
            CellType::Normal => {
                s.append("Normal Ground");
            },
            CellType::Lava(variant) => {
                s.append("Lava Type ");
                push_decimal(s, variant as u64);
                assert(s@ =~= old(s)@ + self.label());
            },
            CellType::Microbe(stage) => {
                s.append("Microbe Growth Stage ");
                push_decimal(s, stage as u64);
                assert(s@ =~= old(s)@ + self.label());
            },
            CellType::Mine(depleted) => {
                if depleted {
                    s.append("Mine (Depleted)");
                } else {
                    s.append("Mine (Active)");
                }
            },
            CellType::Dirt(variant) => {
                s.append("Dirt Type ");
                push_decimal(s, variant as u64);
                assert(s@ =~= old(s)@ + self.label());
            },
            CellType::Rock(variant) => {
                s.append("Rock Type ");
                push_decimal(s, variant as u64);
                assert(s@ =~= old(s)@ + self.label());
            },
            CellType::Tube(connections) => {
                s.append("Tube (Connections: ");
                push_binary8(s, connections);
                s.append(")");
                assert(s@ =~= old(s)@ + self.label());
            },
            CellType::Wall(variant) => {
                s.append("Wall Type ");
                push_decimal(s, variant as u64);
                assert(s@ =~= old(s)@ + self.label());
            },
        }
    }

    /// The label of this cell kind as text.
    pub fn to_string(&self) -> (s: String)
        ensures
            s@ == self.label(),
    {
        let mut s = String::new();
        self.push_label(&mut s);
        assert(Seq::<char>::empty() + self.label() =~= self.label());
        s
    }
}

/// A reference into a tileset image.
#[derive(Debug, Clone)]
pub struct TileInfo {
    pub tileset_name: String,
    pub tile_index: u32,
}

/// What a `TileInfo` stands for: the tileset's name as characters, and the
/// index of the tile in it.
pub struct TileInfoModel {
    pub tileset_name: Seq<char>,
    pub tile_index: u32,
}

impl View for TileInfo {
    type V = TileInfoModel;

    open spec fn view(&self) -> TileInfoModel {
        TileInfoModel { tileset_name: self.tileset_name@, tile_index: self.tile_index }
    }
}

/// One grid unit of the map.
#[derive(Debug, Clone)]
pub struct Cell {
    pub position: Position,
    pub cell_type: CellType,
    pub height: u8,
    pub has_wreckage: bool,
    pub has_unit: bool,
    pub tile_info: Option<TileInfo>,
}

/// What a `Cell` stands for.
pub struct CellModel {
    pub position: Position,
    pub cell_type: CellType,
    pub height: u8,
    pub has_wreckage: bool,
    pub has_unit: bool,
    pub tile_info: Option<TileInfoModel>,
}

impl CellModel {
    /// The cell that a fresh map holds everywhere: normal ground of height 0
    /// at the origin, without flags or tile.
    pub open spec fn blank() -> CellModel {
        CellModel {
            position: Position { x: 0, y: 0 },
            cell_type: CellType::Normal,
            height: 0,
            has_wreckage: false,
            has_unit: false,
            tile_info: None,
        }
    }

    /// The lines that describe a cell.
    pub open spec fn description(self) -> Seq<char> {
        "Position: ("@ + signed_decimal(self.position.x as int) + ", "@ + signed_decimal(
            self.position.y as int,
        ) + ")\nType: "@ + self.cell_type.label() + "\nHeight: "@ + decimal(self.height as nat)
            + "\n"@ + (if self.has_wreckage {
            "Contains wreckage\n"@
        } else {
            Seq::<char>::empty()
        }) + (if self.has_unit {
            "Contains unit\n"@
        } else {
            Seq::<char>::empty()
        })
    }
}

impl View for Cell {
    type V = CellModel;

    open spec fn view(&self) -> CellModel {
        CellModel {
            position: self.position,
            cell_type: self.cell_type,
            height: self.height,
            has_wreckage: self.has_wreckage,
            has_unit: self.has_unit,
            tile_info: match self.tile_info {
                Some(t) => Some(t@),
                None => None,
            },
        }
    }
}

impl Cell {
    /// A cell of the given kind and height, without flags or tile.
    pub fn new(position: Position, cell_type: CellType, height: u8) -> (c: Self)
        ensures
            c@ == (CellModel {
                position,
                cell_type,
                height,
                has_wreckage: false,
                has_unit: false,
                tile_info: None,
            }),
    {
        Cell { position, cell_type, height, has_wreckage: false, has_unit: false, tile_info: None }
    }

    /// The description of the cell, one fact per line.
    pub fn description(&self) -> (s: String)
        ensures
            s@ == self@.description(),
    {
        let mut s = String::new();
        s.append("Position: (");
        push_signed_decimal(&mut s, self.position.x);
        s.append(", ");
        push_signed_decimal(&mut s, self.position.y);
        s.append(")\nType: ");
        self.cell_type.push_label(&mut s);
        s.append("\nHeight: ");
        push_decimal(&mut s, self.height as u64);
        s.append("\n");
        let ghost before_flags = s@;
        if self.has_wreckage {
            s.append("Contains wreckage\n");
        }
        let ghost before_unit = s@;
        if self.has_unit {
            s.append("Contains unit\n");
        }
        proof {
            let e = Seq::<char>::empty();
            assert(before_flags =~= "Position: ("@ + signed_decimal(self.position.x as int)
                + ", "@ + signed_decimal(self.position.y as int) + ")\nType: "@
                + self.cell_type.label() + "\nHeight: "@ + decimal(self.height as nat) + "\n"@);
            assert(before_flags + e =~= before_flags);
            assert(before_unit + e =~= before_unit);
        }
        s
    }
}

/// The dimensions of a map and what is told about it.
#[derive(Debug, Clone)]
pub struct MapInfo {
    pub width: u32,
    pub height: u32,
    pub name: String,
    pub description: String,
    pub author: String,
    pub requirements: Vec<String>,
}

/// What a `MapInfo` stands for.
pub struct MapInfoModel {
    pub width: u32,
    pub height: u32,
    pub name: Seq<char>,
    pub description: Seq<char>,
    pub author: Seq<char>,
    pub requirements: Seq<Seq<char>>,
}

impl View for MapInfo {
    type V = MapInfoModel;

    open spec fn view(&self) -> MapInfoModel {
        MapInfoModel {
            width: self.width,
            height: self.height,
            name: self.name@,
            description: self.description@,
            author: self.author@,
            requirements: Seq::new(self.requirements@.len(), |i: int| self.requirements@[i]@),
        }
    }
}

impl MapInfoModel {
    /// An empty map without a name.
    pub open spec fn empty() -> MapInfoModel {
        MapInfoModel {
            width: 0,
            height: 0,
            name: Seq::empty(),
            description: Seq::empty(),
            author: Seq::empty(),
            requirements: Seq::empty(),
        }
    }
}

impl Default for MapInfo {
    fn default() -> (info: Self)
        ensures
            info@ == MapInfoModel::empty(),
    {
        let info = MapInfo {
            width: 0,
            height: 0,
            name: String::new(),
            description: String::new(),
            author: String::new(),
            requirements: Vec::new(),
        };
        assert(info@.requirements =~= Seq::empty());
        info
    }
}

/// A map: its dimensions, its grid of cells, indexed by row, then column, and
/// the tile images that it is drawn with, where some were attached. The
/// images are shared with whoever else holds the cache.
#[derive(Clone)]
pub struct TileMap {
    pub info: MapInfo,
    pub cells: Vec<Vec<Cell>>,
    pub tileset_cache: Option<Arc<TilesetCache>>,
}

/// What a `TileMap` stands for: its dimensions and texts, and its rows of
/// cells.
pub struct MapModel {
    pub info: MapInfoModel,
    pub cells: Seq<Seq<CellModel>>,
}

/// What rows of cells stand for.
pub open spec fn grid_view(rows: Seq<Vec<Cell>>) -> Seq<Seq<CellModel>> {
    Seq::new(rows.len(), |y: int| Seq::new(rows[y]@.len(), |x: int| rows[y]@[x]@))
}

impl View for TileMap {
    type V = MapModel;

    open spec fn view(&self) -> MapModel {
        MapModel { info: self.info@, cells: grid_view(self.cells@) }
    }
}

impl TileMap {
    /// The grid has `info.height` rows of `info.width` cells each.
    pub open spec fn wf(&self) -> bool {
        &&& self.cells@.len() == self.info.height
        &&& forall|y: int| 0 <= y < self.cells@.len() ==> (#[trigger] self.cells@[y])@.len()
            == self.info.width
    }

    /// `(x, y)` names a cell of the grid.
    pub open spec fn in_grid(&self, x: int, y: int) -> bool {
        0 <= y < self.cells@.len() && 0 <= x < self.cells@[y]@.len()
    }

    /// The cell at column `x` of row `y`.
    pub open spec fn cell_at(&self, x: int, y: int) -> CellModel
        recommends
            self.in_grid(x, y),
    {
        self.cells@[y]@[x]@
    }

    /// Every cell of the grid is the blank cell.
    pub open spec fn all_blank(&self) -> bool {
        forall|x: int, y: int|
            self.in_grid(x, y) ==> #[trigger] self.cell_at(x, y) == CellModel::blank()
    }

    /// A map of the given dimensions in which every cell is blank, without
    /// tile images.
    pub fn new(info: MapInfo) -> (m: Self)
        ensures
            m.info == info,
            m.wf(),
            m.all_blank(),
            m.tileset_cache is None,
    {
        let mut cells: Vec<Vec<Cell>> = Vec::new();
        let mut y: u32 = 0;
        while y < info.height
            invariant
                y <= info.height,
                cells@.len() == y,
                forall|j: int| 0 <= j < cells@.len() ==> (#[trigger] cells@[j])@.len() == info.width,
                forall|i: int, j: int|
                    0 <= j < cells@.len() && 0 <= i < cells@[j]@.len() ==> (
                    #[trigger] cells@[j]@[i])@ == CellModel::blank(),
            decreases info.height - y,
        {
            let mut row: Vec<Cell> = Vec::new();
            let mut x: u32 = 0;
            while x < info.width
                invariant
                    x <= info.width,
                    row@.len() == x,
                    forall|i: int| 0 <= i < row@.len() ==> (#[trigger] row@[i])@ == CellModel::blank(),
                decreases info.width - x,
            {
                row.push(Cell::new(Position::new(0, 0), CellType::Normal, 0));
                x = x + 1;
            }
            cells.push(row);
            y = y + 1;
        }
        TileMap { info, cells, tileset_cache: None }
    }

    /// The cell at `(x, y)`, or `None` where the grid has no such cell.
    pub fn get_cell(&self, x: i32, y: i32) -> (r: Option<&Cell>)
        ensures
            self.in_grid(x as int, y as int) ==> r == Some(&self.cells@[y as int]@[x as int]),
            !self.in_grid(x as int, y as int) ==> r is None,
            self.wf() ==> (r is Some <==> 0 <= x < self.info.width && 0 <= y < self.info.height),
    {
        if x < 0 || y < 0 {
            return None;
        }
        let row_index = y as usize;
        let column = x as usize;
        if row_index >= self.cells.len() {
            return None;
        }
        let row = &self.cells[row_index];
        if column >= row.len() {
            return None;
        }
        Some(&row[column])
    }

    /// The cell at `(x, y)` for writing, or `None` where the grid has no such
    /// cell. Writing through the result changes that cell and no other.
    pub fn get_cell_mut(&mut self, x: i32, y: i32) -> (r: Option<&mut Cell>)
        ensures
            !old(self).in_grid(x as int, y as int) ==> r is None && *final(self) == *old(self),
            old(self).in_grid(x as int, y as int) ==> {
                &&& r matches Some(c)
                &&& *c == old(self).cells@[y as int]@[x as int]
                &&& final(self).info == old(self).info
                &&& final(self).tileset_cache == old(self).tileset_cache
                &&& final(self).cells@.len() == old(self).cells@.len()
                &&& forall|j: int|
                    0 <= j < old(self).cells@.len() && j != y ==> #[trigger] final(self).cells@[j]
                        == old(self).cells@[j]
                &&& final(self).cells@[y as int]@ == old(self).cells@[y as int]@.update(
                    x as int,
                    *final(c),
                )
            },
    {
        if x < 0 || y < 0 {
            return None;
        }
        let row_index = y as usize;
        let column = x as usize;
        if row_index >= self.cells.len() {
            return None;
        }
        if column >= self.cells[row_index].len() {
            return None;
        }
        Some(&mut self.cells[row_index][column])
    }

    /// Attaches the tile images that the map is drawn with, in place of those
    /// attached before.
    pub fn set_tileset_cache(&mut self, cache: Arc<TilesetCache>)
        ensures
            final(self).tileset_cache == Some(cache),
            final(self).info == old(self).info,
            final(self).cells == old(self).cells,
    {
        self.tileset_cache = Some(cache);
    }
}

} // verus!
