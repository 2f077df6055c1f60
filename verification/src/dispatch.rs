//! The choice of a decoder for a stream, and the fallback on a map-format
//! library outside this crate where the sample format does not fit.

use crate::classify::{determine_cell_properties, placeholder_type, tile_of};
use crate::error::{Fault, MapLoadError};
use crate::loader::{
    agrees, has_form2_magic, load_form2_map, load_sample_map, sample_decode, size_description,
    size_text, strict_decode,
};
use crate::types::{
    grid_view, Cell, CellModel, CellType, MapInfo, MapInfoModel, MapModel, Position, TileMap,
};
use vstd::prelude::*;
use vstd::string::StringExecFns;

verus! {

/// What the outside map-format library tells of a map that it has loaded: the
/// dimensions and, row by row, whether it hands out the cell.
#[derive(Debug, Clone)]
pub struct Op2MapData {
    pub width: u32,
    pub height: u32,
    pub readable: Vec<Vec<bool>>,
}

impl Op2MapData {
    /// The library hands out the cell at `(x, y)`. A cell that the rows do
    /// not tell of counts as withheld.
    pub open spec fn is_readable(&self, x: int, y: int) -> bool {
        &&& 0 <= y < self.readable@.len()
        &&& 0 <= x < self.readable@[y]@.len()
        &&& self.readable@[y]@[x]
    }

    /// Whether the library hands out the cell at `(x, y)`.
    pub fn cell_readable(&self, x: u32, y: u32) -> (b: bool)
        ensures
            b == self.is_readable(x as int, y as int),
    {
        let row_index = y as usize;
        let column = x as usize;
        if row_index >= self.readable.len() {
            return false;
        }
        let row = &self.readable[row_index];
        column < row.len() && row[column]
    }
}

/// The cell that stands in at `(x, y)` for one that the library hands out:
/// its kind is chosen by the position alone, its height is 0, its flags are
/// clear.
pub open spec fn placeholder_cell(x: int, y: int) -> CellModel {
    let cell_type = placeholder_type(x as u32, y as u32);
    CellModel {
        position: Position { x: x as i32, y: y as i32 },
        cell_type,
        height: 0,
        has_wreckage: false,
        has_unit: false,
        tile_info: Some(tile_of(cell_type)),
    }
}

/// The map made of what the library tells: named after the file, or
/// "Unnamed Map" where the file gives no name; a placeholder wherever the
/// library hands out a cell, a blank cell elsewhere, and blank cells
/// throughout where a dimension is beyond the addressable range.
pub open spec fn delegated_map(op2: Op2MapData, file_stem: Option<Seq<char>>) -> MapModel {
    MapModel {
        info: MapInfoModel {
            width: op2.width,
            height: op2.height,
            name: match file_stem {
                Some(stem) => stem,
                None => "Unnamed Map"@,
            },
            description: size_text(op2.width, op2.height),
            author: Seq::empty(),
            requirements: Seq::empty(),
        },
        cells: Seq::new(
            op2.height as nat,
            |y: int|
                Seq::new(
                    op2.width as nat,
                    |x: int|
                        if op2.width <= i32::MAX && op2.height <= i32::MAX && op2.is_readable(
                            x,
                            y,
                        ) {
                            placeholder_cell(x, y)
                        } else {
                            CellModel::blank()
                        },
                ),
        ),
    }
}

/// The text of an optional name.
pub open spec fn stem_text(file_stem: Option<&str>) -> Option<Seq<char>> {
    match file_stem {
        Some(stem) => Some(stem@),
        None => None,
    }
}

/// Makes a map of what the outside library tells of one.
pub fn convert_op2_map(op2: &Op2MapData, file_stem: Option<&str>) -> (r: Result<
    TileMap,
    MapLoadError,
>)
    ensures
        r matches Ok(map) && map@ == delegated_map(*op2, stem_text(file_stem)) && map.wf()
            && map.tileset_cache is None,
{
    let width = op2.width;
    let height = op2.height;
    let name = match file_stem {
        Some(stem) => String::from_str(stem),
        None => String::from_str("Unnamed Map"),
    };
    let info = MapInfo {
        width,
        height,
        name,
        description: size_description(width, height),
        author: String::new(),
        requirements: Vec::new(),
    };
    assert(info@.requirements =~= Seq::empty());
    let ghost target = delegated_map(*op2, stem_text(file_stem));
    if width > i32::MAX as u32 || height > i32::MAX as u32 {
        let map = TileMap::new(info);
        proof {
            assert forall|y: int| 0 <= y < map@.cells.len() implies #[trigger] map@.cells[y]
                == target.cells[y] by {
                assert(map.cells@[y]@.len() == width);
                assert forall|x: int| 0 <= x < map@.cells[y].len() implies #[trigger] map@.cells[y][x]
                    == target.cells[y][x] by {
                    assert(map.in_grid(x, y));
                    assert(map.cell_at(x, y) == CellModel::blank());
                }
                assert(map@.cells[y] =~= target.cells[y]);
            }
            assert(map@.cells =~= target.cells);
        }
        return Ok(map);
    }
    let mut cells: Vec<Vec<Cell>> = Vec::new();
    let mut y: u32 = 0;
    while y < height
        invariant
            width == op2.width,
            height == op2.height,
            width <= i32::MAX,
            height <= i32::MAX,
            target == delegated_map(*op2, stem_text(file_stem)),
            y <= height,
            cells@.len() == y,
            forall|yy: int| 0 <= yy < y ==> (#[trigger] cells@[yy])@.len() == width,
            forall|yy: int, xx: int|
                0 <= yy < y && 0 <= xx < width ==> (#[trigger] cells@[yy]@[xx])@
                    == target.cells[yy][xx],
        decreases height - y,
    {
        let mut row: Vec<Cell> = Vec::new();
        let mut x: u32 = 0;
        while x < width
            invariant
                width == op2.width,
                height == op2.height,
                width <= i32::MAX,
                height <= i32::MAX,
                target == delegated_map(*op2, stem_text(file_stem)),
                y < height,
                x <= width,
                row@.len() == x,
                forall|xx: int| 0 <= xx < x ==> (#[trigger] row@[xx])@ == target.cells[y as int][xx],
            decreases width - x,
        {
            let cell = if op2.cell_readable(x, y) {
                let (cell_type, tile) = determine_cell_properties(x, y);
                Cell {
                    position: Position::new(x as i32, y as i32),
                    cell_type,
                    height: 0,
                    has_wreckage: false,
                    has_unit: false,
                    tile_info: Some(tile),
                }
            } else {
                Cell::new(Position::new(0, 0), CellType::Normal, 0)
            };
            assert(cell@ == target.cells[y as int][x as int]);
            row.push(cell);
            x = x + 1;
        }
        cells.push(row);
        y = y + 1;
    }
    let map = TileMap { info, cells, tileset_cache: None };
    assert(map@.cells =~~= target.cells);
    Ok(map)
}

/// How the first stage of loading ends.
pub enum LoadStep {
    /// The stream was decoded, or it is in the strict format and has a fault:
    /// this is the outcome of loading.
    Done(Result<TileMap, MapLoadError>),
    /// The stream is not in the strict format, and the sample format does not
    /// fit it, for the reason given: the outside library decides.
    Delegate(MapLoadError),
}

/// What the first stage of loading makes of a stream.
pub enum Route {
    /// The outcome of loading.
    Final(Result<MapModel, Fault>),
    /// The outside library decides; the fault is that of the sample format.
    Delegated(Fault),
}

/// The route of a stream. One that begins with the magic tag is read in the
/// strict format, and what the strict decoder says is final. Any other is
/// read in the sample format; where that fails, the outside library decides.
pub open spec fn route_of(s: Seq<u8>) -> Route {
    if s.len() >= 8 && has_form2_magic(s) {
        Route::Final(strict_decode(s))
    } else {
        match sample_decode(s) {
            Ok(m) => Route::Final(Ok(m)),
            Err(f) => Route::Delegated(f),
        }
    }
}

/// The first stage of loading a map: picks the decoder by the first bytes of
/// the stream and runs it.
pub fn load_map(bytes: &[u8]) -> (step: LoadStep)
    ensures
        match route_of(bytes@) {
            Route::Final(expected) => step matches LoadStep::Done(r) && agrees(r, expected),
            Route::Delegated(f) => step matches LoadStep::Delegate(e) && e.reports(f),
        },
{
    if bytes.len() >= 8 && bytes[0] == 70 && bytes[1] == 79 && bytes[2] == 82 && bytes[3] == 77
        && bytes[4] == 50 {
        return LoadStep::Done(load_form2_map(bytes));
    }
    match load_sample_map(bytes) {
        Ok(map) => LoadStep::Done(Ok(map)),
        Err(e) => LoadStep::Delegate(e),
    }
}

/// The last stage of loading a map, for a stream that was handed to the
/// outside library: the map made of what the library tells, or the library's
/// error, whatever the sample format's fault was.
pub fn finish_delegated(outcome: Result<Op2MapData, String>, file_stem: Option<&str>) -> (r: Result<
    TileMap,
    MapLoadError,
>)
    ensures
        match outcome {
            Ok(op2) => r matches Ok(map) && map@ == delegated_map(op2, stem_text(file_stem))
                && map.wf() && map.tileset_cache is None,
            Err(message) => r matches Err(MapLoadError::Op2UtilityError(text)) && text@
                == message@,
        },
{
    match outcome {
        Ok(op2) => convert_op2_map(&op2, file_stem),
        Err(message) => Err(MapLoadError::Op2UtilityError(message)),
    }
}

} // verus!
