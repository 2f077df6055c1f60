//! The cell classifier: from the kind byte and the sub-type byte of a cell
//! record to the kind of the cell and the tile that shows it.

use crate::types::{CellType, TileInfo, TileInfoModel};
use vstd::prelude::*;
use vstd::string::StringExecFns;

verus! {

/// How the kind byte of a record is read.
#[derive(Debug, Clone, Copy, PartialEq, Eq, Structural)]
pub enum ClassifyPolicy {
    /// The kind byte must be one of the eight kinds; the sub-type byte is
    /// taken as it is.
    Exact,
    /// The kind byte is reduced modulo 8, and the sub-type byte to the range
    /// of its kind.
    Tolerant,
}

/// The kind numbered `kind`, with `payload` as its sub-type.
pub open spec fn kind_of(kind: int, payload: u8) -> CellType
    recommends
        0 <= kind < 8,
{
    if kind == 0 {
        CellType::Normal
    } else if kind == 1 {
        CellType::Dirt(payload)
    } else if kind == 2 {
        CellType::Lava(payload)
    } else if kind == 3 {
        CellType::Microbe(payload)
    } else if kind == 4 {
        CellType::Mine(payload != 0)
    } else if kind == 5 {
        CellType::Rock(payload)
    } else if kind == 6 {
        CellType::Tube(payload)
    } else {
        CellType::Wall(payload)
    }
}

/// The kind of a record under the exact policy: none where the kind byte is
/// beyond 7.
pub open spec fn exact_type(type_byte: u8, subtype_byte: u8) -> Option<CellType> {
    if type_byte <= 7 {
        Some(kind_of(type_byte as int, subtype_byte))
    } else {
        None
    }
}

/// The sub-type that the tolerant policy keeps: the connection mask of a
/// tube and the flag of a mine as they are, every other variant modulo 3.
pub open spec fn tolerant_payload(kind: int, subtype_byte: u8) -> u8 {
    if kind == 4 || kind == 6 {
        subtype_byte
    } else {
        (subtype_byte % 3) as u8
    }
}

/// The kind of a record under the tolerant policy.
pub open spec fn tolerant_type(type_byte: u8, subtype_byte: u8) -> CellType {
    kind_of(type_byte as int % 8, tolerant_payload(type_byte as int % 8, subtype_byte))
}

/// The kind of a record under `policy`.
pub open spec fn classified(policy: ClassifyPolicy, type_byte: u8, subtype_byte: u8) -> Option<
    CellType,
> {
    match policy {
        ClassifyPolicy::Exact => exact_type(type_byte, subtype_byte),
        ClassifyPolicy::Tolerant => Some(tolerant_type(type_byte, subtype_byte)),
    }
}

/// The tile table: the tileset of each kind, and the tile in it. Each kind
/// has a tileset of its own.
pub open spec fn tile_of(cell_type: CellType) -> TileInfoModel {
    match cell_type {
        CellType::Normal => TileInfoModel { tileset_name: "well0005"@, tile_index: 0 },
        CellType::Dirt(variant) => TileInfoModel {
            tileset_name: "well0002"@,
            tile_index: (variant % 3) as u32,
        },
        CellType::Lava(variant) => TileInfoModel {
            tileset_name: "well0004"@,
            tile_index: (variant % 3) as u32,
        },
        CellType::Microbe(stage) => TileInfoModel {
            tileset_name: "well0003"@,
            tile_index: (stage % 3) as u32,
        },
        CellType::Mine(depleted) => TileInfoModel {
            tileset_name: "well0000"@,
            tile_index: if depleted {
                1
            } else {
                0
            },
        },
        CellType::Rock(variant) => TileInfoModel {
            tileset_name: "well0001"@,
            tile_index: (variant % 3) as u32,
        },
        CellType::Tube(connections) => TileInfoModel {
            tileset_name: "well0012"@,
            tile_index: (connections % 4) as u32,
        },
        CellType::Wall(variant) => TileInfoModel {
            tileset_name: "well0006"@,
            tile_index: (variant % 3 + 1) as u32,
        },
    }
}

/// The kind that stands in for a cell whose record cannot be read: chosen by
/// the position alone, `(x + y) mod 8`.
pub open spec fn placeholder_type(x: u32, y: u32) -> CellType {
    let pattern = (x + y) % 8;
    if pattern == 0 {
        CellType::Rock(0)
    } else if pattern == 1 {
        CellType::Dirt(1)
    } else if pattern == 2 {
        CellType::Lava(2)
    } else if pattern == 3 {
        CellType::Microbe(1)
    } else if pattern == 4 {
        CellType::Mine(false)
    } else if pattern == 5 {
        CellType::Tube(0)
    } else if pattern == 6 {
        CellType::Wall(0)
    } else {
        CellType::Normal
    }
}

/// The tile of a kind, by the tile table.
pub fn get_tile_info_for_cell_type(cell_type: &CellType) -> (tile: TileInfo)
    ensures
        tile@ == tile_of(*cell_type),
{
    match *cell_type {
        CellType::Normal => TileInfo { tileset_name: String::from_str("well0005"), tile_index: 0 },
        CellType::Dirt(variant) => TileInfo {
            tileset_name: String::from_str("well0002"),
            tile_index: (variant % 3) as u32,
        },
        CellType::Lava(variant) => TileInfo {
            tileset_name: String::from_str("well0004"),
            tile_index: (variant % 3) as u32,
        },
        CellType::Microbe(stage) => TileInfo {
            tileset_name: String::from_str("well0003"),
            tile_index: (stage % 3) as u32,
        },
        CellType::Mine(depleted) => TileInfo {
            tileset_name: String::from_str("well0000"),
            tile_index: if depleted {
                1
            } else {
                0
            },
        },
        CellType::Rock(variant) => TileInfo {
            tileset_name: String::from_str("well0001"),
            tile_index: (variant % 3) as u32,
        },
        CellType::Tube(connections) => TileInfo {
            tileset_name: String::from_str("well0012"),
            tile_index: (connections % 4) as u32,
        },
        CellType::Wall(variant) => TileInfo {
            tileset_name: String::from_str("well0006"),
            tile_index: (variant % 3) as u32 + 1,
        },
    }
}

/// The kind numbered `kind`, with `payload` as its sub-type.
fn kind_from(kind: u8, payload: u8) -> (cell_type: CellType)
    requires
        kind < 8,
    ensures
        cell_type == kind_of(kind as int, payload),
{
    if kind == 0 {
        CellType::Normal
    } else if kind == 1 {
        CellType::Dirt(payload)
    } else if kind == 2 {
        CellType::Lava(payload)
    } else if kind == 3 {
        CellType::Microbe(payload)
    } else if kind == 4 {
        CellType::Mine(payload != 0)
    } else if kind == 5 {
        CellType::Rock(payload)
    } else if kind == 6 {
        CellType::Tube(payload)
    } else {
        CellType::Wall(payload)
    }
}

/// Classifies one record under `policy`: its kind, and the tile of that kind.
/// Under the exact policy a kind byte beyond 7 has no kind; under the
/// tolerant policy every record has one.
pub fn classify(policy: ClassifyPolicy, type_byte: u8, subtype_byte: u8) -> (r: Option<
    (CellType, TileInfo),
>)
    ensures
        match classified(policy, type_byte, subtype_byte) {
            Some(cell_type) => r matches Some(pair) && pair.0 == cell_type && pair.1@ == tile_of(
                cell_type,
            ),
            None => r is None,
        },
{
    let cell_type = match policy {
        ClassifyPolicy::Exact => {
            if type_byte > 7 {
                return None;
            }
            kind_from(type_byte, subtype_byte)
        },
        ClassifyPolicy::Tolerant => {
            let kind = type_byte % 8;
            let payload = if kind == 4 || kind == 6 {
                subtype_byte
            } else {
                subtype_byte % 3
            };
            kind_from(kind, payload)
        },
    };
    let tile = get_tile_info_for_cell_type(&cell_type);
    Some((cell_type, tile))
}

/// The kind of a raw record under the tolerant policy.
pub fn determine_cell_type(cell_data: &[u8; 4]) -> (cell_type: CellType)
    ensures
        cell_type == tolerant_type(cell_data@[0], cell_data@[1]),
{
    match classify(ClassifyPolicy::Tolerant, cell_data[0], cell_data[1]) {
        Some(pair) => pair.0,
        None => CellType::Normal,
    }
}

/// The tile of a raw record under the tolerant policy.
pub fn determine_tile_info(cell_data: &[u8; 4]) -> (tile: TileInfo)
    ensures
        tile@ == tile_of(tolerant_type(cell_data@[0], cell_data@[1])),
{
    let cell_type = determine_cell_type(cell_data);
    get_tile_info_for_cell_type(&cell_type)
}

/// The placeholder kind of the cell at `(x, y)`, and its tile.
pub fn determine_cell_properties(x: u32, y: u32) -> (r: (CellType, TileInfo))
    ensures
        r.0 == placeholder_type(x, y),
        r.1@ == tile_of(r.0),
{
    let pattern = (x as u64 + y as u64) % 8;
    let cell_type = if pattern == 0 {
        CellType::Rock(0)
    } else if pattern == 1 {
        CellType::Dirt(1)
    } else if pattern == 2 {
        CellType::Lava(2)
    } else if pattern == 3 {
        CellType::Microbe(1)
    } else if pattern == 4 {
        CellType::Mine(false)
    } else if pattern == 5 {
        CellType::Tube(0)
    } else if pattern == 6 {
        CellType::Wall(0)
    } else {
        CellType::Normal
    };
    let tile = get_tile_info_for_cell_type(&cell_type);
    (cell_type, tile)
}

/// Under the tolerant policy the kind of a record depends on its kind byte
/// only through the residue modulo 8: two kind bytes with the same residue
/// give the same kind, and so the same tile, for every sub-type byte.
pub proof fn lemma_tolerant_reads_residue(first: u8, second: u8, subtype_byte: u8)
    requires
        first % 8 == second % 8,
    ensures
        tolerant_type(first, subtype_byte) == tolerant_type(second, subtype_byte),
        tile_of(tolerant_type(first, subtype_byte)) == tile_of(
            tolerant_type(second, subtype_byte),
        ),
{
}

/// The tolerant policy gives every record a kind, and where the exact policy
/// gives one, the two tiles agree: the tile table is one and the same.
pub proof fn lemma_policies_share_tiles(type_byte: u8, subtype_byte: u8)
    ensures
        classified(ClassifyPolicy::Tolerant, type_byte, subtype_byte) is Some,
        classified(ClassifyPolicy::Exact, type_byte, subtype_byte) is Some <==> type_byte <= 7,
        exact_type(type_byte, subtype_byte) matches Some(exact) ==> tile_of(exact) == tile_of(
            tolerant_type(type_byte, subtype_byte),
        ),
{
}

/// The number of a kind, from 0 for normal ground to 7 for a wall, as the
/// kind byte of a record gives it.
pub open spec fn kind_number(cell_type: CellType) -> int {
    match cell_type {
        CellType::Normal => 0,
        CellType::Dirt(_) => 1,
        CellType::Lava(_) => 2,
        CellType::Microbe(_) => 3,
        CellType::Mine(_) => 4,
        CellType::Rock(_) => 5,
        CellType::Tube(_) => 6,
        CellType::Wall(_) => 7,
    }
}

/// The eight kinds have eight tilesets: two cells of different kinds never
/// share the name of a tileset, whatever their sub-types are, and two cells
/// of one kind always do.
pub proof fn lemma_tileset_names_distinct(first: CellType, second: CellType)
    ensures
        tile_of(first).tileset_name == tile_of(second).tileset_name <==> kind_number(first)
            == kind_number(second),
{
    reveal_strlit("well0000");
    reveal_strlit("well0001");
    reveal_strlit("well0002");
    reveal_strlit("well0003");
    reveal_strlit("well0004");
    reveal_strlit("well0005");
    reveal_strlit("well0006");
    reveal_strlit("well0012");
    let a = tile_of(first).tileset_name;
    let b = tile_of(second).tileset_name;
    if kind_number(first) != kind_number(second) {
        assert(a[6] != b[6] || a[7] != b[7]);
    }
}

} // verus!
