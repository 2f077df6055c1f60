//! What the information panel tells of a cell: its settings and its texts.
//! Drawing them is left to the viewer.

use crate::text::{binary8, decimal, push_binary8, push_decimal, push_signed_decimal, signed_decimal};
use crate::types::{CellType, Position};
use vstd::prelude::*;
use vstd::string::StringExecFns;

verus! {

/// The settings of the information panel.
#[derive(Debug, Clone, Copy, PartialEq, Eq, Structural)]
pub struct CellInfoPanel {
    /// The height is shown in a shade that follows it.
    pub show_height_gradient: bool,
    /// Wreckage and units are told of.
    pub show_details: bool,
}

impl Default for CellInfoPanel {
    fn default() -> (panel: Self)
        ensures
            panel == (CellInfoPanel { show_height_gradient: true, show_details: true }),
    {
        CellInfoPanel { show_height_gradient: true, show_details: true }
    }
}

/// The text of the panel for a kind of cell.
pub open spec fn type_label(cell_type: CellType) -> Seq<char> {
    match cell_type {
        CellType::Normal => "Normal Ground"@,
        CellType::Lava(variant) => "Lava Type "@ + decimal(variant as nat),
        CellType::Microbe(stage) => "Microbe Stage "@ + decimal(stage as nat),
        CellType::Mine(depleted) => if depleted {
            "Depleted Mine"@
        } else {
            "Active Mine"@
        },
        CellType::Dirt(variant) => "Dirt Type "@ + decimal(variant as nat),
        CellType::Rock(variant) => "Rock Type "@ + decimal(variant as nat),
        CellType::Tube(connections) => "Tube (0b"@ + binary8(connections) + ")"@,
        CellType::Wall(variant) => "Wall Type "@ + decimal(variant as nat),
    }
}

/// The text of the panel for a position.
pub open spec fn position_label(position: Position) -> Seq<char> {
    "("@ + signed_decimal(position.x as int) + ", "@ + signed_decimal(position.y as int) + ")"@
}

impl CellInfoPanel {
    /// A panel that shows everything.
    pub fn new() -> (panel: Self)
        ensures
            panel == (CellInfoPanel { show_height_gradient: true, show_details: true }),
    {
        CellInfoPanel { show_height_gradient: true, show_details: true }
    }

    /// The text of the panel for a position.
    pub fn position_text(position: &Position) -> (s: String)
        ensures
            s@ == position_label(*position),
    {
        let mut s = String::from_str("(");
        push_signed_decimal(&mut s, position.x);
        s.append(", ");
        push_signed_decimal(&mut s, position.y);
        s.append(")");
        s
    }

    /// The text of the panel for a kind of cell.
    pub fn type_text(cell_type: &CellType) -> (s: String)
        ensures
            s@ == type_label(*cell_type),
    {
        match *cell_type {
            CellType::Normal => String::from_str("Normal Ground"),
            CellType::Lava(variant) => {
                let mut s = String::from_str("Lava Type ");
                push_decimal(&mut s, variant as u64);
                s
            },
            CellType::Microbe(stage) => {
                let mut s = String::from_str("Microbe Stage ");
                push_decimal(&mut s, stage as u64);
                s
            },
            CellType::Mine(depleted) => {
                if depleted {
                    String::from_str("Depleted Mine")
                } else {
                    String::from_str("Active Mine")
                }
            },
            CellType::Dirt(variant) => {
                let mut s = String::from_str("Dirt Type ");
                push_decimal(&mut s, variant as u64);
                s
            },
            CellType::Rock(variant) => {
                let mut s = String::from_str("Rock Type ");
                push_decimal(&mut s, variant as u64);
                s
            },
            CellType::Tube(connections) => {
                let mut s = String::from_str("Tube (0b");
                push_binary8(&mut s, connections);
                s.append(")");
                s
            },
            CellType::Wall(variant) => {
                let mut s = String::from_str("Wall Type ");
                push_decimal(&mut s, variant as u64);
                s
            },
        }
    }
}

} // verus!
