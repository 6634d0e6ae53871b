//! The color each cell is drawn with.  The rendering itself (canvas,
//! timers, key bindings) lives outside the library and consumes the game's
//! read surface; only this pure mapping belongs to the core.

use vstd::prelude::*;

use crate::piece::{Cell, Type};

verus! {

/// The CSS color of a cell: one color per piece kind, grey for empty.
pub open spec fn spec_cell_color(cell: Cell) -> Seq<char> {
    match cell.0 {
        Some(Type::I) => "cyan"@,
        Some(Type::T) => "purple"@,
        Some(Type::O) => "yellow"@,
        Some(Type::L) => "orange"@,
        Some(Type::J) => "blue"@,
        Some(Type::S) => "lime"@,
        Some(Type::Z) => "red"@,
        None => "#DDD"@,
    }
}

/// The color a cell is drawn with.
pub fn get_cell_color(cell: &Cell) -> (r: String)
    ensures
        r@ == spec_cell_color(*cell),
{
    match cell.0 {
        Some(Type::I) => "cyan".to_owned(),
        Some(Type::T) => "purple".to_owned(),
        Some(Type::O) => "yellow".to_owned(),
        Some(Type::L) => "orange".to_owned(),
        Some(Type::J) => "blue".to_owned(),
        Some(Type::S) => "lime".to_owned(),
        Some(Type::Z) => "red".to_owned(),
        None => "#DDD".to_owned(),
    }
}

} // verus!
