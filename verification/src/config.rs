//! Configuration values shared by the simulator: the boundary policy of a
//! grid and the textual themes used by the presentation layer.

use vstd::prelude::*;

use crate::text::{eq_fold, str_eq_ignore_case};

verus! {

/// How the grid treats neighbours that fall over an edge: `Wrap` folds them
/// around (toroidal topology), `Fixed` drops them.
#[derive(Clone, Copy, Debug, PartialEq, Eq, Structural)]
pub enum BoundaryType {
    Wrap,
    Fixed,
}

/// The boundary mode a configuration string names: `"fixed"` in any ASCII
/// case selects `Fixed`, anything else selects `Wrap`.
pub open spec fn spec_boundary_from(s: Seq<char>) -> BoundaryType {
    if eq_fold(s, "fixed"@) {
        BoundaryType::Fixed
    } else {
        BoundaryType::Wrap
    }
}

impl BoundaryType {
    pub fn from_string(s: &str) -> (r: Self)
        ensures
            r == spec_boundary_from(s@),
    {
        if str_eq_ignore_case(s, "fixed") {
            BoundaryType::Fixed
        } else {
            BoundaryType::Wrap
        }
    }
}

/// How a cell is drawn by the terminal front end.
#[derive(Clone, Copy, Debug, PartialEq, Eq, Structural)]
pub enum CellTheme {
    Classic,
    Block,
    Dot,
}

/// The cell theme a configuration string names: `"classic"` or `"dot"` in any
/// ASCII case, anything else falling back to `Block`.
pub open spec fn spec_cell_theme_from(s: Seq<char>) -> CellTheme {
    if eq_fold(s, "classic"@) {
        CellTheme::Classic
    } else if eq_fold(s, "dot"@) {
        CellTheme::Dot
    } else {
        CellTheme::Block
    }
}

impl CellTheme {
    pub fn from_string(s: &str) -> (r: Self)
        ensures
            r == spec_cell_theme_from(s@),
    {
        if str_eq_ignore_case(s, "classic") {
            CellTheme::Classic
        } else if str_eq_ignore_case(s, "dot") {
            CellTheme::Dot
        } else {
            CellTheme::Block
        }
    }

    pub fn alive_cell(&self) -> (r: &'static str)
        ensures
            self is Classic ==> r@ == "O"@,
            self is Block ==> r@ == "█"@,
            self is Dot ==> r@ == "•"@,
    {
        match self {
            CellTheme::Classic => "O",
            CellTheme::Block => "█",
            CellTheme::Dot => "•",
        }
    }

    pub fn dead_cell(&self) -> (r: &'static str)
        ensures
            r@ == " "@,
    {
        match self {
            CellTheme::Classic => " ",
            CellTheme::Block => " ",
            CellTheme::Dot => " ",
        }
    }
}

/// The colour palette used by the terminal front end.
#[derive(Clone, Copy, Debug, PartialEq, Eq, Structural)]
pub enum ColorTheme {
    Green,
    Blue,
    Rainbow,
}

/// The colour theme a configuration string names: `"blue"` or `"rainbow"` in
/// any ASCII case, anything else falling back to `Green`.
pub open spec fn spec_color_theme_from(s: Seq<char>) -> ColorTheme {
    if eq_fold(s, "blue"@) {
        ColorTheme::Blue
    } else if eq_fold(s, "rainbow"@) {
        ColorTheme::Rainbow
    } else {
        ColorTheme::Green
    }
}

impl ColorTheme {
    pub fn from_string(s: &str) -> (r: Self)
        ensures
            r == spec_color_theme_from(s@),
    {
        if str_eq_ignore_case(s, "blue") {
            ColorTheme::Blue
        } else if str_eq_ignore_case(s, "rainbow") {
            ColorTheme::Rainbow
        } else {
            ColorTheme::Green
        }
    }
}

} // verus!
