//! The grid of labels. The cells are held and laid out by `term_grid`; what
//! this module states of it is believed, not proved.

use vstd::prelude::*;
use term_grid::{Cell, Direction, Filling, Grid, GridOptions};

verus! {

/// `term_grid::Grid`: the cells of a grid and the options it was made with.
#[verifier::external_type_specification]
#[verifier::external_body]
pub struct ExGrid(Grid);

/// The texts of the cells of a grid, in the order in which they were added.
pub uninterp spec fn grid_cells(grid: Grid) -> Seq<Seq<char>>;

/// The number of spaces that a grid puts between two columns.
pub uninterp spec fn grid_spacing(grid: Grid) -> nat;

/// Whether a grid is plain: its cells run from left to right, its filling
/// is a number of spaces, and each of its cells was made by `Cell::from`, so
/// that it sticks to the left and is as wide as `term_grid` measures its
/// text.
pub uninterp spec fn grid_is_plain(grid: Grid) -> bool;

/// The text that `term_grid` displays for a plain grid of these cells in
/// `columns` columns, `spacing` spaces apart.
pub uninterp spec fn grid_display(cells: Seq<Seq<char>>, spacing: nat, columns: nat) -> Seq<char>;

/// `Grid::new`, with the direction `LeftToRight` and the filling
/// `Spaces(spacing)`: the new grid is plain, has no cells and keeps the
/// spacing.
#[verifier::external_body]
pub(crate) fn new_grid(spacing: u16) -> (grid: Grid)
    ensures
        grid_is_plain(grid),
        grid_cells(grid) == Seq::<Seq<char>>::empty(),
        grid_spacing(grid) == spacing,
{
    Grid::new(
        GridOptions {
            direction: Direction::LeftToRight,
            filling: Filling::Spaces(usize::from(spacing)),
        },
    )
}

/// `Grid::add` of `Cell::from(text)`: the cell goes behind those that the
/// grid holds; the options stay, and a plain grid stays plain. `add` also
/// adds the cell's width to a sum of all widths; no width is more than the
/// bytes of its text, so the sum stays within what the texts take in memory.
#[verifier::external_body]
pub(crate) fn add_cell(grid: &mut Grid, text: &str)
    ensures
        grid_is_plain(*final(grid)) == grid_is_plain(*old(grid)),
        grid_cells(*final(grid)) == grid_cells(*old(grid)).push(text@),
        grid_spacing(*final(grid)) == grid_spacing(*old(grid)),
{
    grid.add(Cell::from(text))
}

/// `Grid::fit_into_columns` and the text of the `Display` it returns. For a
/// plain grid the text depends on the cells, the spacing and the number of
/// columns alone. `fit_into_columns` divides by the number of columns, which
/// must not be 0.
#[verifier::external_body]
pub(crate) fn columns_text(grid: &Grid, columns: u16) -> (out: String)
    requires
        grid_is_plain(*grid),
        columns > 0,
    ensures
        out@ == grid_display(grid_cells(*grid), grid_spacing(*grid), columns as nat),
{
    grid.fit_into_columns(usize::from(columns)).to_string()
}

} // verus!
