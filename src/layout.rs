//! The geometry of laying logical pages out on physical sheets: the grid of
//! each tiling granularity, how many sheets a document needs, where the
//! separator lines fall and how each sheet is shrunk and re-centred.
//!
//! Positions are exact fractions of the sheet's width or height, so that the
//! lines fall on the cell boundaries whatever unit the sheet is measured in.
use crate::tile::ImposeError;
use vstd::prelude::*;

verus! {

/// How many logical pages go on one physical sheet, and how they are arranged.
#[derive(Debug, Clone, Copy, PartialEq, Eq, Structural)]
pub enum PageSize {
    /// One page on an A4 portrait sheet.
    A4,
    /// Two pages side by side on an A4 landscape sheet.
    A5,
    /// Four pages in two rows of two on an A4 portrait sheet.
    A6,
    /// Eight pages in two rows of four on an A4 landscape sheet.
    A7,
}

/// The grid of cells on one physical sheet.
#[derive(Debug, Clone, Copy, PartialEq, Eq, Structural)]
pub struct Grid {
    pub rows: u8,
    pub columns: u8,
    /// Whether the A4 sheet lies on its long side.
    pub landscape: bool,
}

/// The grid that each granularity stands for.
pub open spec fn grid_of(size: PageSize) -> Grid {
    match size {
        PageSize::A4 => Grid { rows: 1, columns: 1, landscape: false },
        PageSize::A5 => Grid { rows: 1, columns: 2, landscape: true },
        PageSize::A6 => Grid { rows: 2, columns: 2, landscape: false },
        PageSize::A7 => Grid { rows: 2, columns: 4, landscape: true },
    }
}

impl PageSize {
    /// Rows, columns and sheet orientation of this granularity.
    pub fn grid(self) -> (g: Grid)
        ensures
            g == grid_of(self),
    {
        match self {
            PageSize::A4 => Grid { rows: 1, columns: 1, landscape: false },
            PageSize::A5 => Grid { rows: 1, columns: 2, landscape: true },
            PageSize::A6 => Grid { rows: 2, columns: 2, landscape: false },
            PageSize::A7 => Grid { rows: 2, columns: 4, landscape: true },
        }
    }

    /// Every granularity, from the largest cells to the smallest.
    pub fn variants() -> (r: Vec<PageSize>)
        ensures
            r@ == seq![PageSize::A4, PageSize::A5, PageSize::A6, PageSize::A7],
    {
        vec![PageSize::A4, PageSize::A5, PageSize::A6, PageSize::A7]
    }

    /// The name shown to the user (in Icelandic).
    pub fn label(self) -> (r: &'static str)
        ensures
            r@ == match self {
                PageSize::A4 => "Full Síða"@,
                PageSize::A5 => "Hálf Síða"@,
                PageSize::A6 => "1/4 Síða"@,
                PageSize::A7 => "1/8 Síða"@,
            },
    {
        match self {
            PageSize::A4 => "Full Síða",
            PageSize::A5 => "Hálf Síða",
            PageSize::A6 => "1/4 Síða",
            PageSize::A7 => "1/8 Síða",
        }
    }
}

/// The least number of sheets of `per_sheet` cells that hold `pages` pages.
pub open spec fn sheets_needed(pages: int, per_sheet: int) -> int {
    if pages <= 0 {
        0
    } else {
        (pages - 1) / per_sheet + 1
    }
}

proof fn lemma_sheets_needed_is_ceiling(pages: int, per_sheet: int)
    requires
        pages >= 0,
        per_sheet > 0,
    ensures
        sheets_needed(pages, per_sheet) * per_sheet >= pages,
        sheets_needed(pages, per_sheet) * per_sheet < pages + per_sheet,
{
    if pages > 0 {
        let q = (pages - 1) / per_sheet;
        let rem = (pages - 1) % per_sheet;
        vstd::arithmetic::div_mod::lemma_fundamental_div_mod(pages - 1, per_sheet);
        assert(pages - 1 == per_sheet * q + rem);
        assert(0 <= rem < per_sheet);
        assert((q + 1) * per_sheet == per_sheet * q + per_sheet) by (nonlinear_arith);
    }
}

/// The number of physical sheets that imposing `pages` logical pages with
/// granularity `size` yields: the pages divided by the cells per sheet,
/// rounded up.
pub fn sheet_count(pages: usize, size: PageSize) -> (r: usize)
    ensures
        r == sheets_needed(pages as int, grid_of(size).rows * grid_of(size).columns),
        r * (grid_of(size).rows * grid_of(size).columns) >= pages,
        r * (grid_of(size).rows * grid_of(size).columns) < pages + grid_of(size).rows * grid_of(size).columns,
{
    let g = size.grid();
    let per_sheet: usize = (g.rows as usize) * (g.columns as usize);
    proof {
        lemma_sheets_needed_is_ceiling(pages as int, per_sheet as int);
    }
    if pages == 0 {
        0
    } else {
        (pages - 1) / per_sheet + 1
    }
}

/// The exact number `num / den`.
#[derive(Debug, Clone, Copy, PartialEq, Eq, Structural)]
pub struct Fraction {
    pub num: u64,
    pub den: u64,
}

/// A separator line on a sheet. A vertical one stands at `at` times the
/// sheet's width and runs over its full height; a horizontal one stands at
/// `at` times the height and runs over the full width.
#[derive(Debug, Clone, Copy, PartialEq, Eq, Structural)]
pub struct Separator {
    pub vertical: bool,
    pub at: Fraction,
}

/// The separators of a grid: a vertical line on each of the `columns + 1`
/// column boundaries, left to right, then a horizontal line on each of the
/// `rows + 1` row boundaries, from the bottom edge up.
pub open spec fn separators_of(rows: int, columns: int) -> Seq<Separator> {
    Seq::new(
        (columns + 1) as nat,
        |i: int| Separator { vertical: true, at: Fraction { num: i as u64, den: columns as u64 } },
    ) + Seq::new(
        (rows + 1) as nat,
        |j: int| Separator { vertical: false, at: Fraction { num: j as u64, den: rows as u64 } },
    )
}

/// The separator lines of a grid of `rows` by `columns` cells, each on a
/// cell boundary; a grid without rows or columns has none.
pub fn separator_lines(rows: u8, columns: u8) -> (r: Result<Vec<Separator>, ImposeError>)
    ensures
        rows == 0 || columns == 0 <==> r is Err,
        r matches Err(e) ==> e == ImposeError::Geometry,
        r matches Ok(v) ==> v@ == separators_of(rows as int, columns as int),
{
    if rows == 0 || columns == 0 {
        return Err(ImposeError::Geometry);
    }
    let ghost expected = separators_of(rows as int, columns as int);
    let mut lines: Vec<Separator> = Vec::new();
    let mut i: u16 = 0;
    while i <= columns as u16
        invariant
            i <= columns as int + 1,
            lines@ == expected.take(i as int),
            expected == separators_of(rows as int, columns as int),
        decreases columns as int + 1 - i,
    {
        let line = Separator { vertical: true, at: Fraction { num: i as u64, den: columns as u64 } };
        proof {
            assert(expected[i as int] == line);
            assert(expected.take(i as int + 1) =~= expected.take(i as int).push(line));
        }
        lines.push(line);
        i += 1;
    }
    let mut j: u16 = 0;
    while j <= rows as u16
        invariant
            j <= rows as int + 1,
            lines@ == expected.take(columns as int + 1 + j),
            expected == separators_of(rows as int, columns as int),
        decreases rows as int + 1 - j,
    {
        let line = Separator { vertical: false, at: Fraction { num: j as u64, den: rows as u64 } };
        proof {
            assert(expected[columns as int + 1 + j] == line);
            assert(expected.take(columns as int + 1 + j + 1) =~= expected.take(columns as int + 1 + j).push(line));
        }
        lines.push(line);
        j += 1;
    }
    proof {
        assert(expected.take(columns as int + 1 + j) =~= expected);
    }
    Ok(lines)
}

/// How each sheet is shrunk and moved to leave a margin for printing: every
/// object is scaled by `scale` in both axes, then shifted right and up by
/// `offset` times the sheet's width and height.
#[derive(Debug, Clone, Copy, PartialEq, Eq, Structural)]
pub struct Placement {
    pub scale: Fraction,
    pub offset: Fraction,
}

/// The placement for the scaling factor `num / den`: the offset is half of
/// what the scaled content leaves free, `(1 - num / den) / 2`.
pub open spec fn placement_of(num: u32, den: u32) -> Placement {
    Placement {
        scale: Fraction { num: num as u64, den: den as u64 },
        offset: Fraction { num: (den - num) as u64, den: (2 * den) as u64 },
    }
}

/// Whether `num / den` is a scaling factor in (0, 1].
pub open spec fn valid_scale(num: u32, den: u32) -> bool {
    0 < num <= den
}

/// The placement that shrinks a sheet by `num / den` and centres it.
pub fn placement(num: u32, den: u32) -> (r: Result<Placement, ImposeError>)
    ensures
        valid_scale(num, den) <==> r is Ok,
        r matches Ok(p) ==> p == placement_of(num, den),
        r matches Err(e) ==> e == ImposeError::Geometry,
{
    if num == 0 || num > den {
        return Err(ImposeError::Geometry);
    }
    Ok(Placement {
        scale: Fraction { num: num as u64, den: den as u64 },
        offset: Fraction { num: (den - num) as u64, den: 2 * (den as u64) },
    })
}

/// Everything that imposing needs to know of each physical sheet: its grid,
/// the separator lines to draw before scaling, and the placement.
#[derive(Debug, PartialEq, Eq)]
pub struct ImposePlan {
    pub grid: Grid,
    pub separators: Vec<Separator>,
    pub placement: Placement,
}

/// The separators drawn on each sheet of a grid: all of them, or none.
pub open spec fn sheet_separators(g: Grid, add_separators: bool) -> Seq<Separator> {
    if add_separators {
        separators_of(g.rows as int, g.columns as int)
    } else {
        Seq::empty()
    }
}

/// The plan for imposing with granularity `size`, scaling factor
/// `scale_num / scale_den` and, if asked for, separator lines.
pub fn impose_plan(size: PageSize, scale_num: u32, scale_den: u32, add_separators: bool) -> (r: Result<ImposePlan, ImposeError>)
    ensures
        valid_scale(scale_num, scale_den) <==> r is Ok,
        r matches Err(e) ==> e == ImposeError::Geometry,
        r matches Ok(p) ==> p.grid == grid_of(size) && p.separators@ == sheet_separators(grid_of(size), add_separators)
            && p.placement == placement_of(scale_num, scale_den),
{
    let grid = size.grid();
    let placement = match placement(scale_num, scale_den) {
        Ok(p) => p,
        Err(e) => return Err(e),
    };
    let separators = if add_separators {
        match separator_lines(grid.rows, grid.columns) {
            Ok(lines) => lines,
            Err(e) => return Err(e),
        }
    } else {
        Vec::new()
    };
    Ok(ImposePlan { grid, separators, placement })
}

/// After scaling by a valid factor f and shifting by the offset of its
/// placement, the content of a sheet of any width and height sits in the
/// middle: the offset is `(1 - f) / 2`, and along each axis the margin after
/// the content equals the margin before it. All quantities are multiplied
/// by the common denominator `offset.den * scale.den`.
pub proof fn lemma_margin_centered(num: u32, den: u32, width: int, height: int)
    requires
        valid_scale(num, den),
        width > 0,
        height > 0,
    ensures
        ({
            let p = placement_of(num, den);
            let (sn, sd, on, od) = (p.scale.num as int, p.scale.den as int, p.offset.num as int, p.offset.den as int);
            &&& 2 * on * sd == (sd - sn) * od
            &&& width * on * sd == width * od * sd - width * on * sd - width * sn * od
            &&& height * on * sd == height * od * sd - height * on * sd - height * sn * od
        }),
{
    let p = placement_of(num, den);
    let (sn, sd, on, od) = (p.scale.num as int, p.scale.den as int, p.offset.num as int, p.offset.den as int);
    assert(sn == num && sd == den && on == den - num && od == 2 * den);
    assert(2 * on * sd == (sd - sn) * od) by (nonlinear_arith)
        requires on == sd - sn, od == 2 * sd;
    assert(width * on * sd == width * od * sd - width * on * sd - width * sn * od) by (nonlinear_arith)
        requires on == sd - sn, od == 2 * sd;
    assert(height * on * sd == height * od * sd - height * on * sd - height * sn * od) by (nonlinear_arith)
        requires on == sd - sn, od == 2 * sd;
}

/// Each sheet of a granularity gets, when separators are asked for, one
/// vertical line per column boundary and one horizontal line per row
/// boundary, and no line at all otherwise: for two rows of two cells, three
/// and three.
pub proof fn lemma_separators_per_sheet(size: PageSize, add_separators: bool)
    ensures
        ({
            let g = grid_of(size);
            let s = sheet_separators(g, add_separators);
            &&& add_separators ==> s.len() == g.columns + 1 + g.rows + 1
            &&& add_separators ==> forall|i: int| 0 <= i < g.columns + 1 ==> #[trigger] s[i].vertical
            &&& add_separators ==> forall|i: int| g.columns + 1 <= i < s.len() ==> !#[trigger] s[i].vertical
            &&& !add_separators ==> s.len() == 0
            &&& size == PageSize::A6 && add_separators ==> g.columns + 1 == 3 && g.rows + 1 == 3
        }),
{
}

} // verus!
