use songbook::layout::{
    impose_plan, placement, separator_lines, sheet_count, Fraction, Grid, PageSize, Placement,
    Separator,
};
use songbook::tile::{mix_order, ImposeError};

fn vertical(num: u64, den: u64) -> Separator {
    Separator { vertical: true, at: Fraction { num, den } }
}

fn horizontal(num: u64, den: u64) -> Separator {
    Separator { vertical: false, at: Fraction { num, den } }
}

#[test]
fn grid_table() {
    assert_eq!(PageSize::A4.grid(), Grid { rows: 1, columns: 1, landscape: false });
    assert_eq!(PageSize::A5.grid(), Grid { rows: 1, columns: 2, landscape: true });
    assert_eq!(PageSize::A6.grid(), Grid { rows: 2, columns: 2, landscape: false });
    assert_eq!(PageSize::A7.grid(), Grid { rows: 2, columns: 4, landscape: true });
}

#[test]
fn variants_and_labels() {
    assert_eq!(
        PageSize::variants(),
        vec![PageSize::A4, PageSize::A5, PageSize::A6, PageSize::A7]
    );
    assert_eq!(PageSize::A4.label(), "Full Síða");
    assert_eq!(PageSize::A5.label(), "Hálf Síða");
    assert_eq!(PageSize::A6.label(), "1/4 Síða");
    assert_eq!(PageSize::A7.label(), "1/8 Síða");
}

#[test]
fn eighth_sheet_counts() {
    assert_eq!(sheet_count(0, PageSize::A7), 0);
    assert_eq!(sheet_count(1, PageSize::A7), 1);
    assert_eq!(sheet_count(8, PageSize::A7), 1);
    assert_eq!(sheet_count(9, PageSize::A7), 2);
    assert_eq!(sheet_count(16, PageSize::A7), 2);
    assert_eq!(sheet_count(17, PageSize::A7), 3);
}

#[test]
fn other_sheet_counts() {
    assert_eq!(sheet_count(5, PageSize::A4), 5);
    assert_eq!(sheet_count(5, PageSize::A5), 3);
    assert_eq!(sheet_count(5, PageSize::A6), 2);
    assert_eq!(sheet_count(usize::MAX, PageSize::A4), usize::MAX);
}

#[test]
fn quarter_separators() {
    let lines = separator_lines(2, 2).unwrap();
    assert_eq!(lines.iter().filter(|s| s.vertical).count(), 3);
    assert_eq!(lines.iter().filter(|s| !s.vertical).count(), 3);
    assert_eq!(
        lines,
        vec![
            vertical(0, 2),
            vertical(1, 2),
            vertical(2, 2),
            horizontal(0, 2),
            horizontal(1, 2),
            horizontal(2, 2),
        ]
    );
}

#[test]
fn eighth_separators() {
    let lines = separator_lines(2, 4).unwrap();
    assert_eq!(lines.len(), 8);
    assert_eq!(lines[3], vertical(3, 4));
    assert_eq!(lines[4], vertical(4, 4));
    assert_eq!(lines[5], horizontal(0, 2));
}

#[test]
fn empty_grid_is_a_geometry_error() {
    assert_eq!(separator_lines(0, 2), Err(ImposeError::Geometry));
    assert_eq!(separator_lines(2, 0), Err(ImposeError::Geometry));
}

#[test]
fn placement_centres_the_content() {
    let p = placement(9, 10).unwrap();
    assert_eq!(p.scale, Fraction { num: 9, den: 10 });
    assert_eq!(p.offset, Fraction { num: 1, den: 20 });
    // The margin on either side of a sheet 600 wide is the same 30.
    let width = 600.0f64;
    let left = width * p.offset.num as f64 / p.offset.den as f64;
    let content = width * p.scale.num as f64 / p.scale.den as f64;
    assert_eq!(left, 30.0);
    assert_eq!(width - left - content, 30.0);
    assert_eq!(
        placement(1, 1).unwrap(),
        Placement { scale: Fraction { num: 1, den: 1 }, offset: Fraction { num: 0, den: 2 } }
    );
}

#[test]
fn invalid_scale_is_rejected() {
    assert_eq!(placement(0, 10), Err(ImposeError::Geometry));
    assert_eq!(placement(11, 10), Err(ImposeError::Geometry));
    assert_eq!(impose_plan(PageSize::A6, 0, 1, true), Err(ImposeError::Geometry));
}

#[test]
fn plan_without_separators_draws_none() {
    let plan = impose_plan(PageSize::A6, 9, 10, false).unwrap();
    assert!(plan.separators.is_empty());
    let plan = impose_plan(PageSize::A6, 9, 10, true).unwrap();
    assert_eq!(plan.separators.iter().filter(|s| s.vertical).count(), 3);
    assert_eq!(plan.separators.iter().filter(|s| !s.vertical).count(), 3);
}

#[test]
fn fold_order_five_and_six() {
    assert_eq!(mix_order(5), Ok(vec![0, 4, 1, 3, 2]));
    assert_eq!(mix_order(6), Ok(vec![0, 5, 1, 4, 2, 3]));
    assert_eq!(mix_order(2), Ok(vec![0, 1]));
}

#[test]
fn fold_needs_two_pages() {
    assert_eq!(mix_order(0), Err(ImposeError::PreconditionViolation));
    assert_eq!(mix_order(1), Err(ImposeError::PreconditionViolation));
}

#[test]
fn end_to_end_plan() {
    // Parts of 2, 3 and 1 pages make 6 pages, folded as below.
    let total = 2 + 3 + 1;
    assert_eq!(mix_order(total), Ok(vec![0, 5, 1, 4, 2, 3]));
    assert_eq!(sheet_count(total, PageSize::A5), 3);
    let plan = impose_plan(PageSize::A5, 9, 10, true).unwrap();
    assert_eq!(plan.grid, Grid { rows: 1, columns: 2, landscape: true });
    assert_eq!(
        plan.separators,
        vec![vertical(0, 2), vertical(1, 2), vertical(2, 2), horizontal(0, 1), horizontal(1, 1)]
    );
    // One vertical line down the middle, besides those on the edges.
    let inner: Vec<_> = plan
        .separators
        .iter()
        .filter(|s| s.vertical && s.at.num != 0 && s.at.num != s.at.den)
        .collect();
    assert_eq!(inner.len(), 1);
    assert_eq!(plan.placement.offset, Fraction { num: 1, den: 20 });
}
