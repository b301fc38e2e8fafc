use fluxcore::axis::{range_vec, scale, shift, std_scale, Dimension};
use fluxcore::data::Table;
use fluxcore::projection::{calc_projection, AxisMap};

const M: i64 = 1_000_000;

fn table(columns: &[(&str, &[Option<i64>])]) -> Table {
    let mut sorted: Vec<(&str, &[Option<i64>])> = columns.to_vec();
    sorted.sort_by(|a, b| a.0.cmp(b.0));
    let mut t = Table::new(
        "test".to_string(),
        columns.iter().map(|c| c.0.to_string()).collect(),
    );
    let rows = sorted[0].1.len();
    for r in 0..rows {
        let row: Vec<Option<i64>> = sorted.iter().map(|c| c.1[r]).collect();
        t.push(&row);
    }
    t
}

fn one_to_five() -> Table {
    table(&[("x", &[Some(M), Some(2 * M), Some(3 * M), Some(4 * M), Some(5 * M)])])
}

#[test]
fn range_of_a_column() {
    assert_eq!(range_vec(&vec![Some(3), Some(-1), Some(7), Some(2)]), Some((-1, 7)));
    assert_eq!(range_vec(&vec![None, Some(4), None, Some(2), None]), Some((2, 4)));
    assert_eq!(range_vec(&vec![Some(5)]), Some((5, 5)));
    assert_eq!(range_vec(&vec![None, None]), None);
    assert_eq!(range_vec(&vec![]), None);
    assert_eq!(
        range_vec(&vec![Some(i64::MAX), Some(i64::MIN)]),
        Some((i64::MIN, i64::MAX))
    );
}

#[test]
fn end_to_end_one_to_five() {
    let t = one_to_five();
    let dim = Dimension::new(800, &t, &"x".to_string());
    assert_eq!(dim.range, Some((M, 5 * M)));
    assert_eq!((dim.d, dim.s, dim.render_length, dim.column), (0, M, 800, 0));
    let plan = dim.calc_axis_markers(60);
    assert_eq!(plan.visible_min, M as i128);
    assert_eq!(plan.visible_max, 5 * M as i128);
    assert_eq!(plan.fraction_digits, 1);
    assert_eq!(plan.markers.len(), 9);
    let mut last = plan.visible_min;
    for m in plan.markers.iter() {
        assert!(last <= *m);
        assert!(M as i128 <= *m && *m <= 5 * M as i128);
        last = *m;
    }
    assert_eq!(plan.markers[1], 1_500_000);
}

#[test]
fn asking_twice_gives_the_same_ticks() {
    let t = one_to_five();
    let mut dim = Dimension::new(800, &t, &"x".to_string());
    dim.pan_by(17);
    dim.zoom_around(120, 95);
    let a = dim.calc_axis_markers(60);
    let b = dim.calc_axis_markers(60);
    assert_eq!(a.markers, b.markers);
    assert_eq!((a.visible_min, a.visible_max), (b.visible_min, b.visible_max));
    assert_eq!((a.fraction_digits, a.decimals), (b.fraction_digits, b.decimals));
}

#[test]
fn reset_gives_back_the_ticks_of_the_fresh_axis() {
    let t = one_to_five();
    let fresh = Dimension::new(800, &t, &"x".to_string());
    let mut dim = fresh;
    dim.reset();
    assert_eq!(dim, fresh);
    assert_eq!(dim.calc_axis_markers(60).markers, fresh.calc_axis_markers(60).markers);
    dim.pan_by(-300);
    dim.zoom_around(10, 250);
    assert_ne!(dim, fresh);
    dim.reset();
    assert_eq!(dim, fresh);
    assert_eq!(dim.calc_axis_markers(60).markers, fresh.calc_axis_markers(60).markers);
}

#[test]
fn zoom_between_equal_offsets_changes_nothing() {
    let t = one_to_five();
    let mut dim = Dimension::new(800, &t, &"x".to_string());
    dim.pan_by(33);
    dim.zoom_around(7, 3);
    let before = dim;
    for a in [1i64, -1, 5, 399, -400, 0, i64::MAX, i64::MIN] {
        dim.zoom_around(a, a);
        assert_eq!(dim, before);
    }
}

#[test]
fn zoom_follows_the_ratio_of_the_offsets() {
    let t = one_to_five();
    let mut dim = Dimension::new(800, &t, &"x".to_string());
    dim.d = 300;
    dim.zoom_around(100, 200);
    assert_eq!((dim.d, dim.s), (600, 2 * M));
    dim.zoom_around(-100, -25);
    assert_eq!((dim.d, dim.s), (150, M / 2));
    dim.d = -7;
    dim.zoom_around(2, 1);
    assert_eq!((dim.d, dim.s), (-4, M / 4));
    let before = dim;
    dim.zoom_around(0, 5);
    assert_eq!(dim, before);
    dim.zoom_around(5, 0);
    assert_eq!(dim, before);
    dim.zoom_around(-100, 100);
    assert_eq!(dim, before);
    dim.zoom_around(100, -100);
    assert_eq!(dim, before);
}

#[test]
fn zoom_stays_within_its_limits() {
    let t = one_to_five();
    let mut dim = Dimension::new(800, &t, &"x".to_string());
    dim.scale_by(1_000_000, 1);
    assert_eq!(dim.s, 1_000_000_000_000);
    dim.scale_by(2, 1);
    assert_eq!(dim.s, 1_000_000_000_000);
    dim.reset();
    dim.scale_by(1, 1_000_000);
    assert_eq!(dim.s, 1);
    dim.scale_by(1, 2);
    assert_eq!(dim.s, 1);
    dim.d = i64::MAX;
    dim.scale_by(2, 1);
    assert_eq!((dim.d, dim.s), (i64::MAX, 1));
    assert_eq!(scale(10, 20, 3, 2), (15, 30));
    assert_eq!(scale(-10, 20, 1, 3), (-4, 6));
    assert_eq!(scale(5, 1, 1, 2), (5, 1));
    assert_eq!(shift(5, 7), 12);
    assert_eq!(shift(i64::MAX, 1), i64::MAX);
    assert_eq!(shift(i64::MIN, -1), i64::MIN);
    assert_eq!(shift(i64::MIN, 1), i64::MIN + 1);
}

#[test]
fn zoomed_in_twice_the_axis_shows_half_the_range() {
    let t = one_to_five();
    let mut dim = Dimension::new(800, &t, &"x".to_string());
    dim.zoom_around(100, 200);
    let plan = dim.calc_axis_markers(60);
    assert_eq!((plan.visible_min, plan.visible_max), (2_000_000, 4_000_000));
    // rough range 5, step nice(5 / 8) = 0.5
    assert_eq!(
        plan.markers,
        vec![2_000_000, 2_500_000, 3_000_000, 3_500_000, 4_000_000]
    );
}

#[test]
fn pan_moves_the_view_by_the_pixels_dragged() {
    let t = one_to_five();
    let mut dim = Dimension::new(800, &t, &"x".to_string());
    // 54 of 800 pixels of a range of 4
    dim.pan_by(54);
    assert_eq!(dim.d, 270_000);
    // seen between the margins, on 540 pixels, the range has moved by 0.4
    let plan = dim.calc_axis_markers(60);
    assert_eq!((plan.visible_min, plan.visible_max), (600_000, 4_600_000));
    dim.reset();
    dim.pan_by(-1);
    assert_eq!(dim.d, -5000);
    dim.reset();
    dim.pan_by(3);
    assert_eq!(dim.d, 15_000);
    dim.pan_by(800);
    assert_eq!(dim.d, 4_015_000);
    dim.d = i64::MAX;
    dim.pan_by(1);
    assert_eq!(dim.d, i64::MAX);
}

#[test]
fn pan_moves_on_an_axis_without_room_between_its_margins() {
    let t = one_to_five();
    let mut dim = Dimension::new(800, &t, &"x".to_string());
    dim.render_length = 260;
    dim.pan_by(100);
    // 100 of 260 pixels of a range of 4, rounded down
    assert_eq!(dim.d, 1_538_461);
    assert!(dim.calc_axis_markers(60).markers.is_empty());
    dim.render_length = 100;
    dim.pan_by(-50);
    assert_eq!(dim.d, 1_538_461 - 2_000_000);
    dim.render_length = 1;
    dim.pan_by(1);
    assert_eq!(dim.d, 1_538_461 + 2_000_000);
}

#[test]
fn scroll_moves_the_view_by_a_twentieth() {
    let t = one_to_five();
    let mut dim = Dimension::new(800, &t, &"x".to_string());
    // a twentieth of the range of 4, times the share 540 / 800 of the axis
    dim.scroll_by(1);
    assert_eq!(dim.d, -135_000);
    dim.scroll_by(-3);
    assert_eq!(dim.d, 0);
    dim.scroll_by(0);
    assert_eq!(dim.d, 0);
    dim.scale_by(2, 1);
    dim.scroll_by(-1);
    assert_eq!(dim.d, 270_000);
    // with no room between the margins the share is 0 or below
    dim.reset();
    dim.render_length = 260;
    dim.scroll_by(1);
    assert_eq!(dim.d, 0);
    dim.render_length = 130;
    dim.scroll_by(1);
    // 200000 * -130 / 130 the other way
    assert_eq!(dim.d, 200_000);
}

#[test]
fn a_constant_column_has_no_ticks_and_a_unit_projection() {
    let t = table(&[("c", &[Some(5 * M), Some(5 * M), Some(5 * M)])]);
    let dim = Dimension::new(800, &t, &"c".to_string());
    assert_eq!(dim.range, Some((5 * M, 5 * M)));
    let plan = dim.calc_axis_markers(60);
    assert!(plan.markers.is_empty());
    assert_eq!((plan.visible_min, plan.visible_max), (5_000_000, 5_000_000));
    let p = calc_projection(&dim, &dim, &dim);
    assert_eq!(p.x, AxisMap { scale: 2, offset: 0, span: 2_000_000 });
    assert_eq!(p.y, AxisMap { scale: 2, offset: 0, span: 2_000_000 });
    assert_eq!(p.z, AxisMap { scale: 2, offset: 0, span: 2_000_000 });
}

#[test]
fn a_column_without_numbers_has_no_range() {
    let t = table(&[("c", &[None, None])]);
    let mut dim = Dimension::new(800, &t, &"c".to_string());
    assert_eq!(dim.range, None);
    assert!(dim.calc_axis_markers(60).markers.is_empty());
    dim.pan_by(100);
    dim.scroll_by(1);
    assert_eq!(dim.d, 0);
    let p = calc_projection(&dim, &dim, &dim);
    assert_eq!(p.x, AxisMap { scale: 2, offset: 0, span: 2_000_000 });
}

#[test]
fn projection_over_the_ranges() {
    let t = table(&[
        ("x", &[Some(M), Some(5 * M)]),
        ("y", &[Some(-2 * M), Some(4 * M)]),
        ("z", &[Some(10), Some(30)]),
    ]);
    let x = Dimension::new(800, &t, &"x".to_string());
    let y = Dimension::new(600, &t, &"y".to_string());
    let z = Dimension::new(800, &t, &"z".to_string());
    assert_eq!((x.column, y.column, z.column), (0, 1, 2));
    let p = calc_projection(&x, &y, &z);
    assert_eq!(p.x, AxisMap { scale: 2, offset: -6 * M as i128, span: 4 * M as i128 });
    assert_eq!(p.y, AxisMap { scale: 2, offset: -2 * M as i128, span: 6 * M as i128 });
    assert_eq!(p.z, AxisMap { scale: 2, offset: 0, span: 20 });
    // the ends of the range go to -1 and 1
    assert_eq!(p.x.scale * M as i128 + p.x.offset, -p.x.span);
    assert_eq!(p.x.scale * 5 * M as i128 + p.x.offset, p.x.span);
}

#[test]
fn the_share_between_the_margins() {
    assert_eq!(std_scale(800), (540, 800));
    assert_eq!(std_scale(260), (0, 260));
    assert_eq!(std_scale(100), (-160, 100));
}

#[test]
fn binding_by_place_and_by_name_agree() {
    let t = table(&[("b", &[Some(1), Some(2)]), ("a", &[Some(7), None])]);
    assert_eq!(Dimension::new(10, &t, &"b".to_string()), Dimension::bind(10, &t, 1));
    assert_eq!(Dimension::new(10, &t, &"a".to_string()), Dimension::bind(10, &t, 0));
    assert_eq!(Dimension::bind(10, &t, 0).range, Some((7, 7)));
}

#[test]
fn header_positions_and_rows() {
    let headers: Vec<String> = ["y", "x", "z"].iter().map(|s| s.to_string()).collect();
    let t = Table::new("t".to_string(), headers.clone());
    let positions = t.header_positions(&headers).unwrap();
    assert_eq!(positions, vec![1, 0, 2]);
    let row = fluxcore::data::arrange_row(&vec![Some(10), None, Some(30)], &positions);
    assert_eq!(row, vec![None, Some(10), Some(30)]);
    let fewer: Vec<String> = ["y", "x"].iter().map(|s| s.to_string()).collect();
    assert_eq!(t.header_positions(&fewer), None);
    let twice: Vec<String> = ["x", "y", "z", "x"].iter().map(|s| s.to_string()).collect();
    assert_eq!(t.header_positions(&twice), Some(vec![3, 1, 2]));
    assert_eq!(fluxcore::data::find_last(&twice, &"x".to_string()), Some(3));
    assert_eq!(fluxcore::data::find_last(&twice, &"w".to_string()), None);
}

#[test]
fn default_columns_of_the_axes() {
    let e = String::new();
    let s = |v: &str| v.to_string();
    let three = Table::new(s("t"), vec![s("c"), s("a"), s("b")]);
    assert_eq!(three.default_columns(&e, &e, &e), (s("a"), s("b"), s("c")));
    assert_eq!(three.default_columns(&s("c"), &e, &e), (s("c"), s("b"), s("c")));
    assert_eq!(three.default_columns(&e, &s("a"), &s("a")), (s("a"), s("a"), s("a")));
    let two = Table::new(s("t"), vec![s("q"), s("p")]);
    assert_eq!(two.default_columns(&e, &e, &e), (s("p"), s("q"), s("q")));
    let one = Table::new(s("t"), vec![s("p")]);
    assert_eq!(one.default_columns(&e, &e, &e), (s("p"), s("p"), s("p")));
    assert_eq!(one.default_columns(&s("k"), &e, &e), (s("k"), s("k"), s("k")));
}
