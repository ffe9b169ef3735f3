use stdr_refline::compose::{compose, Strategy};
use stdr_refline::drawing::{Drawing, Entity};
use stdr_refline::grid::{GridError, LayerName, RefLine};

fn grid(num_x: u32, x_spans: Vec<i64>, num_y: u32, y_spans: Vec<i64>) -> RefLine {
    RefLine {
        num_x_axis: num_x,
        num_y_axis: num_y,
        num_floor: 2,
        x_spans,
        y_spans,
        floor_heights: vec![3000, 3000],
        x_axes: None,
        y_axes: None,
        layer_name: None,
    }
}

fn labelled_grid(
    num_x: u32,
    x_spans: Vec<i64>,
    num_y: u32,
    y_spans: Vec<i64>,
    x_axes: Vec<&str>,
    y_axes: Vec<&str>,
) -> RefLine {
    let mut g = grid(num_x, x_spans, num_y, y_spans);
    g.x_axes = Some(x_axes.into_iter().map(|s| s.to_string()).collect());
    g.y_axes = Some(y_axes.into_iter().map(|s| s.to_string()).collect());
    g
}

fn count_lines(d: &Drawing) -> usize {
    d.entities.iter().filter(|e| matches!(e, Entity::Line { .. })).count()
}

fn count_dimensions(d: &Drawing, want_rotated: bool) -> usize {
    d.entities
        .iter()
        .filter(|e| matches!(e, Entity::Dimension { rotated, .. } if *rotated == want_rotated))
        .count()
}

fn count_texts(d: &Drawing) -> usize {
    d.entities.iter().filter(|e| matches!(e, Entity::Text { .. })).count()
}

fn count_circles(d: &Drawing) -> usize {
    d.entities.iter().filter(|e| matches!(e, Entity::Circle { .. })).count()
}

#[test]
fn minimal_end_to_end() {
    // axis_count_x = 3 with spans [6000, 6000], axis_count_y = 2 with
    // span [4000]: three vertical and two horizontal lines, nothing
    // else.
    let d = compose(&grid(3, vec![6000, 6000], 2, vec![4000]), Strategy::Minimal).unwrap();

    assert_eq!(d.layers.len(), 2);
    assert_eq!(d.dim_styles.len(), 0);
    assert_eq!(d.entities.len(), 5);
    assert_eq!(count_lines(&d), 5);
    assert_eq!(count_texts(&d), 0);
    assert_eq!(count_circles(&d), 0);
    assert_eq!(count_dimensions(&d, false), 0);
    assert_eq!(count_dimensions(&d, true), 0);

    let expected_vertical = [0, 6000, 12000];
    for (i, want_x) in expected_vertical.iter().enumerate() {
        match &d.entities[i] {
            Entity::Line { x1, y1, x2, y2, layer } => {
                assert_eq!(x1, want_x);
                assert_eq!(x2, want_x);
                assert_eq!(*y1, 0);
                assert_eq!(*y2, 4000);
                assert_eq!(layer, "通り芯");
            }
            _ => panic!("expected a vertical line"),
        }
    }
    let expected_horizontal = [0, 4000];
    for (i, want_y) in expected_horizontal.iter().enumerate() {
        match &d.entities[3 + i] {
            Entity::Line { x1, y1, x2, y2, layer } => {
                assert_eq!(*x1, 0);
                assert_eq!(*x2, 12000);
                assert_eq!(y1, want_y);
                assert_eq!(y2, want_y);
                assert_eq!(layer, "通り芯");
            }
            _ => panic!("expected a horizontal line"),
        }
    }
}

#[test]
fn grid_line_extent_is_opposite_axis_total() {
    // X count 3 with spans [5000, 7000] and one Y span [3000]: the
    // vertical lines run from y = 0 to y = 3000, the total of the Y
    // spans, at x in {0, 5000, 12000}.
    let d = compose(&grid(3, vec![5000, 7000], 2, vec![3000]), Strategy::Minimal).unwrap();
    let expected_x = [0, 5000, 12000];
    for (i, want_x) in expected_x.iter().enumerate() {
        match &d.entities[i] {
            Entity::Line { x1, y1, x2, y2, .. } => {
                assert_eq!(x1, want_x);
                assert_eq!(x2, want_x);
                assert_eq!(*y1, 0);
                assert_eq!(*y2, 3000);
            }
            _ => panic!("expected a vertical line"),
        }
    }
    match &d.entities[3] {
        Entity::Line { x1, x2, .. } => {
            assert_eq!(*x1, 0);
            assert_eq!(*x2, 12000);
        }
        _ => panic!("expected a horizontal line"),
    }
}

#[test]
fn layers_carry_style_and_resolved_names() {
    let mut g = grid(2, vec![1000], 2, vec![1000]);
    g.layer_name = Some(LayerName {
        ref_line: Some("axes".to_string()),
        dimension: None,
    });
    let d = compose(&g, Strategy::Minimal).unwrap();
    assert_eq!(d.layers[0].name, "axes");
    assert_eq!(d.layers[0].color_index, 3);
    assert_eq!(d.layers[0].line_type.as_deref(), Some("CENTER"));
    assert_eq!(d.layers[1].name, "寸法");
    assert_eq!(d.layers[1].color_index, 3);
    assert!(d.layers[1].line_type.is_none());
}

#[test]
fn dimensioned_counts_and_anchors() {
    // Four X axis lines give three X dimensions; no Y dimensions and
    // no labels at this level.
    let d = compose(
        &grid(4, vec![6000, 6000, 6000], 3, vec![4000, 4000]),
        Strategy::Dimensioned,
    )
    .unwrap();
    assert_eq!(count_dimensions(&d, false), 3);
    assert_eq!(count_dimensions(&d, true), 0);
    assert_eq!(count_texts(&d), 0);
    assert_eq!(count_circles(&d), 0);
    assert_eq!(d.dim_styles.len(), 1);
    assert_eq!(d.dim_styles[0].name, "mydim");
    assert_eq!(d.dim_styles[0].text_height, 1000);
    assert_eq!(d.dim_styles[0].arrow_size, 500);
    assert_eq!(d.dim_styles[0].extension_offset, 2000);

    // First X dimension: between the first two axis lines, anchored
    // at their midpoint, one gap below the measured line.
    match &d.entities[4 + 3] {
        Entity::Dimension { x1, y1, x2, y2, anchor_x, anchor_y, rotated, layer } => {
            assert_eq!(*x1, 0);
            assert_eq!(*y1, 0);
            assert_eq!(*x2, 6000);
            assert_eq!(*y2, 0);
            assert_eq!(*anchor_x, 3000);
            assert_eq!(*anchor_y, -5000);
            assert!(!rotated);
            assert_eq!(layer, "寸法");
        }
        _ => panic!("expected an X dimension"),
    }
}

#[test]
fn full_counts_labels_and_markers() {
    let d = compose(
        &labelled_grid(
            3,
            vec![6000, 6000],
            2,
            vec![4000],
            vec!["X1", "X2", "X3"],
            vec!["Y1", "Y2"],
        ),
        Strategy::Full,
    )
    .unwrap();
    // 5 grid lines, 2 X dimensions, 1 Y dimension, 5 texts, 5 circles.
    assert_eq!(d.entities.len(), 5 + 2 + 1 + 5 + 5);
    assert_eq!(count_lines(&d), 5);
    assert_eq!(count_dimensions(&d, false), 2);
    assert_eq!(count_dimensions(&d, true), 1);
    assert_eq!(count_texts(&d), 5);
    assert_eq!(count_circles(&d), 5);
    assert_eq!(d.dim_styles.len(), 1);
}

#[test]
fn full_label_and_marker_geometry() {
    let d = compose(
        &labelled_grid(
            3,
            vec![6000, 6000],
            2,
            vec![4000],
            vec!["X1", "X2", "X3"],
            vec!["Y1", "Y2"],
        ),
        Strategy::Full,
    )
    .unwrap();
    // Segments: 5 lines, 2 X dims, 1 Y dim, then 3 X texts, 3 X
    // circles, 2 Y texts, 2 Y circles.
    let base = 5 + 2 + 1;
    let expected_x = [0, 6000, 12000];
    for (i, want_x) in expected_x.iter().enumerate() {
        match &d.entities[base + i] {
            Entity::Text { value, x, y, rotated, layer } => {
                assert_eq!(value, &format!("X{}", i + 1));
                assert_eq!(x, want_x);
                assert_eq!(*y, -7000);
                assert!(!rotated);
                assert_eq!(layer, "寸法");
            }
            _ => panic!("expected an X label"),
        }
        match &d.entities[base + 3 + i] {
            Entity::Circle { x, y, radius, layer } => {
                assert_eq!(x, want_x);
                assert_eq!(*y, -7000);
                assert_eq!(*radius, 1000);
                assert_eq!(layer, "寸法");
            }
            _ => panic!("expected an X marker circle"),
        }
    }
    let expected_y = [0, 4000];
    for (i, want_y) in expected_y.iter().enumerate() {
        match &d.entities[base + 6 + i] {
            Entity::Text { value, x, y, rotated, .. } => {
                assert_eq!(value, &format!("Y{}", i + 1));
                assert_eq!(*x, -7000);
                assert_eq!(y, want_y);
                assert!(rotated);
            }
            _ => panic!("expected a Y label"),
        }
        match &d.entities[base + 8 + i] {
            Entity::Circle { x, y, .. } => {
                assert_eq!(*x, -7000);
                assert_eq!(y, want_y);
            }
            _ => panic!("expected a Y marker circle"),
        }
    }
}

#[test]
fn full_y_dimension_is_rotated() {
    let d = compose(
        &labelled_grid(2, vec![6000], 3, vec![4000, 5000], vec!["A", "B"], vec![
            "1", "2", "3",
        ]),
        Strategy::Full,
    )
    .unwrap();
    // Entities: 5 lines, 1 X dimension, then the 2 Y dimensions.
    match &d.entities[5 + 1] {
        Entity::Dimension { x1, y1, x2, y2, anchor_x, anchor_y, rotated, .. } => {
            assert_eq!(*x1, 0);
            assert_eq!(*y1, 0);
            assert_eq!(*x2, 0);
            assert_eq!(*y2, 4000);
            assert_eq!(*anchor_x, -5000);
            assert_eq!(*anchor_y, 2000);
            assert!(rotated);
        }
        _ => panic!("expected a Y dimension"),
    }
}

#[test]
fn span_mismatch_fails_before_any_emission() {
    // axis_count_x = 4 but only 2 spans: the composition reports the
    // mismatch and hands back no drawing at all.
    let r = compose(&grid(4, vec![6000, 6000], 2, vec![4000]), Strategy::Full);
    assert!(matches!(r, Err(GridError::DimensionMismatch)));
}

#[test]
fn negative_span_fails_composition() {
    let r = compose(&grid(3, vec![6000, -2], 2, vec![4000]), Strategy::Minimal);
    assert!(matches!(r, Err(GridError::InvalidSpan)));
}

#[test]
fn x_axis_is_validated_before_y_axis() {
    // A length mismatch on X wins over a negative span on Y.
    let r = compose(&grid(4, vec![6000], 2, vec![-1]), Strategy::Minimal);
    assert!(matches!(r, Err(GridError::DimensionMismatch)));
}

#[test]
fn full_requires_label_lists() {
    let r = compose(&grid(3, vec![6000, 6000], 2, vec![4000]), Strategy::Full);
    assert!(matches!(r, Err(GridError::DimensionMismatch)));
}

#[test]
fn full_rejects_short_label_list() {
    let r = compose(
        &labelled_grid(3, vec![6000, 6000], 2, vec![4000], vec!["X1", "X2"], vec![
            "Y1", "Y2",
        ]),
        Strategy::Full,
    );
    assert!(matches!(r, Err(GridError::DimensionMismatch)));
}

#[test]
fn minimal_ignores_missing_labels() {
    // The two simpler strategies never read the label lists.
    let g = grid(3, vec![6000, 6000], 2, vec![4000]);
    assert!(compose(&g, Strategy::Minimal).is_ok());
    assert!(compose(&g, Strategy::Dimensioned).is_ok());
}

#[test]
fn dimension_style_registration_is_idempotent() {
    let mut d = Drawing::new();
    d.register_dim_style("mydim".to_string(), 1000, 500, 2000);
    d.register_dim_style("mydim".to_string(), 1000, 500, 2000);
    assert_eq!(d.dim_styles.len(), 1);
    d.register_dim_style("other".to_string(), 700, 300, 1500);
    assert_eq!(d.dim_styles.len(), 2);
}
