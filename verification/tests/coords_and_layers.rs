use stdr_refline::coords::derive_coordinates;
use stdr_refline::grid::{GridError, LayerName, RefLine};

fn bare_grid(num_x: u32, x_spans: Vec<i64>, num_y: u32, y_spans: Vec<i64>) -> RefLine {
    RefLine {
        num_x_axis: num_x,
        num_y_axis: num_y,
        num_floor: 1,
        x_spans,
        y_spans,
        floor_heights: vec![],
        x_axes: None,
        y_axes: None,
        layer_name: None,
    }
}

#[test]
fn coordinates_are_prefix_sums() {
    let coords = derive_coordinates(3, &vec![6000, 6000]).unwrap();
    assert_eq!(coords, vec![0, 6000, 12000]);

    let coords = derive_coordinates(4, &vec![5000, 7000, 250]).unwrap();
    assert_eq!(coords, vec![0, 5000, 12000, 12250]);
}

#[test]
fn coordinates_last_span_not_consumed() {
    // A running sum, not a cumulative total: n spans give n + 1
    // positions and the last position is the total span.
    let coords = derive_coordinates(2, &vec![4000]).unwrap();
    assert_eq!(coords.len(), 2);
    assert_eq!(coords[0], 0);
    assert_eq!(coords[1], 4000);
}

#[test]
fn single_axis_has_origin_only() {
    let coords = derive_coordinates(1, &vec![]).unwrap();
    assert_eq!(coords, vec![0]);
}

#[test]
fn zero_width_spans_keep_positions_non_decreasing() {
    let coords = derive_coordinates(4, &vec![0, 100, 0]).unwrap();
    assert_eq!(coords, vec![0, 0, 100, 100]);
}

#[test]
fn span_count_mismatch_is_rejected() {
    assert!(matches!(
        derive_coordinates(4, &vec![1000, 2000]),
        Err(GridError::DimensionMismatch)
    ));
    assert!(matches!(
        derive_coordinates(1, &vec![1000]),
        Err(GridError::DimensionMismatch)
    ));
}

#[test]
fn negative_span_is_rejected() {
    assert!(matches!(
        derive_coordinates(3, &vec![5000, -1]),
        Err(GridError::InvalidSpan)
    ));
}

#[test]
fn layer_resolution_defaults() {
    let names = bare_grid(2, vec![1000], 2, vec![1000]).layer_name();
    assert_eq!(names.ref_line(), "通り芯");
    assert_eq!(names.dimension(), "寸法");
}

#[test]
fn layer_resolution_fields_default_independently() {
    let partial = LayerName {
        ref_line: Some("A".to_string()),
        dimension: None,
    };
    assert_eq!(partial.ref_line(), "A");
    assert_eq!(partial.dimension(), "寸法");

    let other = LayerName {
        ref_line: None,
        dimension: Some("D-1".to_string()),
    };
    assert_eq!(other.ref_line(), "通り芯");
    assert_eq!(other.dimension(), "D-1");
}

#[test]
fn layer_resolution_keeps_overrides() {
    let mut grid = bare_grid(2, vec![1000], 2, vec![1000]);
    grid.layer_name = Some(LayerName {
        ref_line: Some("axes".to_string()),
        dimension: Some("notes".to_string()),
    });
    let names = grid.layer_name();
    assert_eq!(names.ref_line(), "axes");
    assert_eq!(names.dimension(), "notes");
}
