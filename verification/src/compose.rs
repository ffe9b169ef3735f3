//! Drawing composition: one parameterised composer that turns a grid
//! specification into a drawing, at one of three annotation levels.
//! All three levels share the coordinate derivation, the layer
//! resolution and the line, dimension and label emission below.

use vstd::prelude::*;
use crate::coords::{
    all_non_negative, coord_at, derive_coordinates, lemma_coordinate_law, sum_of,
};
use crate::drawing::{
    count_where, is_line_entity, is_x_dimension_entity, is_x_label_text, is_y_dimension_entity,
    is_y_label_text, lemma_count_interval, Drawing, Entity,
};
use crate::grid::{GridError, RefLine};

verus! {

/// Perpendicular gap between a measured pair of points and the
/// dimension's text anchor.
pub const DIM_GAP: i64 = 5000;

/// Perpendicular offset of the axis-label anchors from the first grid
/// line: one label row below the y = 0 line, one label column left of
/// the x = 0 line.
pub const LABEL_OFFSET: i64 = -7000;

/// Radius of the marker circle ringing each axis label.
pub const MARKER_RADIUS: i64 = 1000;

/// Text height registered in the shared dimension style.
pub const DIM_TEXT_HEIGHT: i64 = 1000;

/// Arrow size registered in the shared dimension style.
pub const DIM_ARROW_SIZE: i64 = 500;

/// Extension line offset registered in the shared dimension style.
pub const DIM_EXTENSION_OFFSET: i64 = 2000;

/// Name under which the shared dimension style is registered.
pub open spec fn dim_style_name() -> Seq<char> {
    "mydim"@
}

/// Line style of the reference-line layer.
pub open spec fn ref_line_style() -> Seq<char> {
    "CENTER"@
}

/// How much annotation a composition emits beyond the grid lines.
#[derive(Clone, Copy, Debug, PartialEq, Eq, Structural)]
pub enum Strategy {
    /// Grid lines only.
    Minimal,
    /// Grid lines and ordinate dimensions along the X axis.
    Dimensioned,
    /// Grid lines, ordinate dimensions along both axes, and axis
    /// labels with marker circles on both axes.
    Full,
}

pub open spec fn emits_x_dimensions(strategy: Strategy) -> bool {
    strategy is Dimensioned || strategy is Full
}

pub open spec fn emits_y_dimensions(strategy: Strategy) -> bool {
    strategy is Full
}

pub open spec fn emits_labels(strategy: Strategy) -> bool {
    strategy is Full
}

/// Both label lists are present and hold one label per axis line.
pub open spec fn labels_ok(input: RefLine) -> bool {
    &&& input.x_axes matches Some(xl) && xl@.len() == input.num_x_axis as int
    &&& input.y_axes matches Some(yl) && yl@.len() == input.num_y_axis as int
}

/// Label of the `i`-th X axis line.
pub open spec fn x_label(input: RefLine, i: int) -> Seq<char> {
    match input.x_axes {
        Some(xl) => xl@[i]@,
        None => Seq::<char>::empty(),
    }
}

/// Label of the `i`-th Y axis line.
pub open spec fn y_label(input: RefLine, i: int) -> Seq<char> {
    match input.y_axes {
        Some(yl) => yl@[i]@,
        None => Seq::<char>::empty(),
    }
}

/// The error a composition reports, `None` exactly when the grid is
/// valid for the strategy.  The X axis is checked before the Y axis,
/// span list lengths before span signs, and label lists last.
pub open spec fn compose_error(input: RefLine, strategy: Strategy) -> Option<GridError> {
    if input.x_spans@.len() != input.num_x_axis as int - 1 {
        Some(GridError::DimensionMismatch)
    } else if !all_non_negative(input.x_spans@) {
        Some(GridError::InvalidSpan)
    } else if input.y_spans@.len() != input.num_y_axis as int - 1 {
        Some(GridError::DimensionMismatch)
    } else if !all_non_negative(input.y_spans@) {
        Some(GridError::InvalidSpan)
    } else if emits_labels(strategy) && !labels_ok(input) {
        Some(GridError::DimensionMismatch)
    } else {
        None
    }
}

/// A vertical grid line at `x`, from y = 0 up to `y_extent`.
pub open spec fn is_vertical_line(e: Entity, x: int, y_extent: int, layer: Seq<char>) -> bool {
    e matches Entity::Line { x1, y1, x2, y2, layer: l } && x1 == x && y1 == 0 && x2 == x && y2
        == y_extent && l@ == layer
}

/// A horizontal grid line at `y`, from x = 0 up to `x_extent`.
pub open spec fn is_horizontal_line(e: Entity, y: int, x_extent: int, layer: Seq<char>) -> bool {
    e matches Entity::Line { x1, y1, x2, y2, layer: l } && x1 == 0 && y1 == y && x2 == x_extent
        && y2 == y && l@ == layer
}

/// An ordinate dimension measuring along X between `xa` and `xb`,
/// anchored at the midpoint, one gap below the measured line.
pub open spec fn is_x_dimension(e: Entity, xa: int, xb: int, layer: Seq<char>) -> bool {
    e matches Entity::Dimension { x1, y1, x2, y2, anchor_x, anchor_y, rotated, layer: l }
        && x1 == xa && y1 == 0 && x2 == xb && y2 == 0 && anchor_x == (xa + xb) / 2 && anchor_y
        == -DIM_GAP && rotated == false && l@ == layer
}

/// An ordinate dimension measuring along Y between `ya` and `yb`,
/// anchored at the midpoint, one gap left of the measured line, its
/// text rotated to read bottom to top.
pub open spec fn is_y_dimension(e: Entity, ya: int, yb: int, layer: Seq<char>) -> bool {
    e matches Entity::Dimension { x1, y1, x2, y2, anchor_x, anchor_y, rotated, layer: l }
        && x1 == 0 && y1 == ya && x2 == 0 && y2 == yb && anchor_x == -DIM_GAP && anchor_y == (ya
        + yb) / 2 && rotated == true && l@ == layer
}

/// An axis label text centred at `(x, y)`.
pub open spec fn is_axis_text(
    e: Entity,
    value: Seq<char>,
    x: int,
    y: int,
    rot: bool,
    layer: Seq<char>,
) -> bool {
    e matches Entity::Text { value: v, x: ex, y: ey, rotated, layer: l } && v@ == value && ex == x
        && ey == y && rotated == rot && l@ == layer
}

/// A fixed-radius marker circle centred at `(x, y)`.
pub open spec fn is_marker_circle(e: Entity, x: int, y: int, layer: Seq<char>) -> bool {
    e matches Entity::Circle { x: ex, y: ey, radius, layer: l } && ex == x && ey == y && radius
        == MARKER_RADIUS && l@ == layer
}

/// Shape of the two layers every composition creates: the
/// reference-line layer with the centre line style, then the
/// dimension layer, both on colour index 3.
pub open spec fn layers_shape(d: Drawing, input: RefLine) -> bool {
    &&& d.layers@.len() == 2
    &&& d.layers@[0].name@ == input.spec_ref_line_layer()
    &&& d.layers@[0].color_index == 3
    &&& d.layers@[0].line_type matches Some(lt) && lt@ == ref_line_style()
    &&& d.layers@[1].name@ == input.spec_dimension_layer()
    &&& d.layers@[1].color_index == 3
    &&& d.layers@[1].line_type is None
}

/// The shared dimension style stands registered exactly once when the
/// strategy emits dimensions, and not at all otherwise.
pub open spec fn styles_shape(d: Drawing, strategy: Strategy) -> bool {
    if emits_x_dimensions(strategy) {
        &&& d.dim_styles@.len() == 1
        &&& d.dim_styles@[0].name@ == dim_style_name()
        &&& d.dim_styles@[0].text_height == DIM_TEXT_HEIGHT
        &&& d.dim_styles@[0].arrow_size == DIM_ARROW_SIZE
        &&& d.dim_styles@[0].extension_offset == DIM_EXTENSION_OFFSET
    } else {
        d.dim_styles@.len() == 0
    }
}

/// Number of entities a successful composition emits.
pub open spec fn entity_total(input: RefLine, strategy: Strategy) -> int {
    let nx = input.num_x_axis as int;
    let ny = input.num_y_axis as int;
    nx + ny + (if emits_x_dimensions(strategy) { nx - 1 } else { 0 }) + (if emits_y_dimensions(
        strategy,
    ) {
        ny - 1
    } else {
        0
    }) + (if emits_labels(strategy) { 2 * nx + 2 * ny } else { 0 })
}

/// Exact shape of a successfully composed drawing: the two layers,
/// the shared dimension style where dimensions are emitted, and the
/// entities in emission order — vertical grid lines, horizontal grid
/// lines, X dimensions, Y dimensions, X label texts, X marker
/// circles, Y label texts, Y marker circles.  Each grid line spans
/// the total span of the opposite axis.
pub open spec fn composed_shape(d: Drawing, input: RefLine, strategy: Strategy) -> bool {
    let nx = input.num_x_axis as int;
    let ny = input.num_y_axis as int;
    let sx = input.x_spans@;
    let sy = input.y_spans@;
    let rl = input.spec_ref_line_layer();
    let dl = input.spec_dimension_layer();
    let e = d.entities@;
    let xd = if emits_x_dimensions(strategy) { nx - 1 } else { 0 };
    let yd = if emits_y_dimensions(strategy) { ny - 1 } else { 0 };
    &&& layers_shape(d, input)
    &&& styles_shape(d, strategy)
    &&& e.len() == entity_total(input, strategy)
    &&& forall|i: int|
        0 <= i < nx ==> is_vertical_line(#[trigger] e[i], coord_at(sx, i), sum_of(sy), rl)
    &&& forall|i: int|
        0 <= i < ny ==> is_horizontal_line(#[trigger] e[nx + i], coord_at(sy, i), sum_of(sx), rl)
    &&& emits_x_dimensions(strategy) ==> forall|i: int|
        0 <= i < nx - 1 ==> is_x_dimension(
            #[trigger] e[nx + ny + i],
            coord_at(sx, i),
            coord_at(sx, i + 1),
            dl,
        )
    &&& emits_y_dimensions(strategy) ==> forall|i: int|
        0 <= i < ny - 1 ==> is_y_dimension(
            #[trigger] e[nx + ny + (nx - 1) + i],
            coord_at(sy, i),
            coord_at(sy, i + 1),
            dl,
        )
    &&& emits_labels(strategy) ==> {
        let base = nx + ny + (nx - 1) + (ny - 1);
        &&& forall|i: int|
            0 <= i < nx ==> is_axis_text(
                #[trigger] e[base + i],
                x_label(input, i),
                coord_at(sx, i),
                LABEL_OFFSET as int,
                false,
                dl,
            )
        &&& forall|i: int|
            0 <= i < nx ==> is_marker_circle(
                #[trigger] e[base + nx + i],
                coord_at(sx, i),
                LABEL_OFFSET as int,
                dl,
            )
        &&& forall|i: int|
            0 <= i < ny ==> is_axis_text(
                #[trigger] e[base + 2 * nx + i],
                y_label(input, i),
                LABEL_OFFSET as int,
                coord_at(sy, i),
                true,
                dl,
            )
        &&& forall|i: int|
            0 <= i < ny ==> is_marker_circle(
                #[trigger] e[base + 2 * nx + ny + i],
                LABEL_OFFSET as int,
                coord_at(sy, i),
                dl,
            )
    }
}

/// Compose a drawing from a grid at the given annotation level.
///
/// Validation runs before any layer or entity is created: on failure
/// the error is exactly `compose_error` and no drawing comes back.
/// On success the drawing holds exactly the layers, the style and the
/// entities of `composed_shape`.  The bound on each span total keeps
/// every derived coordinate and anchor within the whole-unit range.
#[verifier::rlimit(100)]
pub fn compose(input: &RefLine, strategy: Strategy) -> (r: Result<Drawing, GridError>)
    requires
        all_non_negative(input.x_spans@) ==> sum_of(input.x_spans@) <= i64::MAX as int / 2,
        all_non_negative(input.y_spans@) ==> sum_of(input.y_spans@) <= i64::MAX as int / 2,
    ensures
        match r {
            Ok(d) => compose_error(*input, strategy) is None && composed_shape(
                d,
                *input,
                strategy,
            ),
            Err(e) => compose_error(*input, strategy) == Some(e),
        },
{
    let xs = match derive_coordinates(input.num_x_axis, &input.x_spans) {
        Ok(v) => v,
        Err(e) => {
            return Err(e);
        },
    };
    let ys = match derive_coordinates(input.num_y_axis, &input.y_spans) {
        Ok(v) => v,
        Err(e) => {
            return Err(e);
        },
    };
    if matches!(strategy, Strategy::Full) {
        let labels_fit = match (&input.x_axes, &input.y_axes) {
            (Some(xl), Some(yl)) => xl.len() == xs.len() && yl.len() == ys.len(),
            _ => false,
        };
        if !labels_fit {
            return Err(GridError::DimensionMismatch);
        }
    }
    proof {
        lemma_coordinate_law(input.x_spans@);
        lemma_coordinate_law(input.y_spans@);
        assert forall|i: int|
            0 <= i < xs@.len() implies 0 <= #[trigger] xs@[i] && xs@[i] <= i64::MAX as int
            / 2 by {
            crate::coords::lemma_coords_monotone(input.x_spans@, 0, i);
            crate::coords::lemma_coords_monotone(input.x_spans@, i, input.x_spans@.len() as int);
        }
        assert forall|i: int|
            0 <= i < ys@.len() implies 0 <= #[trigger] ys@[i] && ys@[i] <= i64::MAX as int
            / 2 by {
            crate::coords::lemma_coords_monotone(input.y_spans@, 0, i);
            crate::coords::lemma_coords_monotone(input.y_spans@, i, input.y_spans@.len() as int);
        }
    }
    let names = input.layer_name();
    let ref_layer = names.ref_line();
    let dim_layer = names.dimension();

    let mut d = Drawing::new();
    d.add_layer(ref_layer.clone(), 3, Some("CENTER".to_owned()));
    d.add_layer(dim_layer.clone(), 3, None);

    let y_extent = ys[ys.len() - 1];
    let x_extent = xs[xs.len() - 1];

    let ghost nx = input.num_x_axis as int;
    let ghost ny = input.num_y_axis as int;
    let ghost sx = input.x_spans@;
    let ghost sy = input.y_spans@;
    let ghost rl = input.spec_ref_line_layer();
    let ghost dl = input.spec_dimension_layer();

    let ghost n0 = d.entities@.len();
    emit_vertical_lines(&mut d, &xs, y_extent, &ref_layer);
    proof {
        assert forall|i: int|
            0 <= i < nx implies is_vertical_line(
            #[trigger] d.entities@[i],
            coord_at(sx, i),
            sum_of(sy),
            rl,
        ) by {
            assert(is_vertical_line(d.entities@[n0 + i], xs@[i] as int, y_extent as int, ref_layer@));
        }
    }
    let ghost n1 = d.entities@.len();
    emit_horizontal_lines(&mut d, &ys, x_extent, &ref_layer);
    proof {
        assert(forall|i: int|
            0 <= i < nx ==> is_vertical_line(#[trigger] d.entities@[i], coord_at(sx, i), sum_of(sy), rl));
        assert forall|i: int|
            0 <= i < ny implies is_horizontal_line(
            #[trigger] d.entities@[nx + i],
            coord_at(sy, i),
            sum_of(sx),
            rl,
        ) by {
            assert(is_horizontal_line(d.entities@[n1 + i], ys@[i] as int, x_extent as int, ref_layer@));
        }
    }

    if matches!(strategy, Strategy::Dimensioned | Strategy::Full) {
        d.register_dim_style(
            "mydim".to_owned(),
            DIM_TEXT_HEIGHT,
            DIM_ARROW_SIZE,
            DIM_EXTENSION_OFFSET,
        );
        let ghost n2 = d.entities@.len();
        emit_x_dimensions(&mut d, &xs, &dim_layer);
        proof {
            assert(forall|i: int|
                0 <= i < nx ==> is_vertical_line(#[trigger] d.entities@[i], coord_at(sx, i), sum_of(sy), rl));
            assert(forall|i: int|
                0 <= i < ny ==> is_horizontal_line(#[trigger] d.entities@[nx + i], coord_at(sy, i), sum_of(sx), rl));
            assert forall|i: int|
                0 <= i < nx - 1 implies is_x_dimension(
                #[trigger] d.entities@[nx + ny + i],
                coord_at(sx, i),
                coord_at(sx, i + 1),
                dl,
            ) by {
                assert(is_x_dimension(d.entities@[n2 + i], xs@[i] as int, xs@[i + 1] as int, dim_layer@));
            }
        }
    }
    if matches!(strategy, Strategy::Full) {
        let ghost n3 = d.entities@.len();
        emit_y_dimensions(&mut d, &ys, &dim_layer);
        proof {
            assert(forall|i: int|
                0 <= i < nx ==> is_vertical_line(#[trigger] d.entities@[i], coord_at(sx, i), sum_of(sy), rl));
            assert(forall|i: int|
                0 <= i < ny ==> is_horizontal_line(#[trigger] d.entities@[nx + i], coord_at(sy, i), sum_of(sx), rl));
            assert(forall|i: int|
                0 <= i < nx - 1 ==> is_x_dimension(
                    #[trigger] d.entities@[nx + ny + i],
                    coord_at(sx, i),
                    coord_at(sx, i + 1),
                    dl,
                ));
            assert forall|i: int|
                0 <= i < ny - 1 implies is_y_dimension(
                #[trigger] d.entities@[nx + ny + (nx - 1) + i],
                coord_at(sy, i),
                coord_at(sy, i + 1),
                dl,
            ) by {
                assert(is_y_dimension(d.entities@[n3 + i], ys@[i] as int, ys@[i + 1] as int, dim_layer@));
            }
        }
        let ghost base = nx + ny + (nx - 1) + (ny - 1);
        match (&input.x_axes, &input.y_axes) {
            (Some(xl), Some(yl)) => {
                let ghost n4 = d.entities@.len();
                emit_label_texts(&mut d, &xs, xl, false, &dim_layer);
                proof {
                    assert forall|i: int|
                        0 <= i < nx implies is_axis_text(
                        #[trigger] d.entities@[base + i],
                        x_label(*input, i),
                        coord_at(sx, i),
                        LABEL_OFFSET as int,
                        false,
                        dl,
                    ) by {
                        assert(is_axis_text(
                            d.entities@[n4 + i],
                            xl@[i]@,
                            coord_at(sx, i),
                            LABEL_OFFSET as int,
                            false,
                            dim_layer@,
                        ));
                    }
                }
                let ghost n5 = d.entities@.len();
                emit_marker_circles(&mut d, &xs, false, &dim_layer);
                proof {
                    assert(forall|i: int|
                        0 <= i < nx ==> is_axis_text(
                            #[trigger] d.entities@[base + i],
                            x_label(*input, i),
                            coord_at(sx, i),
                            LABEL_OFFSET as int,
                            false,
                            dl,
                        ));
                    assert forall|i: int|
                        0 <= i < nx implies is_marker_circle(
                        #[trigger] d.entities@[base + nx + i],
                        coord_at(sx, i),
                        LABEL_OFFSET as int,
                        dl,
                    ) by {
                        assert(is_marker_circle(
                            d.entities@[n5 + i],
                            coord_at(sx, i),
                            LABEL_OFFSET as int,
                            dim_layer@,
                        ));
                    }
                }
                let ghost n6 = d.entities@.len();
                emit_label_texts(&mut d, &ys, yl, true, &dim_layer);
                proof {
                    assert(forall|i: int|
                        0 <= i < nx ==> is_axis_text(
                            #[trigger] d.entities@[base + i],
                            x_label(*input, i),
                            coord_at(sx, i),
                            LABEL_OFFSET as int,
                            false,
                            dl,
                        ));
                    assert(forall|i: int|
                        0 <= i < nx ==> is_marker_circle(
                            #[trigger] d.entities@[base + nx + i],
                            coord_at(sx, i),
                            LABEL_OFFSET as int,
                            dl,
                        ));
                    assert forall|i: int|
                        0 <= i < ny implies is_axis_text(
                        #[trigger] d.entities@[base + 2 * nx + i],
                        y_label(*input, i),
                        LABEL_OFFSET as int,
                        coord_at(sy, i),
                        true,
                        dl,
                    ) by {
                        assert(is_axis_text(
                            d.entities@[n6 + i],
                            yl@[i]@,
                            LABEL_OFFSET as int,
                            coord_at(sy, i),
                            true,
                            dim_layer@,
                        ));
                    }
                }
                let ghost n7 = d.entities@.len();
                emit_marker_circles(&mut d, &ys, true, &dim_layer);
                proof {
                    assert(forall|i: int|
                        0 <= i < nx ==> is_vertical_line(#[trigger] d.entities@[i], coord_at(sx, i), sum_of(sy), rl));
                    assert(forall|i: int|
                        0 <= i < ny ==> is_horizontal_line(#[trigger] d.entities@[nx + i], coord_at(sy, i), sum_of(sx), rl));
                    assert(forall|i: int|
                        0 <= i < nx - 1 ==> is_x_dimension(
                            #[trigger] d.entities@[nx + ny + i],
                            coord_at(sx, i),
                            coord_at(sx, i + 1),
                            dl,
                        ));
                    assert(forall|i: int|
                        0 <= i < ny - 1 ==> is_y_dimension(
                            #[trigger] d.entities@[nx + ny + (nx - 1) + i],
                            coord_at(sy, i),
                            coord_at(sy, i + 1),
                            dl,
                        ));
                    assert(forall|i: int|
                        0 <= i < nx ==> is_axis_text(
                            #[trigger] d.entities@[base + i],
                            x_label(*input, i),
                            coord_at(sx, i),
                            LABEL_OFFSET as int,
                            false,
                            dl,
                        ));
                    assert(forall|i: int|
                        0 <= i < nx ==> is_marker_circle(
                            #[trigger] d.entities@[base + nx + i],
                            coord_at(sx, i),
                            LABEL_OFFSET as int,
                            dl,
                        ));
                    assert(forall|i: int|
                        0 <= i < ny ==> is_axis_text(
                            #[trigger] d.entities@[base + 2 * nx + i],
                            y_label(*input, i),
                            LABEL_OFFSET as int,
                            coord_at(sy, i),
                            true,
                            dl,
                        ));
                    assert forall|i: int|
                        0 <= i < ny implies is_marker_circle(
                        #[trigger] d.entities@[base + 2 * nx + ny + i],
                        LABEL_OFFSET as int,
                        coord_at(sy, i),
                        dl,
                    ) by {
                        assert(is_marker_circle(
                            d.entities@[n7 + i],
                            LABEL_OFFSET as int,
                            coord_at(sy, i),
                            dim_layer@,
                        ));
                    }
                }
            },
            _ => {
                // Unreachable: the Full strategy validated both label
                // lists before any emission began.
                proof {
                    assert(false);
                }
                return Err(GridError::DimensionMismatch);
            },
        }
    }
    proof {
        assert(composed_shape(d, *input, strategy));
    }
    Ok(d)
}

/// Emit one vertical grid line per X coordinate, each spanning the
/// full Y extent, appended in coordinate order.
fn emit_vertical_lines(d: &mut Drawing, xs: &Vec<i64>, y_extent: i64, layer: &String)
    ensures
        final(d).layers == old(d).layers,
        final(d).dim_styles == old(d).dim_styles,
        final(d).entities@.len() == old(d).entities@.len() + xs@.len(),
        forall|i: int|
            0 <= i < old(d).entities@.len() ==> #[trigger] final(d).entities@[i] == old(
                d,
            ).entities@[i],
        forall|i: int|
            0 <= i < xs@.len() ==> is_vertical_line(
                #[trigger] final(d).entities@[old(d).entities@.len() + i],
                xs@[i] as int,
                y_extent as int,
                layer@,
            ),
{
    let ghost d0 = *d;
    let mut i: usize = 0;
    while i < xs.len()
        invariant
            i <= xs@.len(),
            d.layers == d0.layers,
            d.dim_styles == d0.dim_styles,
            d.entities@.len() == d0.entities@.len() + i,
            forall|j: int|
                0 <= j < d0.entities@.len() ==> #[trigger] d.entities@[j] == d0.entities@[j],
            forall|j: int|
                0 <= j < i ==> is_vertical_line(
                    #[trigger] d.entities@[d0.entities@.len() + j],
                    xs@[j] as int,
                    y_extent as int,
                    layer@,
                ),
        decreases xs@.len() - i,
    {
        d.add_line(xs[i], 0, xs[i], y_extent, layer.clone());
        i += 1;
    }
}

/// Emit one horizontal grid line per Y coordinate, each spanning the
/// full X extent, appended in coordinate order.
fn emit_horizontal_lines(d: &mut Drawing, ys: &Vec<i64>, x_extent: i64, layer: &String)
    ensures
        final(d).layers == old(d).layers,
        final(d).dim_styles == old(d).dim_styles,
        final(d).entities@.len() == old(d).entities@.len() + ys@.len(),
        forall|i: int|
            0 <= i < old(d).entities@.len() ==> #[trigger] final(d).entities@[i] == old(
                d,
            ).entities@[i],
        forall|i: int|
            0 <= i < ys@.len() ==> is_horizontal_line(
                #[trigger] final(d).entities@[old(d).entities@.len() + i],
                ys@[i] as int,
                x_extent as int,
                layer@,
            ),
{
    let ghost d0 = *d;
    let mut i: usize = 0;
    while i < ys.len()
        invariant
            i <= ys@.len(),
            d.layers == d0.layers,
            d.dim_styles == d0.dim_styles,
            d.entities@.len() == d0.entities@.len() + i,
            forall|j: int|
                0 <= j < d0.entities@.len() ==> #[trigger] d.entities@[j] == d0.entities@[j],
            forall|j: int|
                0 <= j < i ==> is_horizontal_line(
                    #[trigger] d.entities@[d0.entities@.len() + j],
                    ys@[j] as int,
                    x_extent as int,
                    layer@,
                ),
        decreases ys@.len() - i,
    {
        d.add_line(0, ys[i], x_extent, ys[i], layer.clone());
        i += 1;
    }
}

/// Emit one ordinate dimension per adjacent pair of X coordinates:
/// the last span is never measured past the final axis line.
fn emit_x_dimensions(d: &mut Drawing, xs: &Vec<i64>, layer: &String)
    requires
        xs@.len() >= 1,
        forall|i: int|
            0 <= i < xs@.len() ==> 0 <= #[trigger] xs@[i] && xs@[i] <= i64::MAX as int / 2,
    ensures
        final(d).layers == old(d).layers,
        final(d).dim_styles == old(d).dim_styles,
        final(d).entities@.len() == old(d).entities@.len() + xs@.len() - 1,
        forall|i: int|
            0 <= i < old(d).entities@.len() ==> #[trigger] final(d).entities@[i] == old(
                d,
            ).entities@[i],
        forall|i: int|
            0 <= i < xs@.len() - 1 ==> is_x_dimension(
                #[trigger] final(d).entities@[old(d).entities@.len() + i],
                xs@[i] as int,
                xs@[i + 1] as int,
                layer@,
            ),
{
    let ghost d0 = *d;
    let mut i: usize = 1;
    while i < xs.len()
        invariant
            1 <= i <= xs@.len(),
            forall|j: int|
                0 <= j < xs@.len() ==> 0 <= #[trigger] xs@[j] && xs@[j] <= i64::MAX as int / 2,
            d.layers == d0.layers,
            d.dim_styles == d0.dim_styles,
            d.entities@.len() == d0.entities@.len() + i - 1,
            forall|j: int|
                0 <= j < d0.entities@.len() ==> #[trigger] d.entities@[j] == d0.entities@[j],
            forall|j: int|
                0 <= j < i - 1 ==> is_x_dimension(
                    #[trigger] d.entities@[d0.entities@.len() + j],
                    xs@[j] as int,
                    xs@[j + 1] as int,
                    layer@,
                ),
        decreases xs@.len() - i,
    {
        let xa = xs[i - 1];
        let xb = xs[i];
        let mid = (((xa as u64) + (xb as u64)) / 2) as i64;
        d.add_dimension(xa, 0, xb, 0, mid, -DIM_GAP, false, layer.clone());
        i += 1;
    }
}

/// Emit one ordinate dimension per adjacent pair of Y coordinates,
/// rotated so the text reads bottom to top.
fn emit_y_dimensions(d: &mut Drawing, ys: &Vec<i64>, layer: &String)
    requires
        ys@.len() >= 1,
        forall|i: int|
            0 <= i < ys@.len() ==> 0 <= #[trigger] ys@[i] && ys@[i] <= i64::MAX as int / 2,
    ensures
        final(d).layers == old(d).layers,
        final(d).dim_styles == old(d).dim_styles,
        final(d).entities@.len() == old(d).entities@.len() + ys@.len() - 1,
        forall|i: int|
            0 <= i < old(d).entities@.len() ==> #[trigger] final(d).entities@[i] == old(
                d,
            ).entities@[i],
        forall|i: int|
            0 <= i < ys@.len() - 1 ==> is_y_dimension(
                #[trigger] final(d).entities@[old(d).entities@.len() + i],
                ys@[i] as int,
                ys@[i + 1] as int,
                layer@,
            ),
{
    let ghost d0 = *d;
    let mut i: usize = 1;
    while i < ys.len()
        invariant
            1 <= i <= ys@.len(),
            forall|j: int|
                0 <= j < ys@.len() ==> 0 <= #[trigger] ys@[j] && ys@[j] <= i64::MAX as int / 2,
            d.layers == d0.layers,
            d.dim_styles == d0.dim_styles,
            d.entities@.len() == d0.entities@.len() + i - 1,
            forall|j: int|
                0 <= j < d0.entities@.len() ==> #[trigger] d.entities@[j] == d0.entities@[j],
            forall|j: int|
                0 <= j < i - 1 ==> is_y_dimension(
                    #[trigger] d.entities@[d0.entities@.len() + j],
                    ys@[j] as int,
                    ys@[j + 1] as int,
                    layer@,
                ),
        decreases ys@.len() - i,
    {
        let ya = ys[i - 1];
        let yb = ys[i];
        let mid = (((ya as u64) + (yb as u64)) / 2) as i64;
        d.add_dimension(0, ya, 0, yb, -DIM_GAP, mid, true, layer.clone());
        i += 1;
    }
}

/// Emit one label text per axis coordinate, anchored one label offset
/// outside the grid; `rotated` selects the Y-axis orientation.
fn emit_label_texts(
    d: &mut Drawing,
    coords: &Vec<i64>,
    labels: &Vec<String>,
    rotated: bool,
    layer: &String,
)
    requires
        coords@.len() == labels@.len(),
    ensures
        final(d).layers == old(d).layers,
        final(d).dim_styles == old(d).dim_styles,
        final(d).entities@.len() == old(d).entities@.len() + coords@.len(),
        forall|i: int|
            0 <= i < old(d).entities@.len() ==> #[trigger] final(d).entities@[i] == old(
                d,
            ).entities@[i],
        forall|i: int|
            0 <= i < coords@.len() ==> is_axis_text(
                #[trigger] final(d).entities@[old(d).entities@.len() + i],
                labels@[i]@,
                (if rotated { LABEL_OFFSET as int } else { coords@[i] as int }),
                (if rotated { coords@[i] as int } else { LABEL_OFFSET as int }),
                rotated,
                layer@,
            ),
{
    let ghost d0 = *d;
    let mut i: usize = 0;
    while i < coords.len()
        invariant
            i <= coords@.len(),
            coords@.len() == labels@.len(),
            d.layers == d0.layers,
            d.dim_styles == d0.dim_styles,
            d.entities@.len() == d0.entities@.len() + i,
            forall|j: int|
                0 <= j < d0.entities@.len() ==> #[trigger] d.entities@[j] == d0.entities@[j],
            forall|j: int|
                0 <= j < i ==> is_axis_text(
                    #[trigger] d.entities@[d0.entities@.len() + j],
                    labels@[j]@,
                    (if rotated { LABEL_OFFSET as int } else { coords@[j] as int }),
                    (if rotated { coords@[j] as int } else { LABEL_OFFSET as int }),
                    rotated,
                    layer@,
                ),
        decreases coords@.len() - i,
    {
        let x = if rotated { LABEL_OFFSET } else { coords[i] };
        let y = if rotated { coords[i] } else { LABEL_OFFSET };
        d.add_text(labels[i].clone(), x, y, rotated, layer.clone());
        i += 1;
    }
}

/// Emit one marker circle per axis coordinate, centred on the label
/// anchor; `rotated` selects the Y-axis orientation.
fn emit_marker_circles(d: &mut Drawing, coords: &Vec<i64>, rotated: bool, layer: &String)
    ensures
        final(d).layers == old(d).layers,
        final(d).dim_styles == old(d).dim_styles,
        final(d).entities@.len() == old(d).entities@.len() + coords@.len(),
        forall|i: int|
            0 <= i < old(d).entities@.len() ==> #[trigger] final(d).entities@[i] == old(
                d,
            ).entities@[i],
        forall|i: int|
            0 <= i < coords@.len() ==> is_marker_circle(
                #[trigger] final(d).entities@[old(d).entities@.len() + i],
                (if rotated { LABEL_OFFSET as int } else { coords@[i] as int }),
                (if rotated { coords@[i] as int } else { LABEL_OFFSET as int }),
                layer@,
            ),
{
    let ghost d0 = *d;
    let mut i: usize = 0;
    while i < coords.len()
        invariant
            i <= coords@.len(),
            d.layers == d0.layers,
            d.dim_styles == d0.dim_styles,
            d.entities@.len() == d0.entities@.len() + i,
            forall|j: int|
                0 <= j < d0.entities@.len() ==> #[trigger] d.entities@[j] == d0.entities@[j],
            forall|j: int|
                0 <= j < i ==> is_marker_circle(
                    #[trigger] d.entities@[d0.entities@.len() + j],
                    (if rotated { LABEL_OFFSET as int } else { coords@[j] as int }),
                    (if rotated { coords@[j] as int } else { LABEL_OFFSET as int }),
                    layer@,
                ),
        decreases coords@.len() - i,
    {
        let x = if rotated { LABEL_OFFSET } else { coords[i] };
        let y = if rotated { coords[i] } else { LABEL_OFFSET };
        d.add_circle(x, y, MARKER_RADIUS, layer.clone());
        i += 1;
    }
}

/// A marker circle of the X-axis label row, one label offset below
/// the grid.
pub open spec fn is_x_marker_entity(e: Entity) -> bool {
    e matches Entity::Circle { y, .. } && y == LABEL_OFFSET
}

/// A marker circle of the Y-axis label column, one label offset left
/// of the grid.
pub open spec fn is_y_marker_entity(e: Entity) -> bool {
    e matches Entity::Circle { x, .. } && x == LABEL_OFFSET
}

pub open spec fn line_entity_pred() -> spec_fn(Entity) -> bool {
    |e: Entity| is_line_entity(e)
}

pub open spec fn x_dimension_pred() -> spec_fn(Entity) -> bool {
    |e: Entity| is_x_dimension_entity(e)
}

pub open spec fn y_dimension_pred() -> spec_fn(Entity) -> bool {
    |e: Entity| is_y_dimension_entity(e)
}

pub open spec fn x_text_pred() -> spec_fn(Entity) -> bool {
    |e: Entity| is_x_label_text(e)
}

pub open spec fn y_text_pred() -> spec_fn(Entity) -> bool {
    |e: Entity| is_y_label_text(e)
}

pub open spec fn x_marker_pred() -> spec_fn(Entity) -> bool {
    |e: Entity| is_x_marker_entity(e)
}

pub open spec fn y_marker_pred() -> spec_fn(Entity) -> bool {
    |e: Entity| is_y_marker_entity(e)
}

/// Number of ordinate dimensions the strategy emits along X.
pub open spec fn dims_x_count(input: RefLine, strategy: Strategy) -> int {
    if emits_x_dimensions(strategy) {
        input.num_x_axis as int - 1
    } else {
        0
    }
}

/// Number of ordinate dimensions the strategy emits along Y.
pub open spec fn dims_y_count(input: RefLine, strategy: Strategy) -> int {
    if emits_y_dimensions(strategy) {
        input.num_y_axis as int - 1
    } else {
        0
    }
}

/// Index of the first label entity in a composed drawing.
pub open spec fn labels_base(input: RefLine, strategy: Strategy) -> int {
    input.num_x_axis as int + input.num_y_axis as int + dims_x_count(input, strategy)
        + dims_y_count(input, strategy)
}

/// What kind of entity stands at index `i` of a composed drawing,
/// segment by segment.
proof fn lemma_entity_kind_at(d: Drawing, input: RefLine, strategy: Strategy, i: int)
    requires
        compose_error(input, strategy) is None,
        composed_shape(d, input, strategy),
        0 <= i < d.entities@.len(),
    ensures
        0 <= i < input.num_x_axis as int + input.num_y_axis as int ==> is_line_entity(
            d.entities@[i],
        ),
        input.num_x_axis as int + input.num_y_axis as int <= i < labels_base(input, strategy)
            - dims_y_count(input, strategy) ==> is_x_dimension_entity(d.entities@[i]),
        labels_base(input, strategy) - dims_y_count(input, strategy) <= i < labels_base(
            input,
            strategy,
        ) ==> is_y_dimension_entity(d.entities@[i]),
        labels_base(input, strategy) <= i < labels_base(input, strategy)
            + input.num_x_axis as int ==> is_x_label_text(d.entities@[i]) && !is_y_label_text(
            d.entities@[i],
        ),
        labels_base(input, strategy) + input.num_x_axis as int <= i < labels_base(input, strategy)
            + 2 * input.num_x_axis as int ==> is_x_marker_entity(d.entities@[i])
            && !is_y_marker_entity(d.entities@[i]),
        labels_base(input, strategy) + 2 * input.num_x_axis as int <= i < labels_base(
            input,
            strategy,
        ) + 2 * input.num_x_axis as int + input.num_y_axis as int ==> is_y_label_text(
            d.entities@[i],
        ) && !is_x_label_text(d.entities@[i]),
        labels_base(input, strategy) + 2 * input.num_x_axis as int + input.num_y_axis as int <= i
            ==> is_y_marker_entity(d.entities@[i]) && !is_x_marker_entity(d.entities@[i]),
{
    let nx = input.num_x_axis as int;
    let ny = input.num_y_axis as int;
    let sx = input.x_spans@;
    let sy = input.y_spans@;
    let rl = input.spec_ref_line_layer();
    let dl = input.spec_dimension_layer();
    let xd = if emits_x_dimensions(strategy) { nx - 1 } else { 0 };
    let yd = if emits_y_dimensions(strategy) { ny - 1 } else { 0 };
    let base = nx + ny + xd + yd;
    let e = d.entities@;
    lemma_coordinate_law(sx);
    lemma_coordinate_law(sy);
    if i < nx {
        assert(is_vertical_line(e[i], coord_at(sx, i), sum_of(sy), rl));
    } else if i < nx + ny {
        let j = i - nx;
        assert(is_horizontal_line(e[nx + j], coord_at(sy, j), sum_of(sx), rl));
        assert(e[nx + j] == e[i]);
    } else if i < nx + ny + xd {
        let j = i - nx - ny;
        assert(is_x_dimension(e[nx + ny + j], coord_at(sx, j), coord_at(sx, j + 1), dl));
        assert(e[nx + ny + j] == e[i]);
    } else if i < base {
        let j = i - nx - ny - xd;
        assert(is_y_dimension(e[nx + ny + (nx - 1) + j], coord_at(sy, j), coord_at(sy, j + 1), dl));
        assert(e[nx + ny + (nx - 1) + j] == e[i]);
    } else if i < base + nx {
        let j = i - base;
        assert(is_axis_text(
            e[nx + ny + (nx - 1) + (ny - 1) + j],
            x_label(input, j),
            coord_at(sx, j),
            LABEL_OFFSET as int,
            false,
            dl,
        ));
        assert(e[nx + ny + (nx - 1) + (ny - 1) + j] == e[i]);
    } else if i < base + 2 * nx {
        let j = i - base - nx;
        assert(is_marker_circle(
            e[nx + ny + (nx - 1) + (ny - 1) + nx + j],
            coord_at(sx, j),
            LABEL_OFFSET as int,
            dl,
        ));
        assert(e[nx + ny + (nx - 1) + (ny - 1) + nx + j] == e[i]);
        assert(coord_at(sx, j) >= coord_at(sx, 0));
    } else if i < base + 2 * nx + ny {
        let j = i - base - 2 * nx;
        assert(is_axis_text(
            e[nx + ny + (nx - 1) + (ny - 1) + 2 * nx + j],
            y_label(input, j),
            LABEL_OFFSET as int,
            coord_at(sy, j),
            true,
            dl,
        ));
        assert(e[nx + ny + (nx - 1) + (ny - 1) + 2 * nx + j] == e[i]);
    } else {
        let j = i - base - 2 * nx - ny;
        assert(is_marker_circle(
            e[nx + ny + (nx - 1) + (ny - 1) + 2 * nx + ny + j],
            LABEL_OFFSET as int,
            coord_at(sy, j),
            dl,
        ));
        assert(e[nx + ny + (nx - 1) + (ny - 1) + 2 * nx + ny + j] == e[i]);
        assert(coord_at(sy, j) >= coord_at(sy, 0));
    }
}

/// Laws of the entity counts in a composed drawing: one grid line per
/// axis line on both axes under every strategy; one ordinate
/// dimension per adjacent pair of axis lines on each dimensioned axis
/// and none on the others; one label text and one marker circle per
/// axis line on each axis under the Full strategy and none under the
/// other two.
pub proof fn lemma_entity_counts(d: Drawing, input: RefLine, strategy: Strategy)
    requires
        compose_error(input, strategy) is None,
        composed_shape(d, input, strategy),
    ensures
        count_where(d.entities@, line_entity_pred()) == input.num_x_axis as int
            + input.num_y_axis as int,
        count_where(d.entities@, x_dimension_pred()) == dims_x_count(input, strategy),
        count_where(d.entities@, y_dimension_pred()) == dims_y_count(input, strategy),
        count_where(d.entities@, x_text_pred()) == (if emits_labels(strategy) {
            input.num_x_axis as int
        } else {
            0
        }),
        count_where(d.entities@, x_marker_pred()) == (if emits_labels(strategy) {
            input.num_x_axis as int
        } else {
            0
        }),
        count_where(d.entities@, y_text_pred()) == (if emits_labels(strategy) {
            input.num_y_axis as int
        } else {
            0
        }),
        count_where(d.entities@, y_marker_pred()) == (if emits_labels(strategy) {
            input.num_y_axis as int
        } else {
            0
        }),
{
    let nx = input.num_x_axis as int;
    let ny = input.num_y_axis as int;
    let xd = dims_x_count(input, strategy);
    let yd = dims_y_count(input, strategy);
    let base = labels_base(input, strategy);
    let e = d.entities@;
    let lx = if emits_labels(strategy) { nx } else { 0 };
    let ly = if emits_labels(strategy) { ny } else { 0 };

    let p_line = line_entity_pred();
    assert forall|i: int| 0 <= i < e.len() implies (p_line(#[trigger] e[i]) <==> 0 <= i < nx
        + ny) by {
        lemma_entity_kind_at(d, input, strategy, i);
    }
    lemma_count_interval(e, p_line, 0, nx + ny);

    let p_xd = x_dimension_pred();
    assert forall|i: int| 0 <= i < e.len() implies (p_xd(#[trigger] e[i]) <==> nx + ny <= i < nx
        + ny + xd) by {
        lemma_entity_kind_at(d, input, strategy, i);
    }
    lemma_count_interval(e, p_xd, nx + ny, nx + ny + xd);

    let p_yd = y_dimension_pred();
    assert forall|i: int| 0 <= i < e.len() implies (p_yd(#[trigger] e[i]) <==> nx + ny + xd <= i
        < base) by {
        lemma_entity_kind_at(d, input, strategy, i);
    }
    lemma_count_interval(e, p_yd, nx + ny + xd, base);

    let p_xt = x_text_pred();
    assert forall|i: int| 0 <= i < e.len() implies (p_xt(#[trigger] e[i]) <==> base <= i < base
        + lx) by {
        lemma_entity_kind_at(d, input, strategy, i);
    }
    lemma_count_interval(e, p_xt, base, base + lx);

    let p_xm = x_marker_pred();
    assert forall|i: int| 0 <= i < e.len() implies (p_xm(#[trigger] e[i]) <==> base + lx <= i
        < base + 2 * lx) by {
        lemma_entity_kind_at(d, input, strategy, i);
    }
    lemma_count_interval(e, p_xm, base + lx, base + 2 * lx);

    let p_yt = y_text_pred();
    assert forall|i: int| 0 <= i < e.len() implies (p_yt(#[trigger] e[i]) <==> base + 2 * lx <= i
        < base + 2 * lx + ly) by {
        lemma_entity_kind_at(d, input, strategy, i);
    }
    lemma_count_interval(e, p_yt, base + 2 * lx, base + 2 * lx + ly);

    let p_ym = y_marker_pred();
    assert forall|i: int| 0 <= i < e.len() implies (p_ym(#[trigger] e[i]) <==> base + 2 * lx + ly
        <= i < base + 2 * lx + 2 * ly) by {
        lemma_entity_kind_at(d, input, strategy, i);
    }
    lemma_count_interval(e, p_ym, base + 2 * lx + ly, base + 2 * lx + 2 * ly);
}

} // verus!
