//! The drawing model: an append-only collection of layers, dimension
//! styles and geometric entities with whole-unit coordinates.  The
//! composer fills one drawing; the surrounding program hands it to a
//! CAD container for persistence and never reads it back.

use vstd::prelude::*;

verus! {

/// A named grouping of entities, with the colour index and optional
/// line style the CAD container understands.
pub struct DrawingLayer {
    pub name: String,
    pub color_index: u8,
    pub line_type: Option<String>,
}

/// A dimension style: the fixed text height, arrow size and extension
/// line offset shared by every ordinate dimension of one drawing.
pub struct DimStyle {
    pub name: String,
    pub text_height: i64,
    pub arrow_size: i64,
    pub extension_offset: i64,
}

/// A geometric primitive of the drawing.
pub enum Entity {
    /// Straight line from `(x1, y1)` to `(x2, y2)`.
    Line { x1: i64, y1: i64, x2: i64, y2: i64, layer: String },
    /// Ordinate dimension between definition points `(x1, y1)` and
    /// `(x2, y2)`, its text anchored at `(anchor_x, anchor_y)`.
    /// `rotated` means the text reads bottom to top (measurements
    /// along the Y axis).
    Dimension {
        x1: i64,
        y1: i64,
        x2: i64,
        y2: i64,
        anchor_x: i64,
        anchor_y: i64,
        rotated: bool,
        layer: String,
    },
    /// Axis label text centred at `(x, y)`; `rotated` as above.
    Text { value: String, x: i64, y: i64, rotated: bool, layer: String },
    /// Marker circle ringing an axis label.
    Circle { x: i64, y: i64, radius: i64, layer: String },
}

pub open spec fn is_line_entity(e: Entity) -> bool {
    e is Line
}

/// An ordinate dimension measuring along the X axis (text unrotated).
pub open spec fn is_x_dimension_entity(e: Entity) -> bool {
    e matches Entity::Dimension { rotated, .. } && !rotated
}

/// An ordinate dimension measuring along the Y axis (text rotated).
pub open spec fn is_y_dimension_entity(e: Entity) -> bool {
    e matches Entity::Dimension { rotated, .. } && rotated
}

/// An axis label of the X axis (text unrotated).
pub open spec fn is_x_label_text(e: Entity) -> bool {
    e matches Entity::Text { rotated, .. } && !rotated
}

/// An axis label of the Y axis (text rotated).
pub open spec fn is_y_label_text(e: Entity) -> bool {
    e matches Entity::Text { rotated, .. } && rotated
}

/// Number of entries of `s` satisfying `p`.
pub open spec fn count_where(s: Seq<Entity>, p: spec_fn(Entity) -> bool) -> int
    decreases s.len(),
{
    if s.len() == 0 {
        0
    } else {
        count_where(s.drop_last(), p) + if p(s.last()) {
            1int
        } else {
            0int
        }
    }
}

/// When `p` holds exactly on the index interval `[a, b)` of `s`, the
/// number of entries satisfying `p` is the interval's width.
pub proof fn lemma_count_interval(s: Seq<Entity>, p: spec_fn(Entity) -> bool, a: int, b: int)
    requires
        0 <= a <= b <= s.len(),
        forall|i: int| 0 <= i < s.len() ==> (p(#[trigger] s[i]) <==> a <= i < b),
    ensures
        count_where(s, p) == b - a,
    decreases s.len(),
{
    if s.len() == 0 {
    } else {
        let t = s.drop_last();
        let m = s.len() - 1;
        assert(forall|i: int| 0 <= i < t.len() ==> t[i] == s[i]);
        if p(s.last()) {
            assert(a <= m < b);
            assert(b == s.len());
            lemma_count_interval(t, p, a, b - 1);
        } else {
            if a >= s.len() {
                assert(a == b);
                lemma_count_interval(t, p, m, m);
            } else {
                assert(b <= m);
                lemma_count_interval(t, p, a, b);
            }
        }
    }
}

/// The drawing a composition strategy fills: what it holds is exactly
/// what was appended, in order.
pub struct Drawing {
    pub layers: Vec<DrawingLayer>,
    pub dim_styles: Vec<DimStyle>,
    pub entities: Vec<Entity>,
}

impl Drawing {
    /// An empty drawing: no layers, no styles, no entities.
    pub fn new() -> (d: Drawing)
        ensures
            d.layers@ == Seq::<DrawingLayer>::empty(),
            d.dim_styles@ == Seq::<DimStyle>::empty(),
            d.entities@ == Seq::<Entity>::empty(),
    {
        Drawing { layers: Vec::new(), dim_styles: Vec::new(), entities: Vec::new() }
    }

    /// Append a layer.
    pub fn add_layer(&mut self, name: String, color_index: u8, line_type: Option<String>)
        ensures
            final(self).layers@ == old(self).layers@.push(
                (DrawingLayer { name, color_index, line_type }),
            ),
            final(self).dim_styles == old(self).dim_styles,
            final(self).entities == old(self).entities,
    {
        self.layers.push(DrawingLayer { name, color_index, line_type });
    }

    /// Register a dimension style once: a second registration under a
    /// name already present leaves the drawing unchanged.
    pub fn register_dim_style(
        &mut self,
        name: String,
        text_height: i64,
        arrow_size: i64,
        extension_offset: i64,
    )
        ensures
            final(self).layers == old(self).layers,
            final(self).entities == old(self).entities,
            (exists|i: int|
                0 <= i < old(self).dim_styles@.len() && old(self).dim_styles@[i].name@ == name@)
                ==> final(self).dim_styles == old(self).dim_styles,
            !(exists|i: int|
                0 <= i < old(self).dim_styles@.len() && old(self).dim_styles@[i].name@ == name@)
                ==> final(self).dim_styles@ == old(self).dim_styles@.push(
                (DimStyle { name, text_height, arrow_size, extension_offset }),
            ),
    {
        let mut i: usize = 0;
        while i < self.dim_styles.len()
            invariant
                i <= self.dim_styles@.len(),
                *self == *old(self),
                forall|j: int| 0 <= j < i ==> old(self).dim_styles@[j].name@ != name@,
            decreases self.dim_styles@.len() - i,
        {
            if self.dim_styles[i].name == name {
                return ;
            }
            i += 1;
        }
        self.dim_styles.push(DimStyle { name, text_height, arrow_size, extension_offset });
    }

    /// Append a straight line on the given layer.
    pub fn add_line(&mut self, x1: i64, y1: i64, x2: i64, y2: i64, layer: String)
        ensures
            final(self).layers == old(self).layers,
            final(self).dim_styles == old(self).dim_styles,
            final(self).entities@ == old(self).entities@.push(
                (Entity::Line { x1, y1, x2, y2, layer }),
            ),
    {
        self.entities.push(Entity::Line { x1, y1, x2, y2, layer });
    }

    /// Append an ordinate dimension on the given layer.
    #[allow(clippy::too_many_arguments)]
    pub fn add_dimension(
        &mut self,
        x1: i64,
        y1: i64,
        x2: i64,
        y2: i64,
        anchor_x: i64,
        anchor_y: i64,
        rotated: bool,
        layer: String,
    )
        ensures
            final(self).layers == old(self).layers,
            final(self).dim_styles == old(self).dim_styles,
            final(self).entities@ == old(self).entities@.push(
                (Entity::Dimension { x1, y1, x2, y2, anchor_x, anchor_y, rotated, layer }),
            ),
    {
        self.entities.push(Entity::Dimension { x1, y1, x2, y2, anchor_x, anchor_y, rotated, layer });
    }

    /// Append a label text on the given layer.
    pub fn add_text(&mut self, value: String, x: i64, y: i64, rotated: bool, layer: String)
        ensures
            final(self).layers == old(self).layers,
            final(self).dim_styles == old(self).dim_styles,
            final(self).entities@ == old(self).entities@.push(
                (Entity::Text { value, x, y, rotated, layer }),
            ),
    {
        self.entities.push(Entity::Text { value, x, y, rotated, layer });
    }

    /// Append a marker circle on the given layer.
    pub fn add_circle(&mut self, x: i64, y: i64, radius: i64, layer: String)
        ensures
            final(self).layers == old(self).layers,
            final(self).dim_styles == old(self).dim_styles,
            final(self).entities@ == old(self).entities@.push(
                (Entity::Circle { x, y, radius, layer }),
            ),
    {
        self.entities.push(Entity::Circle { x, y, radius, layer });
    }
}

} // verus!
