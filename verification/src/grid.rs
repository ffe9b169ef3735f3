//! Grid specification: the in-memory description of a structural grid
//! (axis counts, spans, floor heights, optional names) and the
//! resolution of the two drawing layer names.

use vstd::prelude::*;

verus! {

/// Default name of the layer that carries the reference (grid) lines.
pub open spec fn default_ref_line_name() -> Seq<char> {
    "通り芯"@
}

/// Default name of the layer that carries dimensions and annotations.
pub open spec fn default_dimension_name() -> Seq<char> {
    "寸法"@
}

/// Why a grid specification was rejected.
#[derive(Clone, Copy, Debug, PartialEq, Eq, Structural)]
pub enum GridError {
    /// A span list does not hold `axis_count - 1` entries, or a label
    /// list does not hold `axis_count` entries.
    DimensionMismatch,
    /// A span is negative.
    InvalidSpan,
}

/// Optional overrides for the two drawing layer names.  A missing
/// field falls back to its fixed default, independently of the other.
pub struct LayerName {
    pub ref_line: Option<String>,
    pub dimension: Option<String>,
}

impl LayerName {
    /// The reference-line layer name this override pair resolves to.
    pub open spec fn spec_ref_line(self) -> Seq<char> {
        match self.ref_line {
            Some(s) => s@,
            None => default_ref_line_name(),
        }
    }

    /// The dimension layer name this override pair resolves to.
    pub open spec fn spec_dimension(self) -> Seq<char> {
        match self.dimension {
            Some(s) => s@,
            None => default_dimension_name(),
        }
    }

    /// Resolved reference-line layer name: the override if one was
    /// given, the fixed default otherwise.  Never fails.
    pub fn ref_line(&self) -> (r: String)
        ensures
            r@ == self.spec_ref_line(),
    {
        match &self.ref_line {
            Some(s) => s.clone(),
            None => "通り芯".to_owned(),
        }
    }

    /// Resolved dimension layer name: the override if one was given,
    /// the fixed default otherwise.  Never fails.
    pub fn dimension(&self) -> (r: String)
        ensures
            r@ == self.spec_dimension(),
    {
        match &self.dimension {
            Some(s) => s.clone(),
            None => "寸法".to_owned(),
        }
    }
}

fn clone_name(o: &Option<String>) -> (r: Option<String>)
    ensures
        r == *o,
{
    match o {
        Some(s) => Some(s.clone()),
        None => None,
    }
}

/// A structural grid: `num_x_axis` vertical and `num_y_axis` horizontal
/// reference lines, with the distances between consecutive lines.
///
/// Distances are whole drawing units (millimetres in practice).
/// `floor_heights` is carried for collaborators that draw elevations;
/// no composition strategy here reads it.
pub struct RefLine {
    pub num_x_axis: u32,
    pub num_y_axis: u32,
    pub num_floor: u32,
    pub x_spans: Vec<i64>,
    pub y_spans: Vec<i64>,
    pub floor_heights: Vec<i64>,
    pub x_axes: Option<Vec<String>>,
    pub y_axes: Option<Vec<String>>,
    pub layer_name: Option<LayerName>,
}

impl RefLine {
    /// The reference-line layer name this grid resolves to.
    pub open spec fn spec_ref_line_layer(self) -> Seq<char> {
        match self.layer_name {
            Some(ln) => ln.spec_ref_line(),
            None => default_ref_line_name(),
        }
    }

    /// The dimension layer name this grid resolves to.
    pub open spec fn spec_dimension_layer(self) -> Seq<char> {
        match self.layer_name {
            Some(ln) => ln.spec_dimension(),
            None => default_dimension_name(),
        }
    }

    /// The layer-name override pair, with both defaults substituted
    /// when none was given.  Resolution is total: each field falls
    /// back to its own default independently.
    pub fn layer_name(&self) -> (r: LayerName)
        ensures
            r.spec_ref_line() == self.spec_ref_line_layer(),
            r.spec_dimension() == self.spec_dimension_layer(),
    {
        match &self.layer_name {
            Some(ln) => LayerName {
                ref_line: clone_name(&ln.ref_line),
                dimension: clone_name(&ln.dimension),
            },
            None => LayerName {
                ref_line: None,
                dimension: None,
            },
        }
    }
}

} // verus!
