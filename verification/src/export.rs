//! Geometry export: the polyline records of the Wavefront OBJ outline.

use vstd::prelude::*;
use vstd::string::StringExecFns;
use crate::text::decimal;
use crate::text::decimal_text;

verus! {

/// Writes bore geometries to exchange formats.
pub struct GeometryExporter;

/// The line records `l 1 2`, `l 2 3`, ..., `l k k+1` joining consecutive
/// vertices, one per line.
pub open spec fn obj_lines(k: nat) -> Seq<char>
    decreases k,
{
    if k == 0 {
        Seq::empty()
    } else {
        obj_lines((k - 1) as nat) + "l "@ + decimal(k) + " "@ + decimal(k + 1) + "\n"@
    }
}

impl GeometryExporter {
    /// The line records that join the `n_points` vertices of an outline in
    /// order (vertex numbers start at 1); none for fewer than two vertices.
    pub fn obj_polyline(n_points: usize) -> (r: String)
        ensures
            r@ == obj_lines(if n_points == 0 { 0 } else { (n_points - 1) as nat }),
    {
        let count = n_points.saturating_sub(1);
        let mut out = String::new();
        let mut i: usize = 0;
        while i < count
            invariant
                i <= count,
                count == if n_points == 0 { 0 } else { n_points - 1 },
                out@ == obj_lines(i as nat),
            decreases count - i,
        {
            out.append("l ");
            out.append(decimal_text(i + 1).as_str());
            out.append(" ");
            out.append(decimal_text(i + 2).as_str());
            out.append("\n");
            i += 1;
        }
        out
    }
}

} // verus!
