//! Index records as they are read from a file's facet group and written to
//! an index buffer.

use vstd::prelude::*;

verus! {

/// The property of a facet that holds its vertex indices.
pub const INDICES_PROPERTY: &'static str = "vertex_indices";

/// One triangle: the indices of its three vertices.
#[derive(Clone, Copy, Debug)]
pub struct TriFacet {
    pub vertex_indices: [i32; 3],
}

/// One triangle as three line segments: (a, b), (b, c), (c, a).
#[derive(Clone, Copy, Debug)]
pub struct Wireframe {
    pub vertex_indices: [i32; 6],
}

/// Whether a property named `key` with list value `values` describes a triangle.
pub open spec fn is_triangle(key: Seq<char>, values: Seq<i32>) -> bool {
    key == INDICES_PROPERTY@ && values.len() == 3
}

impl TriFacet {
    /// A triangle with all indices zero, before its properties are read.
    pub fn new() -> (r: TriFacet)
        ensures
            r.vertex_indices@ == seq![0i32, 0, 0],
    {
        TriFacet { vertex_indices: [0, 0, 0] }
    }

    /// Takes one list property of a facet. The vertex index list of a
    /// triangle sets the indices; any other property, or a list that is not
    /// three long, leaves the record as it is.
    pub fn set_property(&mut self, key: &String, values: &Vec<i32>)
        ensures
            is_triangle(key@, values@) ==> final(self).vertex_indices@ == values@,
            !is_triangle(key@, values@) ==> *final(self) == *old(self),
    {
        let wanted = String::from_str(INDICES_PROPERTY);
        if *key == wanted && values.len() == 3 {
            self.vertex_indices = [values[0], values[1], values[2]];
            assert(self.vertex_indices@ == values@);
        }
    }
}

impl Wireframe {
    /// A record with all indices zero, before its properties are read.
    pub fn new() -> (r: Wireframe)
        ensures
            r.vertex_indices@ == seq![0i32, 0, 0, 0, 0, 0],
    {
        Wireframe { vertex_indices: [0, 0, 0, 0, 0, 0] }
    }

    /// Takes one list property of a facet. The vertex index list of a
    /// triangle (a, b, c) sets the segments (a, b), (b, c), (c, a); any
    /// other property, or a list that is not three long, leaves the record as
    /// it is.
    pub fn set_property(&mut self, key: &String, values: &Vec<i32>)
        ensures
            is_triangle(key@, values@) ==> final(self).vertex_indices@ == seq![
                values@[0],
                values@[1],
                values@[1],
                values@[2],
                values@[2],
                values@[0],
            ],
            !is_triangle(key@, values@) ==> *final(self) == *old(self),
    {
        let wanted = String::from_str(INDICES_PROPERTY);
        if *key == wanted && values.len() == 3 {
            let (a, b, c) = (values[0], values[1], values[2]);
            self.vertex_indices = [a, b, b, c, c, a];
            assert(self.vertex_indices@ == seq![a, b, b, c, c, a]);
        }
    }
}

} // verus!
