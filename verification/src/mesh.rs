use vstd::prelude::*;
use crate::geometry::Vertex;

verus! {

/// Mathematical model of a mesh: the vertex sequence and the triangle index
/// sequence.
#[verifier::ext_equal]
pub struct ThingV {
    pub vertices: Seq<Vertex>,
    pub indices: Seq<u16>,
}

/// A mesh is well formed when every triangle index names an existing vertex.
pub open spec fn mesh_wf(t: ThingV) -> bool {
    forall|i: int| 0 <= i < t.indices.len() ==> (#[trigger] t.indices[i]) < t.vertices.len()
}

/// An owned mesh: an ordered sequence of vertices plus an ordered sequence of
/// triangle indices into it.  A `Thing` handed to the renderer is an
/// independent copy, never a shared reference.
#[derive(Clone, Debug, PartialEq)]
pub struct Thing {
    pub vertices: Vec<Vertex>,
    pub indices: Vec<u16>,
}

impl View for Thing {
    type V = ThingV;

    open spec fn view(&self) -> ThingV {
        ThingV { vertices: self.vertices@, indices: self.indices@ }
    }
}

impl Thing {
    /// Builds a mesh from its parts.  Callers must hand in a well-formed
    /// index list; an out-of-range index is a contract violation, checked
    /// statically for verified callers and via [`Thing::try_new`] otherwise.
    pub fn new(vertices: Vec<Vertex>, indices: Vec<u16>) -> (t: Thing)
        requires
            mesh_wf(ThingV { vertices: vertices@, indices: indices@ }),
        ensures
            t@ == (ThingV { vertices: vertices@, indices: indices@ }),
            mesh_wf(t@),
    {
        Thing { vertices, indices }
    }

    /// Builds a mesh after checking the indices at run time: returns `None`
    /// exactly when some index is out of range, and never truncates.
    pub fn try_new(vertices: Vec<Vertex>, indices: Vec<u16>) -> (r: Option<Thing>)
        ensures
            r is Some <==> mesh_wf(ThingV { vertices: vertices@, indices: indices@ }),
            r matches Some(t) ==> t@ == (ThingV { vertices: vertices@, indices: indices@ }),
    {
        let n = vertices.len();
        let mut i: usize = 0;
        while i < indices.len()
            invariant
                i <= indices.len(),
                n == vertices.len(),
                forall|j: int| 0 <= j < i ==> (#[trigger] indices@[j]) < n,
            decreases indices.len() - i,
        {
            if indices[i] as usize >= n {
                proof {
                    let t = ThingV { vertices: vertices@, indices: indices@ };
                    assert(0 <= (i as int) < t.indices.len());
                    assert(!(t.indices[i as int] < t.vertices.len()));
                    assert(!mesh_wf(t));
                }
                return None;
            }
            i += 1;
        }
        Some(Thing { vertices, indices })
    }

    /// Number of vertices in the mesh.
    pub fn vertex_count(&self) -> (n: usize)
        ensures
            n == self@.vertices.len(),
    {
        self.vertices.len()
    }

    /// Number of triangle indices in the mesh.
    pub fn index_count(&self) -> (n: usize)
        ensures
            n == self@.indices.len(),
    {
        self.indices.len()
    }
}

} // verus!
