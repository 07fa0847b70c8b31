//! Vertex and index data of symbol layers.
use vstd::prelude::*;

verus! {

#[derive(Default, Clone, Debug)]
pub struct SymbolTextAttributes;

#[derive(Default, Clone, Debug)]
pub struct SymbolSizeBinder;

/// Triangle indices, stored flat: three per triangle.
#[derive(Clone, Debug)]
pub struct TriangleIndexVector {
    indices: Vec<u16>,
}

impl TriangleIndexVector {
    /// The indices stored so far, in order.
    pub closed spec fn indices(&self) -> Seq<u16> {
        self.indices@
    }

    pub fn new() -> (r: Self)
        ensures
            r.indices() == Seq::<u16>::empty(),
    {
        TriangleIndexVector { indices: Vec::new() }
    }

    /// Appends the triangle `(a, b, c)`.
    pub fn push(&mut self, a: u16, b: u16, c: u16)
        ensures
            final(self).indices() == old(self).indices().push(a).push(b).push(c),
    {
        self.indices.push(a);
        self.indices.push(b);
        self.indices.push(c);
    }

    /// The number of indices (three per triangle).
    pub fn len(&self) -> (r: usize)
        ensures
            r == self.indices().len(),
    {
        self.indices.len()
    }
}

impl Default for TriangleIndexVector {
    /// An empty vector.
    fn default() -> (r: Self)
        ensures
            r.indices() == Seq::<u16>::empty(),
    {
        Self::new()
    }
}

/// Each push stores three indices: when `states` are a vector that starts empty and then the
/// vector after each push of `triangles`, in order, the last one holds three indices per
/// triangle, so `len` counts indices, not triangles.
pub proof fn law_len_counts_indices(
    states: Seq<TriangleIndexVector>,
    triangles: Seq<(u16, u16, u16)>,
)
    requires
        states.len() == triangles.len() + 1,
        states[0].indices().len() == 0,
        forall|k: int|
            0 <= k < triangles.len() ==> #[trigger] states[k + 1].indices() == states[k].indices().push(
                triangles[k].0,
            ).push(triangles[k].1).push(triangles[k].2),
    ensures
        states.last().indices().len() == 3 * triangles.len(),
    decreases triangles.len(),
{
    if triangles.len() > 0 {
        let n = triangles.len() - 1;
        law_len_counts_indices(states.drop_last(), triangles.drop_last());
        assert(states[n + 1].indices() == states[n].indices().push(triangles[n].0).push(
            triangles[n].1,
        ).push(triangles[n].2));
    }
}

#[derive(Clone, Debug)]
pub struct PaintProperties {}

} // verus!
