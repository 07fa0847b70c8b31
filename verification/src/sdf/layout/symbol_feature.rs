//! Features of a symbol layer.
use vstd::prelude::*;
use crate::sdf::geometry_tile_data::{GeometryCollection, GeometryCoordinates};
use crate::sdf::style_types::Image;
use crate::sdf::tagged_string::{SectionOptions, TaggedString};
use crate::sdf::bidi::copy_range;

verus! {

#[derive(Clone)]
pub struct VectorGeometryTileFeature {
    pub geometry: GeometryCollection,
}

/// The vertices of each line or ring of a geometry.
pub open spec fn geometry_view(g: GeometryCollection) -> Seq<Seq<crate::euclid::Point2D<i16>>> {
    g@.map_values(|c: GeometryCoordinates| c.0@)
}

/// A copy of a geometry.
pub fn copy_geometry(g: &GeometryCollection) -> (r: GeometryCollection)
    ensures
        geometry_view(r) == geometry_view(*g),
{
    let mut r: GeometryCollection = Vec::new();
    let mut i: usize = 0;
    while i < g.len()
        invariant
            i <= g@.len(),
            geometry_view(r) == geometry_view(*g).take(i as int),
        decreases g@.len() - i,
    {
        let line = copy_range(&g[i].0, 0, g[i].0.len());
        proof {
            assert(line@ =~= g@[i as int].0@);
        }
        let ghost before = r@;
        let ghost before_view = geometry_view(r);
        assert(geometry_view(r).len() == r@.len());
        assert(before.len() == i);
        r.push(GeometryCoordinates(line));
        proof {
            assert(r@ == before.push(GeometryCoordinates(line)));
            assert forall|k: int| 0 <= k < i + 1 implies #[trigger] geometry_view(r)[k]
                == geometry_view(*g)[k] by {
                if k < i {
                    assert(r@[k] == before[k]);
                    assert(geometry_view(r)[k] == before[k].0@);
                    assert(before_view[k] == before[k].0@);
                    assert(before_view[k] == geometry_view(*g).take(i as int)[k]);
                } else {
                    assert(r@[k] == GeometryCoordinates(line));
                    assert(geometry_view(*g)[k] == g@[k].0@);
                }
            }
            assert(geometry_view(r) =~= geometry_view(*g).take(i + 1));
        }
        i = i + 1;
    }
    proof {
        assert(geometry_view(*g).take(g@.len() as int) =~= geometry_view(*g));
    }
    r
}

/// A feature of a symbol layer with what layout evaluates for it: its formatted text, its
/// icon and its index in the layer. (Its sort key is not held.)
pub struct SymbolGeometryTileFeature {
    pub geometry: GeometryCollection,
    pub formattedText: Option<TaggedString<SectionOptions>>,
    pub icon: Option<Image>,
    pub index: usize,
}

impl SymbolGeometryTileFeature {
    /// The feature of the layer with a copy of its geometry, no text, no icon and index 0.
    pub fn new(feature: Box<VectorGeometryTileFeature>) -> (r: Self)
        ensures
            geometry_view(r.geometry) == geometry_view(feature.geometry),
            r.formattedText is None,
            r.icon is None,
            r.index == 0,
    {
        SymbolGeometryTileFeature {
            geometry: copy_geometry(&feature.geometry),
            formattedText: None,
            icon: None,
            index: 0,
        }
    }
}

} // verus!
