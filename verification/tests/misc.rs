use maplibre::coords::ZoomLevel;
use maplibre::sdf::buckets::symbol_bucket::TriangleIndexVector;
use maplibre::sdf::collision_system::CollisionSystem;
use maplibre::sdf::feature_index::{IndexedSubfeature, RefIndexedSubfeature};
use maplibre::sdf::geometry_tile_data::GeometryCoordinates;
use maplibre::euclid::Point2D;
use maplibre::sdf::layout::layout::OverscaledTileID;
use maplibre::sdf::layout::symbol_layout::{toSymbolLayerProperties, LayerProperties, SymbolLayer};
use maplibre::sdf::style_types::SymbolLayoutProperties_Unevaluated;
use maplibre::sdf::CanonicalTileID;
use maplibre::style::light::LightAnchor;
use maplibre::style::source::TileAddressingScheme;
use maplibre::style::styledraft::Metadata;
use maplibre::tcs::{System, SystemContainer};

#[test]
fn triangle_index_vector_counts_indices() {
    let mut v = TriangleIndexVector::new();
    assert_eq!(v.len(), 0);
    v.push(0, 1, 2);
    v.push(2, 3, 0);
    assert_eq!(v.len(), 6);
}

#[test]
fn overscale_factor_is_a_power_of_two() {
    let id = OverscaledTileID {
        canonical: CanonicalTileID { z: 3, x: 1, y: 2 },
        overscaledZ: 6,
    };
    assert_eq!(id.overscaleFactor(), 8);
    let same = OverscaledTileID {
        canonical: CanonicalTileID { z: 3, x: 1, y: 2 },
        overscaledZ: 3,
    };
    assert_eq!(same.overscaleFactor(), 1);
}

#[test]
fn indexed_subfeature_copies_names_and_sets_ids() {
    let source = IndexedSubfeature {
        ref_: RefIndexedSubfeature {
            index: 4,
            sortIndex: 2,
            sourceLayerName: "roads".to_string(),
            bucketLeaderID: "leader".to_string(),
            bucketInstanceId: 0,
            collisionGroupId: 0,
        },
        sourceLayerNameCopy: String::new(),
        bucketLeaderIDCopy: String::new(),
    };
    let copy = IndexedSubfeature::new(source, 7, 3);
    assert_eq!(copy.ref_.index, 4);
    assert_eq!(copy.ref_.sortIndex, 2);
    assert_eq!(copy.ref_.bucketInstanceId, 7);
    assert_eq!(copy.ref_.collisionGroupId, 3);
    assert_eq!(copy.sourceLayerNameCopy, "roads");
    assert_eq!(copy.bucketLeaderIDCopy, "leader");
}

#[test]
fn geometry_coordinates_len_and_index() {
    let g = GeometryCoordinates(vec![Point2D::new(1, 2), Point2D::new(3, 4)]);
    assert_eq!(g.len(), 2);
    assert_eq!(*g.index(1), Point2D::new(3, 4));
}

#[test]
fn layer_properties_views() {
    let props = LayerProperties {
        id: "labels".to_string(),
        layer: SymbolLayer {
            layout: SymbolLayoutProperties_Unevaluated,
        },
    };
    assert_eq!(props.baseImpl().id, "labels");
    assert_eq!(toSymbolLayerProperties(&props).id, "labels");
    let _layer: &SymbolLayer = props.layerImpl();
}

#[test]
fn style_defaults() {
    assert_eq!(TileAddressingScheme::default(), TileAddressingScheme::XYZ);
    assert_eq!(LightAnchor::default(), LightAnchor::Viewport);
    assert_eq!(Metadata::default().Value, "");
    assert_eq!(ZoomLevel::new(4), ZoomLevel(4));
    assert_eq!(u8::from(ZoomLevel::new(4)), 4);
}

struct Named;

impl System<u32> for Named {
    fn name(&self) -> String {
        "named".to_string()
    }
    fn run(&mut self, context: &mut u32) {
        *context += 1;
    }
}

#[test]
fn system_container_runs_its_system() {
    let mut c = SystemContainer::new(Named);
    let mut ctx = 0u32;
    c.run(&mut ctx);
    c.run(&mut ctx);
    assert_eq!(ctx, 2);
    let _ = CollisionSystem::new();
    let _ = CollisionSystem::default();
}
