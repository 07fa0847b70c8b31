use std::collections::BTreeSet;
use maplibre::euclid::{Box2D, Point2D};
use widestring::U16String;
use maplibre::sdf::bidi::{applyArabicShaping, encode_utf16};
use maplibre::sdf::buckets::symbol_bucket::TriangleIndexVector;
use maplibre::sdf::collision_system::CollisionSystem;
use maplibre::sdf::geometry_tile_data::GeometryCoordinates;
use maplibre::sdf::image_atlas::ImagePosition;
use maplibre::sdf::layout::symbol_feature::{SymbolGeometryTileFeature, VectorGeometryTileFeature};
use maplibre::sdf::layout::symbol_layout::{
    createLayout, feature_sort_flags, symbol_layout_features, unique_placement_modes,
    LayerProperties, SymbolLayer,
};
use maplibre::sdf::style_types::{
    IconImage, SymbolLayoutProperties_PossiblyEvaluated, SymbolLayoutProperties_Unevaluated,
    SymbolZOrderType, TextField, TextFont, TextSize, TextWritingModeType,
};

#[test]
fn create_layout_evaluates_the_layout() {
    let layout: SymbolLayoutProperties_PossiblyEvaluated =
        createLayout(&SymbolLayoutProperties_Unevaluated);
    let _ = layout;
}

#[test]
fn sort_by_key_needs_a_key_and_no_viewport_order() {
    assert_eq!(
        feature_sort_flags(SymbolZOrderType::Auto, true, true, false, false, false),
        (true, false)
    );
    assert_eq!(
        feature_sort_flags(SymbolZOrderType::Source, true, false, false, false, false),
        (true, false)
    );
    assert_eq!(
        feature_sort_flags(SymbolZOrderType::ViewportY, true, false, false, false, false),
        (false, false)
    );
}

#[test]
fn sort_by_screen_position_needs_overlap_or_ignored_placement() {
    assert_eq!(
        feature_sort_flags(SymbolZOrderType::ViewportY, true, false, true, false, false),
        (false, true)
    );
    assert_eq!(
        feature_sort_flags(SymbolZOrderType::Auto, false, false, false, false, true),
        (false, true)
    );
    assert_eq!(
        feature_sort_flags(SymbolZOrderType::Auto, false, false, false, false, false),
        (false, false)
    );
    assert_eq!(
        feature_sort_flags(SymbolZOrderType::Source, false, true, true, true, true),
        (false, false)
    );
}

#[test]
fn placement_modes_keep_first_occurrences_in_order() {
    let modes = vec![
        TextWritingModeType::Vertical,
        TextWritingModeType::Horizontal,
        TextWritingModeType::Vertical,
        TextWritingModeType::Horizontal,
    ];
    let (unique, vertical) = unique_placement_modes(&modes);
    assert_eq!(
        unique,
        vec![TextWritingModeType::Vertical, TextWritingModeType::Horizontal]
    );
    assert!(vertical);
}

#[test]
fn placement_modes_without_vertical() {
    let modes = vec![TextWritingModeType::Horizontal, TextWritingModeType::Horizontal];
    let (unique, vertical) = unique_placement_modes(&modes);
    assert_eq!(unique, vec![TextWritingModeType::Horizontal]);
    assert!(!vertical);

    let (none, vertical) = unique_placement_modes(&Vec::new());
    assert!(none.is_empty());
    assert!(!vertical);
}

fn position(min: (u16, u16), max: (u16, u16)) -> ImagePosition {
    ImagePosition {
        paddedRect: Box2D::new(Point2D::new(min.0, min.1), Point2D::new(max.0, max.1)),
        version: 7,
    }
}

#[test]
fn image_position_corners_lie_inside_the_padding() {
    let p = position((10, 20), (42, 60));
    assert_eq!(ImagePosition::padding, 1);
    assert_eq!(p.tl(), [11, 21]);
    assert_eq!(p.br(), [41, 59]);
    assert_eq!(p.tlbr(), [11, 21, 41, 59]);
}

#[test]
fn image_position_of_a_padding_only_rectangle() {
    let p = position((0, 0), (2, 2));
    assert_eq!(p.tlbr(), [1, 1, 1, 1]);
}

fn layer(id: &str) -> LayerProperties {
    LayerProperties {
        id: id.to_string(),
        layer: SymbolLayer {
            layout: SymbolLayoutProperties_Unevaluated,
        },
    }
}

fn feature(x: i16, y: i16) -> SymbolGeometryTileFeature {
    SymbolGeometryTileFeature::new(Box::new(VectorGeometryTileFeature {
        geometry: vec![GeometryCoordinates(vec![Point2D::new(x, y)])],
    }))
}

#[test]
fn symbol_layout_test() {
    let font_stack = vec![
        "Open Sans Regular".to_string(),
        "Arial Unicode MS Regular".to_string(),
    ];
    let mut glyph_dependencies: Vec<(Vec<String>, BTreeSet<u16>)> = Vec::new();
    let mut image_dependencies: Vec<String> = Vec::new();
    let layout = symbol_layout_features(
        &vec![layer("layer")],
        vec![feature(1024, 1024)],
        &SymbolLayoutProperties_PossiblyEvaluated,
        &mut glyph_dependencies,
        &mut image_dependencies,
    )
    .unwrap();

    assert_eq!(glyph_dependencies.len(), 1);
    assert_eq!(glyph_dependencies[0].0, font_stack);
    assert_eq!(glyph_dependencies[0].1, BTreeSet::from(['中' as u16]));
    assert!(image_dependencies.is_empty());
    assert_eq!(layout.bucketLeaderID, "layer");
    assert_eq!(layout.features.len(), 1);
}

#[test]
fn laid_out_features_carry_their_text_and_index() {
    let mut glyph_dependencies: Vec<(Vec<String>, BTreeSet<u16>)> = vec![(
        vec!["Other".to_string()],
        BTreeSet::from([65]),
    )];
    let mut image_dependencies: Vec<String> = vec!["sprite".to_string()];
    let layout = symbol_layout_features(
        &vec![layer("a"), layer("b"), layer("a")],
        vec![feature(1, 2), feature(3, 4), feature(5, 6)],
        &SymbolLayoutProperties_PossiblyEvaluated,
        &mut glyph_dependencies,
        &mut image_dependencies,
    )
    .unwrap();

    let ids: Vec<&str> = layout.layerPaintProperties.iter().map(|l| l.id.as_str()).collect();
    assert_eq!(ids, vec!["a", "b"]);
    assert_eq!(layout.bucketLeaderID, "a");
    // Sorted by (equal) sort keys: each feature goes before those laid out earlier.
    assert!(layout.sortFeaturesByKey);
    assert!(!layout.sortFeaturesByY);
    assert!(layout.placementModes.is_empty());
    assert!(!layout.allowVerticalPlacement);
    let indices: Vec<usize> = layout.features.iter().map(|f| f.index).collect();
    assert_eq!(indices, vec![2, 1, 0]);
    assert_eq!(layout.features[0].geometry[0].0, vec![Point2D::new(5, 6)]);
    for f in &layout.features {
        let text = f.formattedText.as_ref().unwrap();
        assert_eq!(text.styledText.0.as_slice(), &[0x4E2D; 4]);
        assert_eq!(text.styledText.1, vec![0; 4]);
        assert_eq!(text.sections.len(), 1);
        assert!(f.icon.is_none());
    }
    // Font stacks come in the order of their names: "Open Sans Regular" before "Other".
    assert_eq!(glyph_dependencies.len(), 2);
    assert_eq!(glyph_dependencies[0].0[0], "Open Sans Regular");
    assert_eq!(glyph_dependencies[0].1, BTreeSet::from([0x4E2D]));
    assert_eq!(glyph_dependencies[1], (vec!["Other".to_string()], BTreeSet::from([65])));
    assert_eq!(image_dependencies, vec!["sprite".to_string()]);
}

#[test]
fn glyphs_join_an_existing_font_stack_entry() {
    let font_stack = vec![
        "Open Sans Regular".to_string(),
        "Arial Unicode MS Regular".to_string(),
    ];
    let mut glyph_dependencies: Vec<(Vec<String>, BTreeSet<u16>)> = vec![(font_stack.clone(), BTreeSet::from([66]))];
    let mut image_dependencies: Vec<String> = Vec::new();
    let layout = symbol_layout_features(
        &vec![layer("only")],
        Vec::new(),
        &SymbolLayoutProperties_PossiblyEvaluated,
        &mut glyph_dependencies,
        &mut image_dependencies,
    )
    .unwrap();
    assert!(layout.features.is_empty());
    assert_eq!(glyph_dependencies, vec![(font_stack.clone(), BTreeSet::from([66]))]);

    symbol_layout_features(
        &vec![layer("only")],
        vec![feature(0, 0)],
        &SymbolLayoutProperties_PossiblyEvaluated,
        &mut glyph_dependencies,
        &mut image_dependencies,
    )
    .unwrap();
    assert_eq!(glyph_dependencies, vec![(font_stack, BTreeSet::from([66, 0x4E2D]))]);
}

#[test]
fn layout_holds_text_but_no_icon() {
    let layout = SymbolLayoutProperties_PossiblyEvaluated;
    assert!(layout.has::<TextField>());
    assert!(layout.has::<TextFont>());
    assert!(!layout.has::<IconImage>());
    assert!(!layout.has::<TextSize>());
}

#[test]
fn text_is_encoded_in_utf16() {
    assert_eq!(encode_utf16("A\u{4E2D}"), vec![0x41, 0x4E2D]);
    assert_eq!(encode_utf16("\u{1F600}"), vec![0xD83D, 0xDE00]);
    let shaped = applyArabicShaping(&U16String::from_vec(vec![1u16, 2, 3]));
    assert_eq!(shaped.as_slice(), &[1, 2, 3]);
}

#[test]
fn collision_system_is_named() {
    assert_eq!(CollisionSystem::new().name(), "sdf_populate_world_system");
    assert_eq!(CollisionSystem::default().name(), CollisionSystem::new().name());
}

#[test]
fn triangle_index_vector_counts_three_per_triangle() {
    let mut v = TriangleIndexVector::default();
    for k in 0..5u16 {
        v.push(k, k + 1, k + 2);
    }
    assert_eq!(v.len(), 15);
}

#[test]
fn layers_and_dependencies_come_in_key_order() {
    let mut glyph_dependencies: Vec<(Vec<String>, BTreeSet<u16>)> = vec![
        (vec!["A".to_string()], BTreeSet::from([1])),
        (
            vec!["Open Sans Regular".to_string(), "Arial Unicode MS Regular".to_string()],
            BTreeSet::from([65, 0x5000]),
        ),
        (vec!["Z".to_string()], BTreeSet::from([2])),
    ];
    let mut image_dependencies: Vec<String> = vec!["b".to_string(), "d".to_string()];
    let layout = symbol_layout_features(
        &vec![layer("c"), layer("a"), layer("b"), layer("a")],
        vec![feature(0, 0)],
        &SymbolLayoutProperties_PossiblyEvaluated,
        &mut glyph_dependencies,
        &mut image_dependencies,
    )
    .unwrap();
    let ids: Vec<&str> = layout.layerPaintProperties.iter().map(|l| l.id.as_str()).collect();
    assert_eq!(ids, vec!["a", "b", "c"]);
    assert_eq!(layout.bucketLeaderID, "c");
    assert_eq!(glyph_dependencies.len(), 3);
    assert_eq!(glyph_dependencies[0], (vec!["A".to_string()], BTreeSet::from([1])));
    let units: Vec<u16> = glyph_dependencies[1].1.iter().copied().collect();
    assert_eq!(units, vec![65, 0x4E2D, 0x5000]);
    assert_eq!(glyph_dependencies[2], (vec!["Z".to_string()], BTreeSet::from([2])));
    assert_eq!(image_dependencies, vec!["b".to_string(), "d".to_string()]);
}
