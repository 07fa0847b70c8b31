use maplibre::sdf::style_types::{
    AlignmentType, DataDrivenLayoutProperty, IconAllowOverlap, IconImage, IconRotationAlignment,
    IconTextFit, IconTextFitType, LayoutProperty, SymbolAnchorType, SymbolLayoutProperties_Evaluated,
    SymbolLayoutProperties_PossiblyEvaluated, SymbolLayoutProperties_Unevaluated, SymbolPlacement,
    SymbolPlacementType, SymbolZOrder, TextAnchor, TextFont, TextJustify, TextJustifyType,
    TextKeepUpright, TextRotationAlignment, TextTransform, TextTransformType, TextVariableAnchor,
    TextWritingMode,
};

#[test]
fn layout_property_names_and_defaults() {
    assert_eq!(IconAllowOverlap::name(), "icon-allow-overlap");
    assert!(!IconAllowOverlap::defaultValue());
    assert_eq!(TextKeepUpright::name(), "text-keep-upright");
    assert!(TextKeepUpright::defaultValue());
    assert_eq!(SymbolPlacement::defaultValue(), SymbolPlacementType::Point);
    assert_eq!(SymbolZOrder::name(), "symbol-z-order");
    assert_eq!(TextRotationAlignment::defaultValue(), AlignmentType::Auto);
    assert_eq!(IconTextFit::defaultValue(), IconTextFitType::NoFit);
    assert!(TextVariableAnchor::defaultValue().is_empty());
    assert!(TextWritingMode::defaultValue().is_empty());
}

#[test]
fn data_driven_property_names_and_defaults() {
    assert_eq!(TextFont::name(), "text-font");
    assert_eq!(
        TextFont::defaultValue(),
        vec![
            "Open Sans Regular".to_string(),
            "Arial Unicode MS Regular".to_string()
        ]
    );
    assert_eq!(TextAnchor::defaultValue(), SymbolAnchorType::Center);
    assert_eq!(TextJustify::defaultValue(), TextJustifyType::Center);
    assert_eq!(TextTransform::defaultValue(), TextTransformType::NoTransform);
    let image = IconImage::defaultValue();
    assert_eq!(image.imageID, "");
    assert!(!image.available);
    assert_eq!(IconImage::name(), "icon-image");
}

#[test]
fn evaluated_layouts_yield_defaults() {
    let mut layout = SymbolLayoutProperties_PossiblyEvaluated;
    layout.set::<IconRotationAlignment>(AlignmentType::MapAlign);
    assert_eq!(layout.get::<IconRotationAlignment>(), AlignmentType::Auto);
    let evaluated = SymbolLayoutProperties_Evaluated;
    assert_eq!(evaluated.get_eval::<TextAnchor>(), SymbolAnchorType::Center);
    assert_eq!(evaluated.get::<SymbolPlacement>(), SymbolPlacementType::Point);
    let value = SymbolLayoutProperties_Unevaluated.get_dynamic::<TextFont>();
    assert!(!value.isUndefined());
    assert!(!value.isDataDriven());
    assert!(!value.isZoomant());
}
