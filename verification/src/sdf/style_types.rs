//! Layout properties of symbol layers: their names, value types and defaults.
use vstd::prelude::*;
use core::marker::PhantomData;

verus! {

#[derive(Clone, Copy, Debug, PartialEq, Eq, Structural)]
pub enum SymbolPlacementType {
    Point,
    Line,
    LineCenter,
}

impl DeepView for SymbolPlacementType {
    type V = SymbolPlacementType;

    open spec fn deep_view(&self) -> SymbolPlacementType {
        *self
    }
}

#[derive(Clone, Copy, Debug, PartialEq, Eq, Structural)]
pub enum SymbolAnchorType {
    Center,
    Left,
    Right,
    Top,
    Bottom,
    TopLeft,
    TopRight,
    BottomLeft,
    BottomRight,
}

impl DeepView for SymbolAnchorType {
    type V = SymbolAnchorType;

    open spec fn deep_view(&self) -> SymbolAnchorType {
        *self
    }
}

#[derive(Clone, Copy, Debug, PartialEq, Eq, Structural)]
pub enum TextJustifyType {
    Auto,
    Center,
    Left,
    Right,
}

impl DeepView for TextJustifyType {
    type V = TextJustifyType;

    open spec fn deep_view(&self) -> TextJustifyType {
        *self
    }
}

#[derive(Clone, Copy, Debug, PartialEq, Eq, Structural)]
pub enum IconTextFitType {
    NoFit,
    Both,
    Width,
    Height,
}

impl DeepView for IconTextFitType {
    type V = IconTextFitType;

    open spec fn deep_view(&self) -> IconTextFitType {
        *self
    }
}

#[derive(Clone, Copy, Debug, PartialEq, Eq, Structural, PartialOrd, Ord)]
pub enum TextWritingModeType {
    Horizontal,
    Vertical,
}

impl DeepView for TextWritingModeType {
    type V = TextWritingModeType;

    open spec fn deep_view(&self) -> TextWritingModeType {
        *self
    }
}

#[derive(Clone, Copy, Debug, PartialEq, Eq, Structural)]
pub enum AlignmentType {
    MapAlign,
    Viewport,
    Auto,
}

impl DeepView for AlignmentType {
    type V = AlignmentType;

    open spec fn deep_view(&self) -> AlignmentType {
        *self
    }
}

#[derive(Clone, Copy, Debug, PartialEq, Eq, Structural)]
pub enum TextTransformType {
    NoTransform,
    Uppercase,
    Lowercase,
}

impl DeepView for TextTransformType {
    type V = TextTransformType;

    open spec fn deep_view(&self) -> TextTransformType {
        *self
    }
}

#[derive(Clone, Copy, Debug, PartialEq, Eq, Structural)]
pub enum SymbolZOrderType {
    Auto,
    ViewportY,
    Source,
}

impl DeepView for SymbolZOrderType {
    type V = SymbolZOrderType;

    open spec fn deep_view(&self) -> SymbolZOrderType {
        *self
    }
}

pub type TextVariableAnchorType = SymbolAnchorType;

/// An image referenced by a style property.
#[derive(Default, Clone)]
pub struct Image {
    pub imageID: String,
    pub available: bool,
}

impl DeepView for Image {
    type V = (Seq<char>, bool);

    open spec fn deep_view(&self) -> (Seq<char>, bool) {
        (self.imageID@, self.available)
    }
}

/// One section of formatted text: its text or the image that stands in its place, and the
/// font stack it asks for. (Its scale and colour are not held.)
#[derive(Clone)]
pub struct FormattedSection {
    pub text: String,
    pub image: Option<Image>,
    pub fontStack: Option<Vec<String>>,
}

impl DeepView for FormattedSection {
    type V = (Seq<char>, Option<(Seq<char>, bool)>, Option<Seq<Seq<char>>>);

    open spec fn deep_view(&self) -> Self::V {
        (self.text@, self.image.deep_view(), self.fontStack.deep_view())
    }
}

/// Formatted text: a list of sections.
#[derive(Clone)]
pub struct Formatted {
    pub sections: Vec<FormattedSection>,
}

impl DeepView for Formatted {
    type V = Seq<<FormattedSection as DeepView>::V>;

    open spec fn deep_view(&self) -> Self::V {
        self.sections.deep_view()
    }
}

/// The not yet evaluated value of a layout property.
#[derive(PartialEq, Eq)]
pub struct PropertyValue<T> {
    _phantom: PhantomData<T>,
}

impl<T> PropertyValue<T> {
    pub fn new() -> Self {
        PropertyValue { _phantom: PhantomData }
    }

    /// No property value is undefined yet.
    pub fn isUndefined(&self) -> (r: bool)
        ensures
            !r,
    {
        false
    }

    /// No property value is data driven yet.
    pub fn isDataDriven(&self) -> (r: bool)
        ensures
            !r,
    {
        false
    }

    /// No property value depends on the zoom yet.
    pub fn isZoomant(&self) -> (r: bool)
        ensures
            !r,
    {
        false
    }
}

impl<T> Clone for PropertyValue<T> {
    fn clone(&self) -> Self {
        PropertyValue::new()
    }
}

impl<T> Default for PropertyValue<T> {
    fn default() -> Self {
        PropertyValue::new()
    }
}

/// A data-driven property value after evaluation at a zoom level.
#[derive(PartialEq, Eq)]
pub struct PossiblyEvaluatedPropertyValue<T> {
    _phantom: PhantomData<T>,
}

impl<T> PossiblyEvaluatedPropertyValue<T> {
    pub fn new() -> Self {
        PossiblyEvaluatedPropertyValue { _phantom: PhantomData }
    }
}

impl<T> Clone for PossiblyEvaluatedPropertyValue<T> {
    fn clone(&self) -> Self {
        PossiblyEvaluatedPropertyValue::new()
    }
}

impl<T> Default for PossiblyEvaluatedPropertyValue<T> {
    fn default() -> Self {
        PossiblyEvaluatedPropertyValue::new()
    }
}

/// A layout property whose value is the same for all features of a layer.
pub trait LayoutProperty {
    type Type: DeepView;

    /// The property's name in the style specification.
    spec fn name_spec() -> Seq<char>;

    /// The property's default value.
    spec fn default_spec() -> <Self::Type as DeepView>::V;

    fn name() -> (r: &'static str)
        ensures
            r@ == Self::name_spec(),
    ;

    fn defaultValue() -> (r: Self::Type)
        ensures
            r.deep_view() == Self::default_spec(),
    ;
}

/// A layout property whose value may differ from feature to feature.
pub trait DataDrivenLayoutProperty {
    type Type: DeepView;

    /// The property's name in the style specification.
    spec fn name_spec() -> Seq<char>;

    /// The property's default value.
    spec fn default_spec() -> <Self::Type as DeepView>::V;

    fn name() -> (r: &'static str)
        ensures
            r@ == Self::name_spec(),
    ;

    fn defaultValue() -> (r: Self::Type)
        ensures
            r.deep_view() == Self::default_spec(),
    ;
}

pub struct IconAllowOverlap {}

impl LayoutProperty for IconAllowOverlap {
    type Type = bool;

    open spec fn name_spec() -> Seq<char> {
        "icon-allow-overlap"@
    }

    open spec fn default_spec() -> <bool as DeepView>::V {
        false
    }

    fn name() -> (r: &'static str) {
        "icon-allow-overlap"
    }

    fn defaultValue() -> (r: bool) {
        false
    }
}

pub struct IconAnchor {}

impl DataDrivenLayoutProperty for IconAnchor {
    type Type = SymbolAnchorType;

    open spec fn name_spec() -> Seq<char> {
        "icon-anchor"@
    }

    open spec fn default_spec() -> <SymbolAnchorType as DeepView>::V {
        SymbolAnchorType::Center
    }

    fn name() -> (r: &'static str) {
        "icon-anchor"
    }

    fn defaultValue() -> (r: SymbolAnchorType) {
        SymbolAnchorType::Center
    }
}

pub struct IconIgnorePlacement {}

impl LayoutProperty for IconIgnorePlacement {
    type Type = bool;

    open spec fn name_spec() -> Seq<char> {
        "icon-ignore-placement"@
    }

    open spec fn default_spec() -> <bool as DeepView>::V {
        false
    }

    fn name() -> (r: &'static str) {
        "icon-ignore-placement"
    }

    fn defaultValue() -> (r: bool) {
        false
    }
}

pub struct IconImage {}

impl DataDrivenLayoutProperty for IconImage {
    type Type = Image;

    open spec fn name_spec() -> Seq<char> {
        "icon-image"@
    }

    open spec fn default_spec() -> <Image as DeepView>::V {
        (Seq::<char>::empty(), false)
    }

    fn name() -> (r: &'static str) {
        "icon-image"
    }

    fn defaultValue() -> (r: Image) {
        Image { imageID: String::new(), available: false }
    }
}

pub struct IconKeepUpright {}

impl LayoutProperty for IconKeepUpright {
    type Type = bool;

    open spec fn name_spec() -> Seq<char> {
        "icon-keep-upright"@
    }

    open spec fn default_spec() -> <bool as DeepView>::V {
        false
    }

    fn name() -> (r: &'static str) {
        "icon-keep-upright"
    }

    fn defaultValue() -> (r: bool) {
        false
    }
}

pub struct IconOptional {}

impl LayoutProperty for IconOptional {
    type Type = bool;

    open spec fn name_spec() -> Seq<char> {
        "icon-optional"@
    }

    open spec fn default_spec() -> <bool as DeepView>::V {
        false
    }

    fn name() -> (r: &'static str) {
        "icon-optional"
    }

    fn defaultValue() -> (r: bool) {
        false
    }
}

pub struct IconPitchAlignment {}

impl LayoutProperty for IconPitchAlignment {
    type Type = AlignmentType;

    open spec fn name_spec() -> Seq<char> {
        "icon-pitch-alignment"@
    }

    open spec fn default_spec() -> <AlignmentType as DeepView>::V {
        AlignmentType::Auto
    }

    fn name() -> (r: &'static str) {
        "icon-pitch-alignment"
    }

    fn defaultValue() -> (r: AlignmentType) {
        AlignmentType::Auto
    }
}

pub struct IconRotationAlignment {}

impl LayoutProperty for IconRotationAlignment {
    type Type = AlignmentType;

    open spec fn name_spec() -> Seq<char> {
        "icon-rotation-alignment"@
    }

    open spec fn default_spec() -> <AlignmentType as DeepView>::V {
        AlignmentType::Auto
    }

    fn name() -> (r: &'static str) {
        "icon-rotation-alignment"
    }

    fn defaultValue() -> (r: AlignmentType) {
        AlignmentType::Auto
    }
}

pub struct IconTextFit {}

impl LayoutProperty for IconTextFit {
    type Type = IconTextFitType;

    open spec fn name_spec() -> Seq<char> {
        "icon-text-fit"@
    }

    open spec fn default_spec() -> <IconTextFitType as DeepView>::V {
        IconTextFitType::NoFit
    }

    fn name() -> (r: &'static str) {
        "icon-text-fit"
    }

    fn defaultValue() -> (r: IconTextFitType) {
        IconTextFitType::NoFit
    }
}

pub struct SymbolAvoidEdges {}

impl LayoutProperty for SymbolAvoidEdges {
    type Type = bool;

    open spec fn name_spec() -> Seq<char> {
        "symbol-avoid-edges"@
    }

    open spec fn default_spec() -> <bool as DeepView>::V {
        false
    }

    fn name() -> (r: &'static str) {
        "symbol-avoid-edges"
    }

    fn defaultValue() -> (r: bool) {
        false
    }
}

pub struct SymbolPlacement {}

impl LayoutProperty for SymbolPlacement {
    type Type = SymbolPlacementType;

    open spec fn name_spec() -> Seq<char> {
        "symbol-placement"@
    }

    open spec fn default_spec() -> <SymbolPlacementType as DeepView>::V {
        SymbolPlacementType::Point
    }

    fn name() -> (r: &'static str) {
        "symbol-placement"
    }

    fn defaultValue() -> (r: SymbolPlacementType) {
        SymbolPlacementType::Point
    }
}

pub struct SymbolZOrder {}

impl LayoutProperty for SymbolZOrder {
    type Type = SymbolZOrderType;

    open spec fn name_spec() -> Seq<char> {
        "symbol-z-order"@
    }

    open spec fn default_spec() -> <SymbolZOrderType as DeepView>::V {
        SymbolZOrderType::Auto
    }

    fn name() -> (r: &'static str) {
        "symbol-z-order"
    }

    fn defaultValue() -> (r: SymbolZOrderType) {
        SymbolZOrderType::Auto
    }
}

pub struct TextAllowOverlap {}

impl LayoutProperty for TextAllowOverlap {
    type Type = bool;

    open spec fn name_spec() -> Seq<char> {
        "text-allow-overlap"@
    }

    open spec fn default_spec() -> <bool as DeepView>::V {
        false
    }

    fn name() -> (r: &'static str) {
        "text-allow-overlap"
    }

    fn defaultValue() -> (r: bool) {
        false
    }
}

pub struct TextAnchor {}

impl DataDrivenLayoutProperty for TextAnchor {
    type Type = SymbolAnchorType;

    open spec fn name_spec() -> Seq<char> {
        "text-anchor"@
    }

    open spec fn default_spec() -> <SymbolAnchorType as DeepView>::V {
        SymbolAnchorType::Center
    }

    fn name() -> (r: &'static str) {
        "text-anchor"
    }

    fn defaultValue() -> (r: SymbolAnchorType) {
        SymbolAnchorType::Center
    }
}

pub struct TextFont {}

impl DataDrivenLayoutProperty for TextFont {
    type Type = Vec<String>;

    open spec fn name_spec() -> Seq<char> {
        "text-font"@
    }

    open spec fn default_spec() -> <Vec<String> as DeepView>::V {
        seq!["Open Sans Regular"@, "Arial Unicode MS Regular"@]
    }

    fn name() -> (r: &'static str) {
        "text-font"
    }

    fn defaultValue() -> (r: Vec<String>) {
        let mut fonts: Vec<String> = Vec::new();
        fonts.push("Open Sans Regular".to_owned());
        fonts.push("Arial Unicode MS Regular".to_owned());
        proof {
            assert(fonts.deep_view() =~= seq!["Open Sans Regular"@, "Arial Unicode MS Regular"@]);
        }
        fonts
    }
}

pub struct TextIgnorePlacement {}

impl LayoutProperty for TextIgnorePlacement {
    type Type = bool;

    open spec fn name_spec() -> Seq<char> {
        "text-ignore-placement"@
    }

    open spec fn default_spec() -> <bool as DeepView>::V {
        false
    }

    fn name() -> (r: &'static str) {
        "text-ignore-placement"
    }

    fn defaultValue() -> (r: bool) {
        false
    }
}

pub struct TextJustify {}

impl DataDrivenLayoutProperty for TextJustify {
    type Type = TextJustifyType;

    open spec fn name_spec() -> Seq<char> {
        "text-justify"@
    }

    open spec fn default_spec() -> <TextJustifyType as DeepView>::V {
        TextJustifyType::Center
    }

    fn name() -> (r: &'static str) {
        "text-justify"
    }

    fn defaultValue() -> (r: TextJustifyType) {
        TextJustifyType::Center
    }
}

pub struct TextKeepUpright {}

impl LayoutProperty for TextKeepUpright {
    type Type = bool;

    open spec fn name_spec() -> Seq<char> {
        "text-keep-upright"@
    }

    open spec fn default_spec() -> <bool as DeepView>::V {
        true
    }

    fn name() -> (r: &'static str) {
        "text-keep-upright"
    }

    fn defaultValue() -> (r: bool) {
        true
    }
}

pub struct TextOptional {}

impl LayoutProperty for TextOptional {
    type Type = bool;

    open spec fn name_spec() -> Seq<char> {
        "text-optional"@
    }

    open spec fn default_spec() -> <bool as DeepView>::V {
        false
    }

    fn name() -> (r: &'static str) {
        "text-optional"
    }

    fn defaultValue() -> (r: bool) {
        false
    }
}

pub struct TextPitchAlignment {}

impl LayoutProperty for TextPitchAlignment {
    type Type = AlignmentType;

    open spec fn name_spec() -> Seq<char> {
        "text-pitch-alignment"@
    }

    open spec fn default_spec() -> <AlignmentType as DeepView>::V {
        AlignmentType::Auto
    }

    fn name() -> (r: &'static str) {
        "text-pitch-alignment"
    }

    fn defaultValue() -> (r: AlignmentType) {
        AlignmentType::Auto
    }
}

pub struct TextRotationAlignment {}

impl LayoutProperty for TextRotationAlignment {
    type Type = AlignmentType;

    open spec fn name_spec() -> Seq<char> {
        "text-rotation-alignment"@
    }

    open spec fn default_spec() -> <AlignmentType as DeepView>::V {
        AlignmentType::Auto
    }

    fn name() -> (r: &'static str) {
        "text-rotation-alignment"
    }

    fn defaultValue() -> (r: AlignmentType) {
        AlignmentType::Auto
    }
}

pub struct TextTransform {}

impl DataDrivenLayoutProperty for TextTransform {
    type Type = TextTransformType;

    open spec fn name_spec() -> Seq<char> {
        "text-transform"@
    }

    open spec fn default_spec() -> <TextTransformType as DeepView>::V {
        TextTransformType::NoTransform
    }

    fn name() -> (r: &'static str) {
        "text-transform"
    }

    fn defaultValue() -> (r: TextTransformType) {
        let r = TextTransformType::NoTransform;
        assert(r.deep_view() == TextTransformType::NoTransform);
        r
    }
}

pub struct TextVariableAnchor {}

impl LayoutProperty for TextVariableAnchor {
    type Type = Vec<TextVariableAnchorType>;

    open spec fn name_spec() -> Seq<char> {
        "text-variable-anchor"@
    }

    open spec fn default_spec() -> <Vec<TextVariableAnchorType> as DeepView>::V {
        Seq::<SymbolAnchorType>::empty()
    }

    fn name() -> (r: &'static str) {
        "text-variable-anchor"
    }

    fn defaultValue() -> (r: Vec<TextVariableAnchorType>) {
        let v: Vec<TextVariableAnchorType> = Vec::new();
        proof {
            assert(v.deep_view() =~= Seq::<SymbolAnchorType>::empty());
        }
        v
    }
}

pub struct TextWritingMode {}

impl LayoutProperty for TextWritingMode {
    type Type = Vec<TextWritingModeType>;

    open spec fn name_spec() -> Seq<char> {
        "text-writing-mode"@
    }

    open spec fn default_spec() -> <Vec<TextWritingModeType> as DeepView>::V {
        Seq::<TextWritingModeType>::empty()
    }

    fn name() -> (r: &'static str) {
        "text-writing-mode"
    }

    fn defaultValue() -> (r: Vec<TextWritingModeType>) {
        let v: Vec<TextWritingModeType> = Vec::new();
        proof {
            assert(v.deep_view() =~= Seq::<TextWritingModeType>::empty());
        }
        v
    }
}

// Layout properties whose values are numbers with a fractional part.
// They are named here; their value types and defaults are given where such values are handled.

pub struct IconOffset {}

pub struct IconPadding {}

pub struct IconRotate {}

pub struct IconSize {}

pub struct IconTextFitPadding {}

pub struct SymbolSortKey {}

pub struct SymbolSpacing {}

pub struct TextField {}

impl DataDrivenLayoutProperty for TextField {
    type Type = Formatted;

    open spec fn name_spec() -> Seq<char> {
        "text-field"@
    }

    open spec fn default_spec() -> <Formatted as DeepView>::V {
        seq![("\u{4E2D}\u{4E2D}\u{4E2D}\u{4E2D}"@, None, None)]
    }

    fn name() -> (r: &'static str) {
        "text-field"
    }

    fn defaultValue() -> (r: Formatted) {
        let section = FormattedSection {
            text: "\u{4E2D}\u{4E2D}\u{4E2D}\u{4E2D}".to_owned(),
            image: None,
            fontStack: None,
        };
        let mut sections: Vec<FormattedSection> = Vec::new();
        sections.push(section);
        let r = Formatted { sections };
        proof {
            assert(r.deep_view() =~= seq![("\u{4E2D}\u{4E2D}\u{4E2D}\u{4E2D}"@, None, None)]);
        }
        r
    }
}

pub struct TextLetterSpacing {}

pub struct TextLineHeight {}

pub struct TextMaxAngle {}

pub struct TextMaxWidth {}

pub struct TextOffset {}

pub struct TextPadding {}

pub struct TextRadialOffset {}

pub struct TextRotate {}

pub struct TextSize {}

/// Whether an evaluated layout holds a value for a property: only the text field and the
/// text font are held.
pub trait HeldInLayout {
    spec fn held_spec() -> bool;

    fn held() -> (r: bool)
        ensures
            r == Self::held_spec(),
    ;
}

impl HeldInLayout for IconAllowOverlap {
    open spec fn held_spec() -> bool {
        false
    }

    fn held() -> (r: bool) {
        false
    }
}

impl HeldInLayout for IconAnchor {
    open spec fn held_spec() -> bool {
        false
    }

    fn held() -> (r: bool) {
        false
    }
}

impl HeldInLayout for IconIgnorePlacement {
    open spec fn held_spec() -> bool {
        false
    }

    fn held() -> (r: bool) {
        false
    }
}

impl HeldInLayout for IconImage {
    open spec fn held_spec() -> bool {
        false
    }

    fn held() -> (r: bool) {
        false
    }
}

impl HeldInLayout for IconKeepUpright {
    open spec fn held_spec() -> bool {
        false
    }

    fn held() -> (r: bool) {
        false
    }
}

impl HeldInLayout for IconOptional {
    open spec fn held_spec() -> bool {
        false
    }

    fn held() -> (r: bool) {
        false
    }
}

impl HeldInLayout for IconPitchAlignment {
    open spec fn held_spec() -> bool {
        false
    }

    fn held() -> (r: bool) {
        false
    }
}

impl HeldInLayout for IconRotationAlignment {
    open spec fn held_spec() -> bool {
        false
    }

    fn held() -> (r: bool) {
        false
    }
}

impl HeldInLayout for IconTextFit {
    open spec fn held_spec() -> bool {
        false
    }

    fn held() -> (r: bool) {
        false
    }
}

impl HeldInLayout for SymbolAvoidEdges {
    open spec fn held_spec() -> bool {
        false
    }

    fn held() -> (r: bool) {
        false
    }
}

impl HeldInLayout for SymbolPlacement {
    open spec fn held_spec() -> bool {
        false
    }

    fn held() -> (r: bool) {
        false
    }
}

impl HeldInLayout for SymbolZOrder {
    open spec fn held_spec() -> bool {
        false
    }

    fn held() -> (r: bool) {
        false
    }
}

impl HeldInLayout for TextAllowOverlap {
    open spec fn held_spec() -> bool {
        false
    }

    fn held() -> (r: bool) {
        false
    }
}

impl HeldInLayout for TextAnchor {
    open spec fn held_spec() -> bool {
        false
    }

    fn held() -> (r: bool) {
        false
    }
}

impl HeldInLayout for TextFont {
    open spec fn held_spec() -> bool {
        true
    }

    fn held() -> (r: bool) {
        true
    }
}

impl HeldInLayout for TextIgnorePlacement {
    open spec fn held_spec() -> bool {
        false
    }

    fn held() -> (r: bool) {
        false
    }
}

impl HeldInLayout for TextJustify {
    open spec fn held_spec() -> bool {
        false
    }

    fn held() -> (r: bool) {
        false
    }
}

impl HeldInLayout for TextKeepUpright {
    open spec fn held_spec() -> bool {
        false
    }

    fn held() -> (r: bool) {
        false
    }
}

impl HeldInLayout for TextOptional {
    open spec fn held_spec() -> bool {
        false
    }

    fn held() -> (r: bool) {
        false
    }
}

impl HeldInLayout for TextPitchAlignment {
    open spec fn held_spec() -> bool {
        false
    }

    fn held() -> (r: bool) {
        false
    }
}

impl HeldInLayout for TextRotationAlignment {
    open spec fn held_spec() -> bool {
        false
    }

    fn held() -> (r: bool) {
        false
    }
}

impl HeldInLayout for TextTransform {
    open spec fn held_spec() -> bool {
        false
    }

    fn held() -> (r: bool) {
        false
    }
}

impl HeldInLayout for TextVariableAnchor {
    open spec fn held_spec() -> bool {
        false
    }

    fn held() -> (r: bool) {
        false
    }
}

impl HeldInLayout for TextWritingMode {
    open spec fn held_spec() -> bool {
        false
    }

    fn held() -> (r: bool) {
        false
    }
}

impl HeldInLayout for IconOffset {
    open spec fn held_spec() -> bool {
        false
    }

    fn held() -> (r: bool) {
        false
    }
}

impl HeldInLayout for IconPadding {
    open spec fn held_spec() -> bool {
        false
    }

    fn held() -> (r: bool) {
        false
    }
}

impl HeldInLayout for IconRotate {
    open spec fn held_spec() -> bool {
        false
    }

    fn held() -> (r: bool) {
        false
    }
}

impl HeldInLayout for IconSize {
    open spec fn held_spec() -> bool {
        false
    }

    fn held() -> (r: bool) {
        false
    }
}

impl HeldInLayout for IconTextFitPadding {
    open spec fn held_spec() -> bool {
        false
    }

    fn held() -> (r: bool) {
        false
    }
}

impl HeldInLayout for SymbolSortKey {
    open spec fn held_spec() -> bool {
        false
    }

    fn held() -> (r: bool) {
        false
    }
}

impl HeldInLayout for SymbolSpacing {
    open spec fn held_spec() -> bool {
        false
    }

    fn held() -> (r: bool) {
        false
    }
}

impl HeldInLayout for TextField {
    open spec fn held_spec() -> bool {
        true
    }

    fn held() -> (r: bool) {
        true
    }
}

impl HeldInLayout for TextLetterSpacing {
    open spec fn held_spec() -> bool {
        false
    }

    fn held() -> (r: bool) {
        false
    }
}

impl HeldInLayout for TextLineHeight {
    open spec fn held_spec() -> bool {
        false
    }

    fn held() -> (r: bool) {
        false
    }
}

impl HeldInLayout for TextMaxAngle {
    open spec fn held_spec() -> bool {
        false
    }

    fn held() -> (r: bool) {
        false
    }
}

impl HeldInLayout for TextMaxWidth {
    open spec fn held_spec() -> bool {
        false
    }

    fn held() -> (r: bool) {
        false
    }
}

impl HeldInLayout for TextOffset {
    open spec fn held_spec() -> bool {
        false
    }

    fn held() -> (r: bool) {
        false
    }
}

impl HeldInLayout for TextPadding {
    open spec fn held_spec() -> bool {
        false
    }

    fn held() -> (r: bool) {
        false
    }
}

impl HeldInLayout for TextRadialOffset {
    open spec fn held_spec() -> bool {
        false
    }

    fn held() -> (r: bool) {
        false
    }
}

impl HeldInLayout for TextRotate {
    open spec fn held_spec() -> bool {
        false
    }

    fn held() -> (r: bool) {
        false
    }
}

impl HeldInLayout for TextSize {
    open spec fn held_spec() -> bool {
        false
    }

    fn held() -> (r: bool) {
        false
    }
}

#[derive(Clone, Debug)]
pub struct SymbolLayoutProperties_Unevaluated;

#[derive(Clone, Debug)]
pub struct SymbolLayoutProperties_PossiblyEvaluated;

#[derive(Clone)]
pub struct SymbolLayoutProperties_Evaluated;

impl SymbolLayoutProperties_Unevaluated {
    /// The unevaluated value of a data-driven property.
    pub fn get_dynamic<T: DataDrivenLayoutProperty>(&self) -> (r: PropertyValue<T::Type>) {
        PropertyValue::new()
    }

    /// Evaluates the layout; the evaluated layout does not depend on the zoom level yet.
    pub fn evaluate(&self) -> (r: SymbolLayoutProperties_PossiblyEvaluated)
        ensures
            r == SymbolLayoutProperties_PossiblyEvaluated,
    {
        SymbolLayoutProperties_PossiblyEvaluated
    }
}

impl SymbolLayoutProperties_PossiblyEvaluated {
    /// Whether the layout holds a value for property `T`.
    pub fn has<T: HeldInLayout>(&self) -> (r: bool)
        ensures
            r == T::held_spec(),
    {
        T::held()
    }

    /// The value of a data-driven property for a feature: still its default value.
    pub fn evaluate<T: DataDrivenLayoutProperty>(&self) -> (r: T::Type)
        ensures
            r.deep_view() == T::default_spec(),
    {
        T::defaultValue()
    }

    /// The value of a data-driven property for a feature, given the images that are
    /// available: still its default value.
    pub fn evaluate4<T: DataDrivenLayoutProperty>(&self) -> (r: T::Type)
        ensures
            r.deep_view() == T::default_spec(),
    {
        T::defaultValue()
    }

    /// Every property still evaluates to its default value.
    pub fn get<T: LayoutProperty>(&self) -> (r: T::Type)
        ensures
            r.deep_view() == T::default_spec(),
    {
        T::defaultValue()
    }

    /// Setting a property does not change the evaluated layout yet.
    pub fn set<T: LayoutProperty>(&mut self, value: T::Type)
        ensures
            *final(self) == *old(self),
    {
    }

    pub fn get_dynamic<T: DataDrivenLayoutProperty>(&self) -> (r: PossiblyEvaluatedPropertyValue<
        T::Type,
    >) {
        PossiblyEvaluatedPropertyValue::new()
    }
}

impl SymbolLayoutProperties_Evaluated {
    /// Every property still evaluates to its default value.
    pub fn get<T: LayoutProperty>(&self) -> (r: T::Type)
        ensures
            r.deep_view() == T::default_spec(),
    {
        T::defaultValue()
    }

    /// Setting a property does not change the evaluated layout yet.
    pub fn set<T: LayoutProperty>(&mut self, value: T::Type)
        ensures
            *final(self) == *old(self),
    {
    }

    pub fn get_dynamic<T: DataDrivenLayoutProperty>(&self) -> (r: PossiblyEvaluatedPropertyValue<
        T::Type,
    >) {
        PossiblyEvaluatedPropertyValue::new()
    }

    /// Every data-driven property still evaluates to its default value.
    pub fn get_eval<T: DataDrivenLayoutProperty>(&self) -> (r: T::Type)
        ensures
            r.deep_view() == T::default_spec(),
    {
        T::defaultValue()
    }
}

/// The defaults of the symbol layout properties, which `get` returns while a layer's layout is
/// not evaluated from a style, are those of the style specification: symbols are placed at
/// points, centred, ordered automatically, may neither overlap nor be ignored by placement, are
/// not optional, keep text upright but not icons, and text has no transform, no variable anchor
/// and no writing mode, in the default font stack.
pub proof fn law_layout_property_defaults()
    ensures
        TextAllowOverlap::default_spec() == false,
        IconAllowOverlap::default_spec() == false,
        TextIgnorePlacement::default_spec() == false,
        IconIgnorePlacement::default_spec() == false,
        TextOptional::default_spec() == false,
        IconOptional::default_spec() == false,
        TextKeepUpright::default_spec() == true,
        IconKeepUpright::default_spec() == false,
        SymbolAvoidEdges::default_spec() == false,
        SymbolPlacement::default_spec() == SymbolPlacementType::Point,
        SymbolZOrder::default_spec() == SymbolZOrderType::Auto,
        IconTextFit::default_spec() == IconTextFitType::NoFit,
        TextPitchAlignment::default_spec() == AlignmentType::Auto,
        TextRotationAlignment::default_spec() == AlignmentType::Auto,
        IconPitchAlignment::default_spec() == AlignmentType::Auto,
        IconRotationAlignment::default_spec() == AlignmentType::Auto,
        TextAnchor::default_spec() == SymbolAnchorType::Center,
        IconAnchor::default_spec() == SymbolAnchorType::Center,
        TextJustify::default_spec() == TextJustifyType::Center,
        TextTransform::default_spec() == TextTransformType::NoTransform,
        TextVariableAnchor::default_spec().len() == 0,
        TextWritingMode::default_spec().len() == 0,
        IconImage::default_spec().0.len() == 0,
        TextFont::default_spec() == seq!["Open Sans Regular"@, "Arial Unicode MS Regular"@],
{
}

} // verus!
