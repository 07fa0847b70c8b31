use maplibre::sdf::i18n::BACKSLACK_V;
use maplibre::sdf::tagged_string::TaggedString;
use widestring::U16String;

/// Section options as the application layer keeps them.
#[derive(Clone, Default, Debug, PartialEq)]
struct SectionOptions {
    scale: f64,
    fontStack: Vec<String>,
    imageID: Option<String>,
}

impl SectionOptions {
    fn new(scale: f64, fontStack: Vec<String>, _textColor: Option<()>) -> Self {
        SectionOptions { scale, fontStack, imageID: None }
    }

    fn from_image_id(imageID: String) -> Self {
        SectionOptions { scale: 1.0, fontStack: vec![], imageID: Some(imageID) }
    }
}

fn u16s(s: &str) -> U16String {
    U16String::from_str(s)
}

#[test]
#[allow(non_snake_case)]
fn TaggedString_Trim() {
    let mut basic = TaggedString::new_from_raw(
        u16s(" \t\ntrim that and not this  \n\t"),
        SectionOptions::new(1.0, vec![], None),
    );
    basic.trim();
    assert_eq!(basic.rawText(), &u16s("trim that and not this"));

    let mut twoSections = TaggedString::default();
    twoSections.addTextSection(&u16s(" \t\ntrim that"), SectionOptions::new(1.5, vec![], None));
    twoSections.addTextSection(&u16s(" and not this  \n\t"), SectionOptions::new(0.5, vec![], None));

    twoSections.trim();
    assert_eq!(twoSections.rawText(), &u16s("trim that and not this"));

    let mut empty = TaggedString::new_from_raw(
        u16s(&format!(
            "\n\t{} \r  \t\n",
            char::from_u32(BACKSLACK_V as u32).unwrap()
        )),
        SectionOptions::new(1.0, vec![], None),
    );
    empty.trim();
    assert_eq!(empty.rawText(), &u16s(""));

    let mut noTrim =
        TaggedString::new_from_raw(u16s("no trim!"), SectionOptions::new(1.0, vec![], None));
    noTrim.trim();
    assert_eq!(noTrim.rawText(), &u16s("no trim!"));
}

#[test]
#[allow(non_snake_case)]
fn TaggedString_ImageSections() {
    let mut string = TaggedString::new_from_raw(U16String::new(), SectionOptions::default());
    string.addImageSection(SectionOptions::from_image_id("image_name".to_string()));
    assert_eq!(string.rawText(), &u16s("\u{E000}"));
    assert!(string.getSection(0).imageID.is_some());
    assert_eq!(
        string.getSection(0).imageID.as_ref().unwrap(),
        &"image_name".to_string()
    );

    let mut maxSections: TaggedString<SectionOptions> = TaggedString::default();
    for i in 0..6401 {
        maxSections.addImageSection(SectionOptions::from_image_id(i.to_string()));
    }

    assert_eq!(maxSections.getSections().len(), 6400);
    assert_eq!(maxSections.getCharCodeAt(0), 0xE000u16);
    assert_eq!(maxSections.getCharCodeAt(6399), 0xF8FFu16);
}

#[test]
fn trim_keeps_style_indices_of_kept_characters() {
    let mut s: TaggedString<SectionOptions> = TaggedString::default();
    s.addTextSection(&u16s("  ab"), SectionOptions::new(1.0, vec![], None));
    s.addTextSection(&u16s("cd  "), SectionOptions::new(2.0, vec![], None));
    assert_eq!(s.getStyledText().1, vec![0, 0, 0, 0, 1, 1, 1, 1]);
    s.trim();
    assert_eq!(s.rawText(), &u16s("abcd"));
    assert_eq!(s.getStyledText().1, vec![0, 0, 1, 1]);
    assert_eq!(s.getSection(3).scale, 2.0);
    assert_eq!(s.getSectionIndex(1), 0);
    assert_eq!(s.length(), 4);
    assert_eq!(s.sectionCount(), 2);
    assert!(!s.empty());
    assert_eq!(s.sectionAt(1).scale, 2.0);
}

#[test]
fn text_sections_reset_the_vertical_mode_cache() {
    let mut s = TaggedString::new(
        (u16s("ab"), vec![0, 0]),
        vec![SectionOptions::new(1.0, vec![], None)],
    );
    s.supportsVerticalWritingMode = Some(true);
    assert!(s.allowsVerticalWritingMode());
    s.addTextSection(&u16s("c"), SectionOptions::new(1.0, vec![], None));
    assert_eq!(s.supportsVerticalWritingMode, None);
    assert_eq!(s.getStyledText().1, vec![0, 0, 1]);
}

#[test]
fn image_section_after_text_uses_the_first_private_code_unit() {
    let mut s = TaggedString::new_from_raw(u16s("x"), SectionOptions::new(1.0, vec![], None));
    s.addImageSection(SectionOptions::from_image_id("a".to_string()));
    s.addImageSection(SectionOptions::from_image_id("b".to_string()));
    assert_eq!(s.rawText().as_slice(), &[0x78u16, 0xE000, 0xE001]);
    assert_eq!(s.getSection(2).imageID, Some("b".to_string()));
}
