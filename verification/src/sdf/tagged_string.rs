//! Text with per-character formatting, the shaping-code counterpart of formatted text.
use vstd::prelude::*;
use crate::sdf::bidi::{copy_range, Char16, StyledText};
use crate::sdf::u16_string::{
    u16_units, u16string_as_vec, u16string_from_vec, u16string_new, u16string_push_slice,
};
use crate::sdf::i18n::{is_whitespace_spec, isWhitespace};
use crate::sdf::font_stack::{font_names, FontStack, FontStackHash, FontStackHasher};
use crate::sdf::util::combined_hash;

verus! {

/// The first code unit of the Basic Multilingual Plane's Private Use Area.
pub const PUAbegin: Char16 = 0xE000;

/// The last code unit of the Basic Multilingual Plane's Private Use Area.
pub const PUAend: Char16 = 0xF8FF;

/// The evaluated formatting options of one section: its font stack (with the stack's hash) or
/// the image that the section stands for. (Its scale and colour are not held.)
pub struct SectionOptions {
    pub fontStackHash: FontStackHash,
    pub fontStack: FontStack,
    pub imageID: Option<String>,
}

impl SectionOptions {
    /// The options of an image section: no font stack, hash 0 and the given image.
    pub fn from_image_id(imageID_: String) -> (r: Self)
        ensures
            r.fontStackHash == 0,
            r.fontStack@.len() == 0,
            r.imageID == Some(imageID_),
    {
        SectionOptions { fontStackHash: 0, fontStack: Vec::new(), imageID: Some(imageID_) }
    }

    /// The options of a text section in the given font stack.
    pub fn new(fontStack: FontStack) -> (r: Self)
        ensures
            r.fontStackHash == combined_hash(font_names(fontStack@)),
            r.fontStack == fontStack,
            r.imageID is None,
    {
        SectionOptions { fontStackHash: FontStackHasher::new(&fontStack), fontStack, imageID: None }
    }
}

/// A TaggedString represents formatted text at a per-character level so that
/// character-rearranging operations (e.g. BiDi) preserve formatting. Text is represented as:
/// - a string of code units,
/// - a matching array of indices, pointing to
/// - an array of section options (`O`), the evaluated formatting options of the text's
///   sections.
///
/// Image sections are represented by one code unit each, taken in order from the Private Use
/// Area (at most 6400 images per text).
pub struct TaggedString<O> {
    pub styledText: StyledText,
    pub sections: Vec<O>,
    pub supportsVerticalWritingMode: Option<bool>,
    pub imageSectionID: Char16,
}

/// `text[from..to]` consists of white space only.
pub open spec fn all_whitespace(text: Seq<Char16>, from: int, to: int) -> bool {
    forall|i: int| from <= i < to ==> is_whitespace_spec(#[trigger] text[i])
}

/// The style indices after `len` characters were appended in section `section`: the indices
/// are cut or padded with the new section's index to the new text length, as `Vec::resize` does.
pub open spec fn resized_styles(styles: Seq<u8>, len: nat, section: u8) -> Seq<u8> {
    if len <= styles.len() {
        styles.subrange(0, len as int)
    } else {
        styles + Seq::new((len - styles.len()) as nat, |i: int| section)
    }
}

/// The index of the last section of a list with `count` sections, as a `u8` (wrapping around).
pub open spec fn last_section_index(count: nat) -> u8 {
    (count - 1) as u8
}

impl<O> TaggedString<O> {
    /// An empty string.
    pub fn new_empty() -> (r: Self)
        ensures
            u16_units(r.styledText.0) == Seq::<Char16>::empty(),
            r.styledText.1@ == Seq::<u8>::empty(),
            r.sections@ == Seq::<O>::empty(),
            r.supportsVerticalWritingMode is None,
            r.imageSectionID == 0,
    {
        TaggedString {
            styledText: (u16string_new(), Vec::new()),
            sections: Vec::new(),
            supportsVerticalWritingMode: None,
            imageSectionID: 0,
        }
    }

    /// A string of one section.
    pub fn new_from_raw(text_: widestring::U16String, options: O) -> (r: Self)
        ensures
            u16_units(r.styledText.0) == u16_units(text_),
            r.styledText.1@ == Seq::new(u16_units(text_).len(), |i: int| 0u8),
            r.sections@ == seq![options],
            r.supportsVerticalWritingMode is None,
            r.imageSectionID == 0,
    {
        let text_len = u16string_as_vec(&text_).len();
        let mut styles: Vec<u8> = Vec::new();
        let mut i: usize = 0;
        while i < text_len
            invariant
                i <= text_len,
                styles@ == Seq::new(i as nat, |k: int| 0u8),
            decreases text_len - i,
        {
            styles.push(0);
            proof {
                assert(styles@ =~= Seq::new((i + 1) as nat, |k: int| 0u8));
            }
            i = i + 1;
        }
        let mut sections: Vec<O> = Vec::new();
        sections.push(options);
        proof {
            assert(sections@ =~= seq![options]);
        }
        TaggedString {
            styledText: (text_, styles),
            sections,
            supportsVerticalWritingMode: None,
            imageSectionID: 0,
        }
    }

    pub fn new(styledText_: StyledText, sections_: Vec<O>) -> (r: Self)
        ensures
            r.styledText == styledText_,
            r.sections == sections_,
            r.supportsVerticalWritingMode is None,
            r.imageSectionID == 0,
    {
        TaggedString {
            styledText: styledText_,
            sections: sections_,
            supportsVerticalWritingMode: None,
            imageSectionID: 0,
        }
    }

    pub fn length(&self) -> (r: usize)
        ensures
            r == u16_units(self.styledText.0).len(),
    {
        u16string_as_vec(&self.styledText.0).len()
    }

    pub fn sectionCount(&self) -> (r: usize)
        ensures
            r == self.sections@.len(),
    {
        self.sections.len()
    }

    pub fn empty(&self) -> (r: bool)
        ensures
            r == (u16_units(self.styledText.0).len() == 0),
    {
        u16string_as_vec(&self.styledText.0).len() == 0
    }

    /// The options of the section that character `index` belongs to.
    pub fn getSection(&self, index: usize) -> (r: &O)
        requires
            index < self.styledText.1@.len(),
            self.styledText.1@[index as int] < self.sections@.len(),
        ensures
            *r == self.sections@[self.styledText.1@[index as int] as int],
    {
        &self.sections[self.styledText.1[index] as usize]
    }

    pub fn getCharCodeAt(&self, index: usize) -> (r: u16)
        requires
            index < u16_units(self.styledText.0).len(),
        ensures
            r == u16_units(self.styledText.0)[index as int],
    {
        u16string_as_vec(&self.styledText.0)[index]
    }

    pub fn rawText(&self) -> (r: &widestring::U16String)
        ensures
            r == &self.styledText.0,
    {
        &self.styledText.0
    }

    pub fn getStyledText(&self) -> (r: &StyledText)
        ensures
            r == &self.styledText,
    {
        &self.styledText
    }

    pub fn sectionAt(&self, index: usize) -> (r: &O)
        requires
            index < self.sections@.len(),
        ensures
            *r == self.sections@[index as int],
    {
        &self.sections[index]
    }

    pub fn getSections(&self) -> (r: &Vec<O>)
        ensures
            r == &self.sections,
    {
        &self.sections
    }

    pub fn getSectionIndex(&self, characterIndex: usize) -> (r: u8)
        requires
            characterIndex < self.styledText.1@.len(),
        ensures
            r == self.styledText.1@[characterIndex as int],
    {
        self.styledText.1[characterIndex]
    }

    /// Appends a section of text with the given options; the cached vertical writing mode
    /// support is forgotten.
    pub fn addTextSection(&mut self, sectionText: &widestring::U16String, options: O)
        ensures
            u16_units(final(self).styledText.0) == u16_units(old(self).styledText.0) + u16_units(
                *sectionText,
            ),
            final(self).sections@ == old(self).sections@.push(options),
            final(self).styledText.1@ == resized_styles(
                old(self).styledText.1@,
                (u16_units(old(self).styledText.0).len() + u16_units(*sectionText).len()) as nat,
                last_section_index(old(self).sections@.len() + 1),
            ),
            final(self).supportsVerticalWritingMode is None,
            final(self).imageSectionID == old(self).imageSectionID,
    {
        u16string_push_slice(&mut self.styledText.0, u16string_as_vec(sectionText).as_slice());
        self.sections.push(options);
        self.resize_styles();
        self.supportsVerticalWritingMode = None;
    }

    /// Cuts or pads the style indices to the text length with the index of the last section.
    fn resize_styles(&mut self)
        requires
            old(self).sections@.len() > 0,
        ensures
            final(self).styledText.0 == old(self).styledText.0,
            final(self).sections == old(self).sections,
            final(self).supportsVerticalWritingMode == old(self).supportsVerticalWritingMode,
            final(self).imageSectionID == old(self).imageSectionID,
            final(self).styledText.1@ == resized_styles(
                old(self).styledText.1@,
                u16_units(old(self).styledText.0).len(),
                last_section_index(old(self).sections@.len()),
            ),
    {
        let len = u16string_as_vec(&self.styledText.0).len();
        #[verifier::truncate]
        let section: u8 = (self.sections.len() - 1) as u8;
        let ghost old_styles = self.styledText.1@;
        if len <= self.styledText.1.len() {
            self.styledText.1.truncate(len);
        } else {
            let mut k: usize = self.styledText.1.len();
            while k < len
                invariant
                    old_styles.len() <= k <= len,
                    len == u16_units(self.styledText.0).len(),
                    self.styledText.1@ == old_styles + Seq::new(
                        (k - old_styles.len()) as nat,
                        |i: int| section,
                    ),
                    self.styledText.0 == old(self).styledText.0,
                    self.sections == old(self).sections,
                    self.supportsVerticalWritingMode == old(self).supportsVerticalWritingMode,
                    self.imageSectionID == old(self).imageSectionID,
                decreases len - k,
            {
                self.styledText.1.push(section);
                proof {
                    assert(self.styledText.1@ =~= old_styles + Seq::new(
                        (k + 1 - old_styles.len()) as nat,
                        |i: int| section,
                    ));
                }
                k = k + 1;
            }
        }
    }

    /// The code unit for the next image section: the first one is the start of the Private
    /// Use Area, each next one follows the last; beyond the area there is none.
    fn getNextImageSectionCharCode(&mut self) -> (r: Option<Char16>)
        requires
            old(self).imageSectionID < 0xFFFF,
        ensures
            final(self).styledText == old(self).styledText,
            final(self).sections == old(self).sections,
            final(self).supportsVerticalWritingMode == old(self).supportsVerticalWritingMode,
            old(self).imageSectionID == 0 ==> final(self).imageSectionID == PUAbegin,
            old(self).imageSectionID != 0 ==> final(self).imageSectionID == old(self).imageSectionID
                + 1,
            r == (if final(self).imageSectionID > PUAend {
                None
            } else {
                Some(final(self).imageSectionID)
            }),
    {
        if self.imageSectionID == 0 {
            self.imageSectionID = PUAbegin;
            return Some(self.imageSectionID);
        }
        self.imageSectionID = self.imageSectionID + 1;
        if self.imageSectionID > PUAend {
            return None;
        }
        Some(self.imageSectionID)
    }

    /// Appends an image section, represented by the next Private Use Area code unit, with the
    /// given options; when the area is used up, nothing is appended.
    ///
    /// The code unit counter is incremented without wrapping, so it must not be at its
    /// maximum.
    pub fn addImageSection(&mut self, options: O)
        requires
            old(self).imageSectionID < 0xFFFF,
        ensures
            ({
                let id = if old(self).imageSectionID == 0 {
                    PUAbegin
                } else {
                    (old(self).imageSectionID + 1) as u16
                };
                &&& final(self).imageSectionID == id
                &&& final(self).supportsVerticalWritingMode == old(
                    self,
                ).supportsVerticalWritingMode
                &&& if id <= PUAend {
                    &&& u16_units(final(self).styledText.0) == u16_units(old(self).styledText.0).push(id)
                    &&& final(self).sections@ == old(self).sections@.push(options)
                    &&& final(self).styledText.1@ == resized_styles(
                        old(self).styledText.1@,
                        u16_units(old(self).styledText.0).len() + 1,
                        last_section_index(old(self).sections@.len() + 1),
                    )
                } else {
                    &&& final(self).styledText == old(self).styledText
                    &&& final(self).sections == old(self).sections
                }
            }),
    {
        let next = self.getNextImageSectionCharCode();
        if let Some(code) = next {
            let mut unit: Vec<Char16> = Vec::new();
            unit.push(code);
            u16string_push_slice(&mut self.styledText.0, unit.as_slice());
            self.sections.push(options);
            self.resize_styles();
        }
    }

    /// Whether the text can be written vertically, as cached.
    ///
    /// Computing the value from the text is not supported yet, so a value must be cached.
    pub fn allowsVerticalWritingMode(&mut self) -> (r: bool)
        requires
            old(self).supportsVerticalWritingMode is Some,
        ensures
            r == old(self).supportsVerticalWritingMode->0,
            *final(self) == *old(self),
    {
        match self.supportsVerticalWritingMode {
            Some(v) => v,
            None => false,
        }
    }

    /// Removes leading and trailing white space, with the style indices of the removed
    /// characters. A string of white space only becomes empty.
    ///
    /// The style indices are cut like the text, so every character that is not white space
    /// must have a style index.
    pub fn trim(&mut self)
        requires
            forall|i: int|
                0 <= i < u16_units(old(self).styledText.0).len() && !is_whitespace_spec(
                    u16_units(old(self).styledText.0)[i],
                ) ==> i < old(self).styledText.1@.len(),
        ensures
            final(self).sections == old(self).sections,
            final(self).supportsVerticalWritingMode == old(self).supportsVerticalWritingMode,
            final(self).imageSectionID == old(self).imageSectionID,
            ({
                let text = u16_units(old(self).styledText.0);
                if all_whitespace(text, 0, text.len() as int) {
                    &&& u16_units(final(self).styledText.0) == Seq::<Char16>::empty()
                    &&& final(self).styledText.1@ == Seq::<u8>::empty()
                } else {
                    exists|b: int, e: int|
                        {
                            &&& 0 <= b < e <= text.len()
                            &&& all_whitespace(text, 0, b)
                            &&& !is_whitespace_spec(text[b])
                            &&& !is_whitespace_spec(text[e - 1])
                            &&& all_whitespace(text, e, text.len() as int)
                            &&& u16_units(final(self).styledText.0) == text.subrange(b, e)
                            &&& final(self).styledText.1@ == old(self).styledText.1@.subrange(b, e)
                        }
                }
            }),
    {
        let chars = u16string_as_vec(&self.styledText.0);
        let n = chars.len();
        let mut b: usize = 0;
        while b < n && isWhitespace(chars[b])
            invariant
                chars@ == u16_units(self.styledText.0),
                b <= n,
                n == u16_units(self.styledText.0).len(),
                all_whitespace(u16_units(self.styledText.0), 0, b as int),
            decreases n - b,
        {
            b = b + 1;
        }
        if b == n {
            self.styledText.0 = u16string_new();
            self.styledText.1.clear();
            return;
        }
        let mut e: usize = n;
        while e > b && isWhitespace(chars[e - 1])
            invariant
                chars@ == u16_units(self.styledText.0),
                b < n,
                b <= e <= n,
                n == u16_units(self.styledText.0).len(),
                !is_whitespace_spec(u16_units(self.styledText.0)[b as int]),
                all_whitespace(u16_units(self.styledText.0), e as int, n as int),
            decreases e,
        {
            e = e - 1;
        }
        let text = copy_range(chars, b, e);
        let styles = copy_range(&self.styledText.1, b, e);
        self.styledText.0 = u16string_from_vec(text);
        self.styledText.1 = styles;
    }
}

/// What `addTextSection` does: `after` is `before` with `text` appended as a new section with
/// `options`.
pub open spec fn text_section_added<O>(
    before: TaggedString<O>,
    after: TaggedString<O>,
    text: Seq<Char16>,
    options: O,
) -> bool {
    &&& u16_units(after.styledText.0) == u16_units(before.styledText.0) + text
    &&& after.sections@ == before.sections@.push(options)
    &&& after.styledText.1@ == resized_styles(
        before.styledText.1@,
        (u16_units(before.styledText.0).len() + text.len()) as nat,
        last_section_index(before.sections@.len() + 1),
    )
}

/// The total length of the texts.
pub open spec fn texts_len(texts: Seq<Seq<Char16>>) -> nat
    decreases texts.len(),
{
    if texts.len() == 0 {
        0
    } else {
        texts_len(texts.drop_last()) + texts.last().len()
    }
}

/// The number of the text among `texts`, appended one after the other, that holds
/// character `i`.
pub open spec fn owner_of(texts: Seq<Seq<Char16>>, i: int) -> int
    decreases texts.len(),
{
    if texts.len() == 0 {
        0
    } else if i >= texts_len(texts.drop_last()) {
        texts.len() - 1
    } else {
        owner_of(texts.drop_last(), i)
    }
}

/// Trimming cuts white space only: a text whose first and last code units are printable
/// characters other than space (0x21 to 0x7E, such as a full stop) is not all white space, and
/// the only cut that `trim` may make of it is the whole text.
pub proof fn law_trim_keeps_printable_ends(text: Seq<Char16>)
    requires
        text.len() > 0,
        0x21 <= text[0] <= 0x7E,
        0x21 <= text[text.len() - 1] <= 0x7E,
    ensures
        !all_whitespace(text, 0, text.len() as int),
        forall|b: int, e: int|
            0 <= b < e <= text.len() && all_whitespace(text, 0, b) && all_whitespace(
                text,
                e,
                text.len() as int,
            ) ==> b == 0 && e == text.len(),
{
    crate::sdf::i18n::law_whitespace_class(text[0]);
    crate::sdf::i18n::law_whitespace_class(text[text.len() - 1]);
    assert forall|b: int, e: int|
        0 <= b < e <= text.len() && all_whitespace(text, 0, b) && all_whitespace(
            text,
            e,
            text.len() as int,
        ) implies b == 0 && e == text.len() by {
        if b > 0 {
            assert(is_whitespace_spec(text[0]));
        }
        if e < text.len() {
            assert(is_whitespace_spec(text[text.len() - 1]));
        }
    }
}

/// Each character points at its own section: when `states` are an empty tagged string and then
/// the string after each of at most 256 calls of `addTextSection` with `texts` and `options`,
/// in order, every character of the last string has the number of the call that appended it
/// as its section index, and that section's options.
pub proof fn law_characters_point_at_their_sections<O>(
    states: Seq<TaggedString<O>>,
    texts: Seq<Seq<Char16>>,
    options: Seq<O>,
)
    requires
        states.len() == texts.len() + 1,
        options.len() == texts.len(),
        texts.len() <= 256,
        u16_units(states[0].styledText.0).len() == 0,
        states[0].styledText.1@.len() == 0,
        states[0].sections@.len() == 0,
        forall|j: int|
            0 <= j < texts.len() ==> #[trigger] text_section_added(
                states[j],
                states[j + 1],
                texts[j],
                options[j],
            ),
    ensures
        u16_units(states.last().styledText.0).len() == texts_len(texts),
        states.last().styledText.1@.len() == texts_len(texts),
        states.last().sections@ == options,
        forall|i: int|
            0 <= i < texts_len(texts) ==> {
                &&& states.last().styledText.1@[i] == owner_of(texts, i)
                &&& states.last().sections@[owner_of(texts, i)] == options[owner_of(texts, i)]
            },
    decreases texts.len(),
{
    if texts.len() > 0 {
        let n = texts.len() - 1;
        let prev = states.drop_last();
        assert forall|j: int| 0 <= j < n implies #[trigger] text_section_added(
            prev[j],
            prev[j + 1],
            texts.drop_last()[j],
            options.drop_last()[j],
        ) by {
            assert(text_section_added(states[j], states[j + 1], texts[j], options[j]));
        }
        law_characters_point_at_their_sections(prev, texts.drop_last(), options.drop_last());
        let before = states[n];
        let after = states[n + 1];
        assert(text_section_added(before, after, texts[n], options[n]));
        assert(texts.drop_last().len() == n);
        assert(last_section_index(before.sections@.len() + 1) == n);
        assert(after.sections@ =~= options);
        assert forall|i: int| 0 <= i < texts_len(texts) implies {
            &&& after.styledText.1@[i] == owner_of(texts, i)
            &&& after.sections@[owner_of(texts, i)] == options[owner_of(texts, i)]
        } by {
            if i < texts_len(texts.drop_last()) {
                assert(owner_of(texts, i) == owner_of(texts.drop_last(), i));
            }
        }
    }
}

impl<O> Default for TaggedString<O> {
    /// Returns an empty string.
    fn default() -> (r: Self)
        ensures
            u16_units(r.styledText.0) == Seq::<Char16>::empty(),
            r.styledText.1@ == Seq::<u8>::empty(),
            r.sections@ == Seq::<O>::empty(),
            r.supportsVerticalWritingMode is None,
            r.imageSectionID == 0,
    {
        TaggedString::new_empty()
    }
}

} // verus!
