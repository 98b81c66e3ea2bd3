//! Resolved fonts: what a page's text needs to know of each font, and how the
//! bytes of a string become glyph codes and text.

use crate::error::ExtractError;
use crate::fixed::Fixed;
use pdf::font::ToUnicodeMap;
use vstd::prelude::*;
use vstd::string::StringExecFns;

verus! {

/// The width of a glyph where nothing says otherwise, in thousandths of the
/// font size.
pub const DEFAULT_GLYPH_WIDTH: i64 = 1_000_000_000;

/// The ascent where a font describes none, in thousandths of the font size.
pub const DEFAULT_ASCENT: i64 = 800_000_000;

/// The descent where a font describes none, in thousandths of the font size.
pub const DEFAULT_DESCENT: i64 = -200_000_000;

/// The character that stands for a code without one.
pub const REPLACEMENT: char = '\u{FFFD}';

/// The table from glyph codes to Unicode text that a font may carry.
#[verifier::external_type_specification]
#[verifier::external_body]
pub struct ExToUnicodeMap(ToUnicodeMap);

/// What a table from glyph codes to Unicode text holds.
pub uninterp spec fn unicode_entries(map: ToUnicodeMap) -> Map<u16, Seq<char>>;

/// `ToUnicodeMap::get` looks the code up in the table: the text that was
/// entered for it, if any.
pub assume_specification<'a>[ ToUnicodeMap::get ](map: &'a ToUnicodeMap, gid: u16) -> (r: Option<
    &'a str,
>)
    ensures
        r matches Some(text) ==> unicode_entries(*map).contains_key(gid) && unicode_entries(
            *map,
        )[gid] == text@,
        r is None ==> !unicode_entries(*map).contains_key(gid),
;

/// `char::from_u32` gives the character of a code point, and none for a
/// surrogate or a number beyond the last code point.
pub assume_specification[ char::from_u32 ](i: u32) -> (r: Option<char>)
    ensures
        (i <= 0xD7FF || 0xE000 <= i <= 0x10FFFF) ==> r == Some(i as char),
        !(i <= 0xD7FF || 0xE000 <= i <= 0x10FFFF) ==> r is None,
;

/// The text that a string of bytes gives when nothing is known of its font:
/// what `PdfString::to_string_lossy` makes of it.
pub uninterp spec fn lossy_text(bytes: Seq<u8>) -> Seq<char>;

/// Reads the bytes as text with `pdf::primitive::PdfString::to_string_lossy`,
/// which takes them for UTF-16 after a byte order mark and for UTF-8
/// otherwise, and puts the replacement character where they are neither. The
/// result depends on the bytes alone and is named by [`lossy_text`].
#[verifier::external_body]
fn pdf_string_lossy(bytes: &[u8]) -> (text: String)
    ensures
        text@ == lossy_text(bytes@),
{
    pdf::primitive::PdfString::new(bytes.into()).to_string_lossy()
}

/// Glyph widths by code, in thousandths of the font size: `values` holds the
/// widths of the codes from `first_char` on, every other code has the width
/// `default`.
#[derive(Debug)]
pub struct WidthTable {
    pub values: Vec<Fixed>,
    pub default: Fixed,
    pub first_char: usize,
}

/// What a font descriptor says of the vertical extent of the glyphs.
#[derive(Clone, Copy, Debug, PartialEq, Eq, Structural)]
pub struct FontDescriptor {
    pub ascent: Option<Fixed>,
    pub descent: Option<Fixed>,
    pub bbox_top: Fixed,
    pub bbox_bottom: Fixed,
}

/// The kinds of font, as far as their metrics are found differently.
#[derive(Debug)]
#[allow(inconsistent_fields)]
pub enum FontData {
    /// A composite font, with the fonts it draws its glyphs from.
    Composite { descendants: Vec<FontData> },
    /// A simple font, which may come without a descriptor.
    Simple { descriptor: Option<FontDescriptor> },
    /// A font keyed by character identifiers.
    Cid { descriptor: FontDescriptor },
    /// Any other font.
    Other,
}

/// A font of a page, resolved to what drawing text with it takes.
#[derive(Debug)]
pub struct ResolvedFont {
    pub widths: Option<WidthTable>,
    pub to_unicode: Option<ToUnicodeMap>,
    /// Codes are two bytes long, not one.
    pub is_cid: bool,
    /// Ascent and descent, in thousandths of the font size.
    pub metrics: Option<(Fixed, Fixed)>,
}

/// A font under the name by which the page's content refers to it.
#[derive(Debug)]
pub struct NamedFont {
    pub name: String,
    pub font: ResolvedFont,
}

/// The bytes of a string as text, with the glyph codes that were read.
#[derive(Debug)]
pub struct DecodedText {
    pub text: String,
    pub codes: Vec<u16>,
}

/// Decoded text as sequences of characters and of codes.
pub struct DecodedTextView {
    pub text: Seq<char>,
    pub codes: Seq<u16>,
}

impl View for DecodedText {
    type V = DecodedTextView;

    open spec fn view(&self) -> DecodedTextView {
        DecodedTextView { text: self.text@, codes: self.codes@ }
    }
}

impl WidthTable {
    /// The width of the glyph of `code`.
    pub open spec fn width_of(self, code: int) -> Fixed {
        if self.first_char <= code < self.first_char + self.values@.len() {
            self.values@[code - self.first_char]
        } else {
            self.default
        }
    }

    /// Looks up the width of the glyph of `code`.
    pub fn get(&self, code: usize) -> (w: Fixed)
        ensures
            w == self.width_of(code as int),
    {
        if code < self.first_char {
            self.default
        } else if code - self.first_char < self.values.len() {
            self.values[code - self.first_char]
        } else {
            self.default
        }
    }
}

/// Ascent and descent as a descriptor gives them: where it names none, the
/// top and the bottom of the font's bounding box stand in.
pub open spec fn descriptor_extent(descriptor: FontDescriptor) -> (Fixed, Fixed) {
    (
        match descriptor.ascent {
            Some(a) => a,
            None => descriptor.bbox_top,
        },
        match descriptor.descent {
            Some(d) => d,
            None => descriptor.bbox_bottom,
        },
    )
}

/// Reads ascent and descent off a descriptor.
pub fn descriptor_metrics(descriptor: &FontDescriptor) -> (m: (Fixed, Fixed))
    ensures
        m == descriptor_extent(*descriptor),
{
    let ascent = match descriptor.ascent {
        Some(a) => a,
        None => descriptor.bbox_top,
    };
    let descent = match descriptor.descent {
        Some(d) => d,
        None => descriptor.bbox_bottom,
    };
    (ascent, descent)
}

/// The metrics of a font: a composite font has those of its first
/// descendant, a simple font those of its descriptor if it has one, a font
/// keyed by character identifiers those of its descriptor, and any other font
/// none.
pub open spec fn font_metrics(data: FontData) -> Option<(Fixed, Fixed)>
    decreases data,
{
    match data {
        FontData::Composite { descendants } => if descendants@.len() > 0 {
            font_metrics(descendants@[0])
        } else {
            None
        },
        FontData::Simple { descriptor } => match descriptor {
            Some(d) => Some(descriptor_extent(d)),
            None => None,
        },
        FontData::Cid { descriptor } => Some(descriptor_extent(descriptor)),
        FontData::Other => None,
    }
}

/// Finds the metrics of a font.
pub fn resolve_font_metrics(data: &FontData) -> (m: Option<(Fixed, Fixed)>)
    ensures
        m == font_metrics(*data),
    decreases data,
{
    match data {
        FontData::Composite { descendants } => {
            if descendants.len() > 0 {
                resolve_font_metrics(&descendants[0])
            } else {
                None
            }
        },
        FontData::Simple { descriptor } => match descriptor {
            Some(d) => Some(descriptor_metrics(d)),
            None => None,
        },
        FontData::Cid { descriptor } => Some(descriptor_metrics(descriptor)),
        FontData::Other => None,
    }
}

/// The character that stands for a code which no table maps: the character
/// of that code point, if there is one.
pub open spec fn code_char(code: u16) -> char {
    if 0xD800 <= code <= 0xDFFF {
        REPLACEMENT
    } else {
        code as char
    }
}

/// The text of one code: what the table holds for it, else its own character.
pub open spec fn code_text(code: u16, table: Option<Map<u16, Seq<char>>>) -> Seq<char> {
    match table {
        Some(entries) => if entries.contains_key(code) {
            entries[code]
        } else {
            seq![code_char(code)]
        },
        None => seq![code_char(code)],
    }
}

/// The text of a sequence of codes, code by code.
pub open spec fn codes_text(codes: Seq<u16>, table: Option<Map<u16, Seq<char>>>) -> Seq<char>
    decreases codes.len(),
{
    if codes.len() == 0 {
        Seq::<char>::empty()
    } else {
        codes_text(codes.drop_last(), table) + code_text(codes.last(), table)
    }
}

/// The codes of a string in a simple font: one for each byte.
pub open spec fn simple_codes(bytes: Seq<u8>) -> Seq<u16> {
    Seq::new(bytes.len(), |i: int| bytes[i] as u16)
}

/// The codes of a string in a font keyed by character identifiers: one for
/// each pair of bytes, the first byte the high one. A last byte without a
/// partner is left out.
pub open spec fn cid_codes(bytes: Seq<u8>) -> Seq<u16> {
    Seq::new((bytes.len() / 2) as nat, |i: int| (bytes[2 * i] * 256 + bytes[2 * i + 1]) as u16)
}

/// What a table holds, if there is a table.
pub open spec fn table_entries(table: Option<&ToUnicodeMap>) -> Option<Map<u16, Seq<char>>> {
    match table {
        Some(map) => Some(unicode_entries(*map)),
        None => None,
    }
}

/// Appends the text of one code to `text`.
fn push_code_text(text: &mut String, code: u16, table: Option<&ToUnicodeMap>)
    ensures
        final(text)@ == old(text)@ + code_text(code, table_entries(table)),
{
    if let Some(map) = table {
        if let Some(value) = map.get(code) {
            text.append(value);
            return ;
        }
    }
    let c = match char::from_u32(code as u32) {
        Some(c) => c,
        None => REPLACEMENT,
    };
    text.push(c);
    assert(old(text)@.push(c) =~= old(text)@ + seq![c]);
}

/// Decodes a string of a simple font: every byte is one code.
pub fn decode_simple(bytes: &[u8], table: Option<&ToUnicodeMap>) -> (r: DecodedText)
    ensures
        r.codes@ == simple_codes(bytes@),
        r.text@ == codes_text(simple_codes(bytes@), table_entries(table)),
{
    let mut text = String::new();
    let mut codes: Vec<u16> = Vec::new();
    let mut i: usize = 0;
    while i < bytes.len()
        invariant
            i <= bytes@.len(),
            codes@ == simple_codes(bytes@).take(i as int),
            text@ == codes_text(codes@, table_entries(table)),
        decreases bytes@.len() - i,
    {
        let code = bytes[i] as u16;
        let ghost before = codes@;
        codes.push(code);
        push_code_text(&mut text, code, table);
        proof {
            assert(codes@.drop_last() =~= before);
            assert(codes@ =~= simple_codes(bytes@).take(i + 1));
        }
        i += 1;
    }
    assert(codes@ =~= simple_codes(bytes@));
    DecodedText { text, codes }
}

/// Decodes a string of a font keyed by character identifiers: every two
/// bytes are one code, and a byte left over at the end is dropped.
pub fn decode_cid(bytes: &[u8], table: Option<&ToUnicodeMap>) -> (r: DecodedText)
    ensures
        r.codes@ == cid_codes(bytes@),
        r.codes@.len() == bytes@.len() / 2,
        r.text@ == codes_text(cid_codes(bytes@), table_entries(table)),
{
    let mut text = String::new();
    let mut codes: Vec<u16> = Vec::new();
    let len: usize = bytes.len();
    let pairs: usize = len / 2;
    let mut i: usize = 0;
    while i < pairs
        invariant
            len == bytes@.len(),
            pairs == len / 2,
            i <= pairs,
            codes@ == cid_codes(bytes@).take(i as int),
            text@ == codes_text(codes@, table_entries(table)),
        decreases pairs - i,
    {
        let high = bytes[2 * i] as u16;
        let low = bytes[2 * i + 1] as u16;
        let code: u16 = high * 256 + low;
        let ghost before = codes@;
        codes.push(code);
        push_code_text(&mut text, code, table);
        proof {
            assert(codes@.drop_last() =~= before);
            assert(codes@ =~= cid_codes(bytes@).take(i + 1));
        }
        i += 1;
    }
    assert(codes@ =~= cid_codes(bytes@));
    DecodedText { text, codes }
}

/// Decodes a string whose font is unknown: the bytes are read as text as
/// well as may be, and every byte counts as one code.
pub fn fallback_decode(bytes: &[u8]) -> (r: DecodedText)
    ensures
        r.codes@ == simple_codes(bytes@),
        r.text@ == lossy_text(bytes@),
{
    let text = pdf_string_lossy(bytes);
    let mut codes: Vec<u16> = Vec::new();
    let mut i: usize = 0;
    while i < bytes.len()
        invariant
            i <= bytes@.len(),
            codes@ == simple_codes(bytes@).take(i as int),
        decreases bytes@.len() - i,
    {
        codes.push(bytes[i] as u16);
        assert(codes@ =~= simple_codes(bytes@).take(i + 1));
        i += 1;
    }
    assert(codes@ =~= simple_codes(bytes@));
    DecodedText { text, codes }
}

/// What a string of bytes is in a font, or without one.
pub open spec fn decoded(font: Option<ResolvedFont>, bytes: Seq<u8>) -> DecodedTextView {
    match font {
        Some(f) => {
            let codes = if f.is_cid {
                cid_codes(bytes)
            } else {
                simple_codes(bytes)
            };
            let table = match f.to_unicode {
                Some(map) => Some(unicode_entries(map)),
                None => None,
            };
            DecodedTextView { text: codes_text(codes, table), codes }
        },
        None => DecodedTextView { text: lossy_text(bytes), codes: simple_codes(bytes) },
    }
}

impl ResolvedFont {
    /// Puts together what was read of a font. The metrics come from the
    /// font's data.
    pub fn from_font(
        widths: Option<WidthTable>,
        to_unicode: Option<ToUnicodeMap>,
        is_cid: bool,
        data: &FontData,
    ) -> (font: ResolvedFont)
        ensures
            font.widths == widths,
            font.to_unicode == to_unicode,
            font.is_cid == is_cid,
            font.metrics == font_metrics(*data),
    {
        ResolvedFont { widths, to_unicode, is_cid, metrics: resolve_font_metrics(data) }
    }

    /// Decodes a string drawn in this font.
    pub fn decode(&self, bytes: &[u8]) -> (r: DecodedText)
        ensures
            r@ == decoded(Some(*self), bytes@),
    {
        if self.is_cid {
            decode_cid(bytes, self.to_unicode.as_ref())
        } else {
            decode_simple(bytes, self.to_unicode.as_ref())
        }
    }

    /// The width of the glyph of `code`, in thousandths of the font size.
    pub open spec fn glyph_width_of(self, code: u16) -> Fixed {
        match self.widths {
            Some(table) => table.width_of(code as int),
            None => Fixed { raw: DEFAULT_GLYPH_WIDTH },
        }
    }

    /// Looks up the width of the glyph of `code`.
    pub fn glyph_width(&self, code: u16) -> (w: Fixed)
        ensures
            w == self.glyph_width_of(code),
    {
        match &self.widths {
            Some(table) => table.get(code as usize),
            None => Fixed::from_raw(DEFAULT_GLYPH_WIDTH),
        }
    }

    /// Ascent and descent, if the font gives them.
    pub fn metrics(&self) -> (m: Option<(Fixed, Fixed)>)
        ensures
            m == self.metrics,
    {
        self.metrics
    }
}

/// The position of the first font of that name.
pub open spec fn font_position(fonts: Seq<NamedFont>, name: Seq<char>) -> Option<int>
    decreases fonts.len(),
{
    if fonts.len() == 0 {
        None
    } else {
        match font_position(fonts.drop_last(), name) {
            Some(i) => Some(i),
            None => if fonts.last().name@ == name {
                Some(fonts.len() - 1)
            } else {
                None
            },
        }
    }
}

/// The font that goes by the name, if a name is set and known.
pub open spec fn font_named(fonts: Seq<NamedFont>, name: Option<Seq<char>>) -> Option<ResolvedFont> {
    match name {
        Some(n) => match font_position(fonts, n) {
            Some(i) => Some(fonts[i].font),
            None => None,
        },
        None => None,
    }
}

/// The position that `font_position` gives is the least with that name.
pub proof fn lemma_font_position(fonts: Seq<NamedFont>, name: Seq<char>)
    ensures
        match font_position(fonts, name) {
            Some(i) => 0 <= i < fonts.len() && fonts[i].name@ == name && forall|j: int|
                0 <= j < i ==> (#[trigger] fonts[j]).name@ != name,
            None => forall|j: int| 0 <= j < fonts.len() ==> (#[trigger] fonts[j]).name@ != name,
        },
    decreases fonts.len(),
{
    if fonts.len() > 0 {
        let front = fonts.drop_last();
        lemma_font_position(front, name);
        assert forall|j: int| 0 <= j < front.len() implies front[j] == fonts[j] by {}
        match font_position(front, name) {
            Some(i) => {
                assert(front[i] == fonts[i]);
                assert forall|j: int| 0 <= j < i implies (#[trigger] fonts[j]).name@ != name by {
                    assert(front[j] == fonts[j]);
                }
            },
            None => {
                assert forall|j: int| 0 <= j < fonts.len() - 1 implies (#[trigger] fonts[j]).name@
                    != name by {
                    assert(front[j] == fonts[j]);
                }
            },
        }
    }
}

/// Finds the font that the content calls `name`.
pub fn find_font<'a>(fonts: &'a Vec<NamedFont>, name: &String) -> (r: Option<&'a ResolvedFont>)
    ensures
        match r {
            Some(font) => font_named(fonts@, Some(name@)) == Some(*font),
            None => font_named(fonts@, Some(name@)) is None,
        },
{
    let mut i: usize = 0;
    while i < fonts.len()
        invariant
            i <= fonts@.len(),
            forall|j: int| 0 <= j < i ==> (#[trigger] fonts@[j]).name@ != name@,
        decreases fonts@.len() - i,
    {
        if fonts[i].name == *name {
            proof {
                lemma_font_position(fonts@, name@);
            }
            return Some(&fonts[i].font);
        }
        i += 1;
    }
    proof {
        lemma_font_position(fonts@, name@);
    }
    None
}

/// The fonts of a page with one more: a font of a name that is taken
/// replaces the font of that name, any other is added at the end.
pub open spec fn with_font(fonts: Seq<NamedFont>, entry: NamedFont) -> Seq<NamedFont> {
    match font_position(fonts, entry.name@) {
        Some(i) => fonts.update(i, entry),
        None => fonts.push(entry),
    }
}

/// Enters a resolved font under its name.
pub fn insert_font(fonts: &mut Vec<NamedFont>, name: String, font: ResolvedFont)
    ensures
        final(fonts)@ == with_font(old(fonts)@, NamedFont { name, font }),
        font_named(final(fonts)@, Some(name@)) == Some(font),
{
    let mut i: usize = 0;
    let ghost before = fonts@;
    let ghost entry = NamedFont { name, font };
    while i < fonts.len()
        invariant
            fonts@ == before,
            before == old(fonts)@,
            entry == (NamedFont { name, font }),
            i <= fonts@.len(),
            forall|j: int| 0 <= j < i ==> (#[trigger] fonts@[j]).name@ != name@,
        decreases fonts@.len() - i,
    {
        if fonts[i].name == name {
            fonts.set(i, NamedFont { name, font });
            proof {
                lemma_font_position(before, entry.name@);
                lemma_font_position(fonts@, entry.name@);
                assert(fonts@ =~= before.update(i as int, entry));
                assert(fonts@[i as int] == entry);
            }
            return ;
        }
        i += 1;
    }
    fonts.push(NamedFont { name, font });
    proof {
        lemma_font_position(before, entry.name@);
        lemma_font_position(fonts@, entry.name@);
        assert(fonts@[before.len() as int] == entry);
    }
}

/// What came of resolving one font of a page: the font under its name, or
/// the resolver's words on why there is none.
#[derive(Debug)]
pub struct FontOutcome {
    pub name: String,
    pub font: Result<ResolvedFont, String>,
}

/// The fonts of a page whose fonts were all resolved, entered one after the
/// other.
pub open spec fn fonts_of(outcomes: Seq<FontOutcome>) -> Seq<NamedFont>
    decreases outcomes.len(),
{
    if outcomes.len() == 0 {
        Seq::<NamedFont>::empty()
    } else {
        match outcomes.last().font {
            Ok(font) => with_font(
                fonts_of(outcomes.drop_last()),
                NamedFont { name: outcomes.last().name, font },
            ),
            Err(_) => fonts_of(outcomes.drop_last()),
        }
    }
}

/// The position of the first font that could not be resolved.
pub open spec fn first_failure(outcomes: Seq<FontOutcome>) -> Option<int>
    decreases outcomes.len(),
{
    if outcomes.len() == 0 {
        None
    } else {
        match first_failure(outcomes.drop_last()) {
            Some(i) => Some(i),
            None => if outcomes.last().font is Err {
                Some(outcomes.len() - 1)
            } else {
                None
            },
        }
    }
}

/// Gathers the fonts of a page. One font that could not be resolved fails
/// the page: the first such failure is reported in the resolver's words.
pub fn collect_fonts(outcomes: Vec<FontOutcome>) -> (r: Result<Vec<NamedFont>, ExtractError>)
    ensures
        match first_failure(outcomes@) {
            None => r matches Ok(fonts) && fonts@ == fonts_of(outcomes@),
            Some(i) => 0 <= i < outcomes@.len() && outcomes@[i].font is Err && r
                == Err::<Vec<NamedFont>, ExtractError>(
                ExtractError::PdfStructure(outcomes@[i].font->Err_0),
            ),
        },
{
    let mut fonts: Vec<NamedFont> = Vec::new();
    let ghost all = outcomes@;
    let mut rest = outcomes;
    let ghost mut done: int = 0;
    assert(all.take(0) =~= Seq::<FontOutcome>::empty());
    assert(all.skip(0) =~= all);
    while rest.len() > 0
        invariant
            all == outcomes@,
            0 <= done <= all.len(),
            rest@ == all.skip(done),
            first_failure(all.take(done)) is None,
            fonts@ == fonts_of(all.take(done)),
        decreases rest@.len(),
    {
        let outcome = rest.remove(0);
        proof {
            assert(outcome == all[done]);
            assert(rest@ =~= all.skip(done + 1));
            assert(all.take(done + 1).drop_last() =~= all.take(done));
            assert(all.take(done + 1).last() == all[done]);
        }
        match outcome.font {
            Ok(font) => {
                insert_font(&mut fonts, outcome.name, font);
            },
            Err(words) => {
                proof {
                    assert(first_failure(all.take(done + 1)) == Some(done));
                    lemma_first_failure(all, done + 1);
                    assert(all[done].font == Err::<ResolvedFont, String>(words));
                }
                return Err(ExtractError::PdfStructure(words));
            },
        }
        proof {
            done = done + 1;
        }
    }
    assert(all.take(done) =~= all);
    Ok(fonts)
}

/// What fails among the first fonts of a page fails the page.
proof fn lemma_first_failure(outcomes: Seq<FontOutcome>, k: int)
    requires
        0 <= k <= outcomes.len(),
        first_failure(outcomes.take(k)) is Some,
    ensures
        first_failure(outcomes) == first_failure(outcomes.take(k)),
        first_failure(outcomes) is Some,
        0 <= first_failure(outcomes)->0 < k,
        outcomes[first_failure(outcomes)->0].font is Err,
    decreases outcomes.len() - k,
{
    if k == outcomes.len() {
        assert(outcomes.take(k) =~= outcomes);
        lemma_failure_position(outcomes);
    } else {
        assert(outcomes.take(k + 1).drop_last() =~= outcomes.take(k));
        lemma_first_failure(outcomes, k + 1);
        lemma_failure_position(outcomes.take(k));
        let i = first_failure(outcomes.take(k))->0;
        assert(outcomes.take(k)[i] == outcomes[i]);
    }
}

/// The first failure stands where `first_failure` says.
proof fn lemma_failure_position(outcomes: Seq<FontOutcome>)
    ensures
        first_failure(outcomes) is Some ==> 0 <= first_failure(outcomes)->0 < outcomes.len()
            && outcomes[first_failure(outcomes)->0].font is Err,
    decreases outcomes.len(),
{
    if outcomes.len() > 0 {
        let front = outcomes.drop_last();
        lemma_failure_position(front);
        match first_failure(front) {
            Some(i) => {
                assert(front[i] == outcomes[i]);
            },
            None => {},
        }
    }
}

} // verus!
