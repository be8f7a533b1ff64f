//! The syntax of a document: its objects as dictionaries, its page content as operators with their
//! operands.

use crate::image::Picture;
use crate::pdf::document::{
    document_references_resolve, draft_of, exists_object, finished, linked, numberable, Finished,
    Item, Operation, PageLength, PdfDocument, PdfObject, PdfOperation,
};
use crate::pdf::limits::PdfChoices;
use vstd::prelude::*;
use vstd::string::StringExecFns;

verus! {

// ---------------------------------------------------------------------------
// Tokens
// ---------------------------------------------------------------------------

/// One token of an object. A dictionary stands between its brackets as names that alternate with
/// values.
#[derive(Debug)]
pub enum PdfToken {
    Open,
    Close,
    OpenList,
    CloseList,
    Name(String),
    Integer(i64),
    /// A length in points, of which there are seventy-two to the inch.
    Length(PageLength),
    /// A number of hundredths.
    Hundredths(u32),
    Text(String),
    Literal(Vec<u8>),
    Hexadecimal(Vec<u8>),
    Reference(u32),
}

/// What a token holds.
pub enum Mark {
    Open,
    Close,
    OpenList,
    CloseList,
    Name(Seq<char>),
    Integer(int),
    Length(PageLength),
    Hundredths(int),
    Text(Seq<char>),
    Literal(Seq<u8>),
    Hexadecimal(Seq<u8>),
    Reference(u32),
}

impl View for PdfToken {
    type V = Mark;

    open spec fn view(&self) -> Mark {
        match self {
            PdfToken::Open => Mark::Open,
            PdfToken::Close => Mark::Close,
            PdfToken::OpenList => Mark::OpenList,
            PdfToken::CloseList => Mark::CloseList,
            PdfToken::Name(text) => Mark::Name(text@),
            PdfToken::Integer(n) => Mark::Integer(*n as int),
            PdfToken::Length(length) => Mark::Length(*length),
            PdfToken::Hundredths(n) => Mark::Hundredths(*n as int),
            PdfToken::Text(text) => Mark::Text(text@),
            PdfToken::Literal(bytes) => Mark::Literal(bytes@),
            PdfToken::Hexadecimal(bytes) => Mark::Hexadecimal(bytes@),
            PdfToken::Reference(id) => Mark::Reference(*id),
        }
    }
}

/// What tokens hold.
pub open spec fn marks(tokens: Seq<PdfToken>) -> Seq<Mark> {
    tokens.map_values(|t: PdfToken| t@)
}

fn put(out: &mut Vec<PdfToken>, token: PdfToken)
    ensures
        marks(final(out)@) == marks(old(out)@).push(token@),
{
    let ghost before = out@;
    out.push(token);
    assert(marks(out@) =~= marks(before).push(token@));
}

fn put_name(out: &mut Vec<PdfToken>, name: &str)
    ensures
        marks(final(out)@) == marks(old(out)@).push(Mark::Name(name@)),
{
    put(out, PdfToken::Name(name.to_owned()));
}

// ---------------------------------------------------------------------------
// Objects
// ---------------------------------------------------------------------------

/// References to some objects.
pub open spec fn references(ids: Seq<u32>) -> Seq<Mark> {
    ids.map_values(|id: u32| Mark::Reference(id))
}

/// The resources of a page: its image and, where it has searchable text, the font and a state that
/// makes the text all but invisible.
pub open spec fn resource_marks(image_name: Seq<char>, image: u32, font: Option<u32>) -> Seq<Mark> {
    seq![
        Mark::Open,
        Mark::Name("XObject"@),
        Mark::Open,
        Mark::Name(image_name),
        Mark::Reference(image),
        Mark::Close,
    ] + match font {
        None => seq![Mark::Close],
        Some(id) => seq![
            Mark::Name("Font"@),
            Mark::Open,
            Mark::Name("F1"@),
            Mark::Reference(id),
            Mark::Close,
            Mark::Name("ExtGState"@),
            Mark::Open,
            Mark::Name("GS1"@),
            Mark::Open,
            Mark::Name("Type"@),
            Mark::Name("ExtGState"@),
            Mark::Name("ca"@),
            Mark::Hundredths(1),
            Mark::Name("CA"@),
            Mark::Hundredths(1),
            Mark::Close,
            Mark::Close,
            Mark::Close,
        ],
    }
}

/// The dictionary of an image.
pub open spec fn image_marks(width: u32, height: u32, deflated: bool) -> Seq<Mark> {
    seq![
        Mark::Open,
        Mark::Name("Type"@),
        Mark::Name("XObject"@),
        Mark::Name("Subtype"@),
        Mark::Name("Image"@),
        Mark::Name("Width"@),
        Mark::Integer(width as int),
        Mark::Name("Height"@),
        Mark::Integer(height as int),
        Mark::Name("ColorSpace"@),
        Mark::Name("DeviceRGB"@),
        Mark::Name("BitsPerComponent"@),
        Mark::Integer(8),
    ] + if deflated {
        seq![Mark::Name("Filter"@), Mark::Name("FlateDecode"@), Mark::Close]
    } else {
        seq![Mark::Close]
    }
}

/// The dictionary of an object, given the length of the font file.
pub open spec fn object_marks(item: Item, font_length: int) -> Seq<Mark> {
    match item {
        Item::Pages { kids } => seq![
            Mark::Open,
            Mark::Name("Type"@),
            Mark::Name("Pages"@),
            Mark::Name("Kids"@),
            Mark::OpenList,
        ] + references(kids) + seq![
            Mark::CloseList,
            Mark::Name("Count"@),
            Mark::Integer(kids.len() as i64 as int),
            Mark::Close,
        ],
        Item::Image { width, height, deflated, .. } => image_marks(width, height, deflated),
        Item::Page { parent, width, height, image_name, image, font, contents } => seq![
            Mark::Open,
            Mark::Name("Type"@),
            Mark::Name("Page"@),
            Mark::Name("Parent"@),
            Mark::Reference(parent),
            Mark::Name("MediaBox"@),
            Mark::OpenList,
            Mark::Integer(0),
            Mark::Integer(0),
            Mark::Length(width),
            Mark::Length(height),
            Mark::CloseList,
            Mark::Name("Resources"@),
        ] + resource_marks(image_name, image, font) + seq![
            Mark::Name("Contents"@),
            Mark::Reference(contents),
            Mark::Close,
        ],
        Item::FontFile => seq![
            Mark::Open,
            Mark::Name("Length1"@),
            Mark::Integer(font_length),
            Mark::Name("Filter"@),
            Mark::Name("Crypt"@),
            Mark::Name("DecodeParms"@),
            Mark::Open,
            Mark::Name("Name"@),
            Mark::Name("Identity"@),
            Mark::Close,
            Mark::Close,
        ],
        Item::FontDescriptor { font_file } => seq![
            Mark::Open,
            Mark::Name("Type"@),
            Mark::Name("FontDescriptor"@),
            Mark::Name("FontName"@),
            Mark::Name("Cantarell-Regular"@),
            Mark::Name("Flags"@),
            Mark::Integer(4),
            Mark::Name("FontBBox"@),
            Mark::OpenList,
            Mark::Integer(0),
            Mark::Integer(0),
            Mark::Integer(1000),
            Mark::Integer(1000),
            Mark::CloseList,
            Mark::Name("ItalicAngle"@),
            Mark::Integer(0),
            Mark::Name("Ascent"@),
            Mark::Integer(880),
            Mark::Name("Descent"@),
            Mark::Integer(-120),
            Mark::Name("CapHeight"@),
            Mark::Integer(700),
            Mark::Name("StemV"@),
            Mark::Integer(80),
            Mark::Name("FontFile2"@),
            Mark::Reference(font_file),
            Mark::Close,
        ],
        Item::CidFont { descriptor, glyph_map } => seq![
            Mark::Open,
            Mark::Name("Type"@),
            Mark::Name("Font"@),
            Mark::Name("Subtype"@),
            Mark::Name("CIDFontType2"@),
            Mark::Name("BaseFont"@),
            Mark::Name("Cantarell-Regular"@),
            Mark::Name("CIDSystemInfo"@),
            Mark::Open,
            Mark::Name("Registry"@),
            Mark::Text("Adobe"@),
            Mark::Name("Ordering"@),
            Mark::Text("Identity"@),
            Mark::Name("Supplement"@),
            Mark::Integer(0),
            Mark::Close,
            Mark::Name("FontDescriptor"@),
            Mark::Reference(descriptor),
            Mark::Name("DW"@),
            Mark::Integer(1000),
            Mark::Name("CIDToGIDMap"@),
            Mark::Reference(glyph_map),
            Mark::Close,
        ],
        Item::Type0Font { descendant, to_unicode } => seq![
            Mark::Open,
            Mark::Name("Type"@),
            Mark::Name("Font"@),
            Mark::Name("Subtype"@),
            Mark::Name("Type0"@),
            Mark::Name("BaseFont"@),
            Mark::Name("Cantarell-Regular"@),
            Mark::Name("Encoding"@),
            Mark::Name("Identity-H"@),
            Mark::Name("DescendantFonts"@),
            Mark::OpenList,
            Mark::Reference(descendant),
            Mark::CloseList,
            Mark::Name("ToUnicode"@),
            Mark::Reference(to_unicode),
            Mark::Close,
        ],
        Item::Catalog { pages } => seq![
            Mark::Open,
            Mark::Name("Type"@),
            Mark::Name("Catalog"@),
            Mark::Name("Pages"@),
            Mark::Reference(pages),
            Mark::Close,
        ],
        Item::Info { title } => seq![
            Mark::Open,
            Mark::Name("Title"@),
            Mark::Hexadecimal(title),
            Mark::Name("Producer"@),
            Mark::Text("open-scanline"@),
            Mark::Close,
        ],
        // Streams whose dictionary holds nothing but their length.
        Item::ToUnicode(_) | Item::GlyphMap(_) | Item::Content(_) => seq![Mark::Open, Mark::Close],
    }
}

fn put_resources(out: &mut Vec<PdfToken>, image_name: &String, image: u32, font: Option<u32>)
    ensures
        marks(final(out)@) == marks(old(out)@) + resource_marks(image_name@, image, font),
{
    let ghost before = marks(out@);
    put(out, PdfToken::Open);
    put_name(out, "XObject");
    put(out, PdfToken::Open);
    put_name(out, image_name.as_str());
    put(out, PdfToken::Reference(image));
    put(out, PdfToken::Close);
    match font {
        None => {
            put(out, PdfToken::Close);
        },
        Some(id) => {
            put_name(out, "Font");
            put(out, PdfToken::Open);
            put_name(out, "F1");
            put(out, PdfToken::Reference(id));
            put(out, PdfToken::Close);
            put_name(out, "ExtGState");
            put(out, PdfToken::Open);
            put_name(out, "GS1");
            put(out, PdfToken::Open);
            put_name(out, "Type");
            put_name(out, "ExtGState");
            put_name(out, "ca");
            put(out, PdfToken::Hundredths(1));
            put_name(out, "CA");
            put(out, PdfToken::Hundredths(1));
            put(out, PdfToken::Close);
            put(out, PdfToken::Close);
            put(out, PdfToken::Close);
        },
    }
    assert(marks(out@) =~= before + resource_marks(image_name@, image, font));
}

impl PdfObject {
    /// The dictionary of the object, given the length of the font file.
    pub fn syntax(&self, font_length: u32) -> (r: Vec<PdfToken>)
        ensures
            marks(r@) == object_marks(self@, font_length as int),
    {
        let mut out: Vec<PdfToken> = Vec::new();
        assert(marks(out@) =~= Seq::<Mark>::empty());
        match self {
            PdfObject::Pages { kids } => {
                put(&mut out, PdfToken::Open);
                put_name(&mut out, "Type");
                put_name(&mut out, "Pages");
                put_name(&mut out, "Kids");
                put(&mut out, PdfToken::OpenList);
                let ghost before = marks(out@);
                let total: usize = kids.len();
                let mut k: usize = 0;
                while k < total
                    invariant
                        k <= total,
                        total == kids@.len(),
                        marks(out@) == before + references(kids@.take(k as int)),
                    decreases total - k,
                {
                    put(&mut out, PdfToken::Reference(kids[k]));
                    k += 1;
                    assert(references(kids@.take(k as int)) =~= references(
                        kids@.take(k - 1),
                    ).push(Mark::Reference(kids@[k - 1])));
                    assert(marks(out@) =~= before + references(kids@.take(k as int)));
                }
                assert(kids@.take(k as int) =~= kids@);
                put(&mut out, PdfToken::CloseList);
                put_name(&mut out, "Count");
                put(&mut out, PdfToken::Integer(total as i64));
                put(&mut out, PdfToken::Close);
            },
            PdfObject::Image { width, height, deflated, .. } => {
                put(&mut out, PdfToken::Open);
                put_name(&mut out, "Type");
                put_name(&mut out, "XObject");
                put_name(&mut out, "Subtype");
                put_name(&mut out, "Image");
                put_name(&mut out, "Width");
                put(&mut out, PdfToken::Integer(*width as i64));
                put_name(&mut out, "Height");
                put(&mut out, PdfToken::Integer(*height as i64));
                put_name(&mut out, "ColorSpace");
                put_name(&mut out, "DeviceRGB");
                put_name(&mut out, "BitsPerComponent");
                put(&mut out, PdfToken::Integer(8));
                if *deflated {
                    put_name(&mut out, "Filter");
                    put_name(&mut out, "FlateDecode");
                }
                put(&mut out, PdfToken::Close);
            },
            PdfObject::Page { parent, width, height, image_name, image, font, contents } => {
                put(&mut out, PdfToken::Open);
                put_name(&mut out, "Type");
                put_name(&mut out, "Page");
                put_name(&mut out, "Parent");
                put(&mut out, PdfToken::Reference(*parent));
                put_name(&mut out, "MediaBox");
                put(&mut out, PdfToken::OpenList);
                put(&mut out, PdfToken::Integer(0));
                put(&mut out, PdfToken::Integer(0));
                put(&mut out, PdfToken::Length(*width));
                put(&mut out, PdfToken::Length(*height));
                put(&mut out, PdfToken::CloseList);
                put_name(&mut out, "Resources");
                put_resources(&mut out, image_name, *image, *font);
                put_name(&mut out, "Contents");
                put(&mut out, PdfToken::Reference(*contents));
                put(&mut out, PdfToken::Close);
            },
            PdfObject::FontFile => {
                put(&mut out, PdfToken::Open);
                put_name(&mut out, "Length1");
                put(&mut out, PdfToken::Integer(font_length as i64));
                put_name(&mut out, "Filter");
                put_name(&mut out, "Crypt");
                put_name(&mut out, "DecodeParms");
                put(&mut out, PdfToken::Open);
                put_name(&mut out, "Name");
                put_name(&mut out, "Identity");
                put(&mut out, PdfToken::Close);
                put(&mut out, PdfToken::Close);
            },
            PdfObject::FontDescriptor { font_file } => {
                put(&mut out, PdfToken::Open);
                put_name(&mut out, "Type");
                put_name(&mut out, "FontDescriptor");
                put_name(&mut out, "FontName");
                put_name(&mut out, "Cantarell-Regular");
                put_name(&mut out, "Flags");
                put(&mut out, PdfToken::Integer(4));
                put_name(&mut out, "FontBBox");
                put(&mut out, PdfToken::OpenList);
                put(&mut out, PdfToken::Integer(0));
                put(&mut out, PdfToken::Integer(0));
                put(&mut out, PdfToken::Integer(1000));
                put(&mut out, PdfToken::Integer(1000));
                put(&mut out, PdfToken::CloseList);
                put_name(&mut out, "ItalicAngle");
                put(&mut out, PdfToken::Integer(0));
                put_name(&mut out, "Ascent");
                put(&mut out, PdfToken::Integer(880));
                put_name(&mut out, "Descent");
                put(&mut out, PdfToken::Integer(-120));
                put_name(&mut out, "CapHeight");
                put(&mut out, PdfToken::Integer(700));
                put_name(&mut out, "StemV");
                put(&mut out, PdfToken::Integer(80));
                put_name(&mut out, "FontFile2");
                put(&mut out, PdfToken::Reference(*font_file));
                put(&mut out, PdfToken::Close);
            },
            PdfObject::CidFont { descriptor, glyph_map } => {
                put(&mut out, PdfToken::Open);
                put_name(&mut out, "Type");
                put_name(&mut out, "Font");
                put_name(&mut out, "Subtype");
                put_name(&mut out, "CIDFontType2");
                put_name(&mut out, "BaseFont");
                put_name(&mut out, "Cantarell-Regular");
                put_name(&mut out, "CIDSystemInfo");
                put(&mut out, PdfToken::Open);
                put_name(&mut out, "Registry");
                put(&mut out, PdfToken::Text("Adobe".to_owned()));
                put_name(&mut out, "Ordering");
                put(&mut out, PdfToken::Text("Identity".to_owned()));
                put_name(&mut out, "Supplement");
                put(&mut out, PdfToken::Integer(0));
                put(&mut out, PdfToken::Close);
                put_name(&mut out, "FontDescriptor");
                put(&mut out, PdfToken::Reference(*descriptor));
                put_name(&mut out, "DW");
                put(&mut out, PdfToken::Integer(1000));
                put_name(&mut out, "CIDToGIDMap");
                put(&mut out, PdfToken::Reference(*glyph_map));
                put(&mut out, PdfToken::Close);
            },
            PdfObject::Type0Font { descendant, to_unicode } => {
                put(&mut out, PdfToken::Open);
                put_name(&mut out, "Type");
                put_name(&mut out, "Font");
                put_name(&mut out, "Subtype");
                put_name(&mut out, "Type0");
                put_name(&mut out, "BaseFont");
                put_name(&mut out, "Cantarell-Regular");
                put_name(&mut out, "Encoding");
                put_name(&mut out, "Identity-H");
                put_name(&mut out, "DescendantFonts");
                put(&mut out, PdfToken::OpenList);
                put(&mut out, PdfToken::Reference(*descendant));
                put(&mut out, PdfToken::CloseList);
                put_name(&mut out, "ToUnicode");
                put(&mut out, PdfToken::Reference(*to_unicode));
                put(&mut out, PdfToken::Close);
            },
            PdfObject::Catalog { pages } => {
                put(&mut out, PdfToken::Open);
                put_name(&mut out, "Type");
                put_name(&mut out, "Catalog");
                put_name(&mut out, "Pages");
                put(&mut out, PdfToken::Reference(*pages));
                put(&mut out, PdfToken::Close);
            },
            PdfObject::Info { title } => {
                put(&mut out, PdfToken::Open);
                put_name(&mut out, "Title");
                put(&mut out, PdfToken::Hexadecimal(title.clone()));
                put_name(&mut out, "Producer");
                put(&mut out, PdfToken::Text("open-scanline".to_owned()));
                put(&mut out, PdfToken::Close);
            },
            PdfObject::ToUnicode(_) | PdfObject::GlyphMap(_) | PdfObject::Content(_) => {
                put(&mut out, PdfToken::Open);
                put(&mut out, PdfToken::Close);
            },
        }
        assert(marks(out@) =~= object_marks(self@, font_length as int));
        out
    }
}

// ---------------------------------------------------------------------------
// Content
// ---------------------------------------------------------------------------

/// The operator of an operation.
pub open spec fn operator_of(operation: Operation) -> Seq<char> {
    match operation {
        Operation::SaveState => "q"@,
        Operation::Scale { .. } => "cm"@,
        Operation::DrawImage(_) => "Do"@,
        Operation::RestoreState => "Q"@,
        Operation::BeginText => "BT"@,
        Operation::SelectFont => "Tf"@,
        Operation::SelectTransparency => "gs"@,
        Operation::FillText => "Tr"@,
        Operation::MoveToCorner => "Td"@,
        Operation::ShowText(_) => "Tj"@,
        Operation::EndText => "ET"@,
    }
}

/// The operands of an operation.
pub open spec fn operands_of(operation: Operation) -> Seq<Mark> {
    match operation {
        Operation::Scale { width, height } => seq![
            Mark::Length(width),
            Mark::Integer(0),
            Mark::Integer(0),
            Mark::Length(height),
            Mark::Integer(0),
            Mark::Integer(0),
        ],
        Operation::DrawImage(name) => seq![Mark::Name(name)],
        Operation::SelectFont => seq![Mark::Name("F1"@), Mark::Integer(10)],
        Operation::SelectTransparency => seq![Mark::Name("GS1"@)],
        Operation::FillText => seq![Mark::Integer(0)],
        Operation::MoveToCorner => seq![Mark::Integer(1), Mark::Integer(1)],
        Operation::ShowText(bytes) => seq![Mark::Hexadecimal(bytes)],
        _ => Seq::empty(),
    }
}

impl PdfOperation {
    /// The operator.
    pub fn operator(&self) -> (r: &'static str)
        ensures
            r@ == operator_of(self@),
    {
        match self {
            PdfOperation::SaveState => "q",
            PdfOperation::Scale { .. } => "cm",
            PdfOperation::DrawImage(_) => "Do",
            PdfOperation::RestoreState => "Q",
            PdfOperation::BeginText => "BT",
            PdfOperation::SelectFont => "Tf",
            PdfOperation::SelectTransparency => "gs",
            PdfOperation::FillText => "Tr",
            PdfOperation::MoveToCorner => "Td",
            PdfOperation::ShowText(_) => "Tj",
            PdfOperation::EndText => "ET",
        }
    }

    /// The operands.
    pub fn operands(&self) -> (r: Vec<PdfToken>)
        ensures
            marks(r@) == operands_of(self@),
    {
        let mut out: Vec<PdfToken> = Vec::new();
        assert(marks(out@) =~= Seq::<Mark>::empty());
        match self {
            PdfOperation::Scale { width, height } => {
                put(&mut out, PdfToken::Length(*width));
                put(&mut out, PdfToken::Integer(0));
                put(&mut out, PdfToken::Integer(0));
                put(&mut out, PdfToken::Length(*height));
                put(&mut out, PdfToken::Integer(0));
                put(&mut out, PdfToken::Integer(0));
            },
            PdfOperation::DrawImage(name) => put_name(&mut out, name.as_str()),
            PdfOperation::SelectFont => {
                put_name(&mut out, "F1");
                put(&mut out, PdfToken::Integer(10));
            },
            PdfOperation::SelectTransparency => put_name(&mut out, "GS1"),
            PdfOperation::FillText => put(&mut out, PdfToken::Integer(0)),
            PdfOperation::MoveToCorner => {
                put(&mut out, PdfToken::Integer(1));
                put(&mut out, PdfToken::Integer(1));
            },
            PdfOperation::ShowText(bytes) => put(&mut out, PdfToken::Hexadecimal(bytes.clone())),
            _ => {},
        }
        out
    }
}

// ---------------------------------------------------------------------------
// Trailer
// ---------------------------------------------------------------------------

/// The trailer of a document: catalog, metadata and the identifier, which stands twice.
pub open spec fn trailer_marks(document: Finished) -> Seq<Mark> {
    seq![
        Mark::Open,
        Mark::Name("Root"@),
        Mark::Reference(document.root),
        Mark::Name("Info"@),
        Mark::Reference(document.info),
        Mark::Name("ID"@),
        Mark::OpenList,
        Mark::Literal(document.identifier),
        Mark::Literal(document.identifier),
        Mark::CloseList,
        Mark::Close,
    ]
}

impl PdfDocument {
    /// The trailer of the document.
    pub fn trailer(&self) -> (r: Vec<PdfToken>)
        ensures
            marks(r@) == trailer_marks(self@),
    {
        let mut out: Vec<PdfToken> = Vec::new();
        assert(marks(out@) =~= Seq::<Mark>::empty());
        put(&mut out, PdfToken::Open);
        put_name(&mut out, "Root");
        put(&mut out, PdfToken::Reference(self.root));
        put_name(&mut out, "Info");
        put(&mut out, PdfToken::Reference(self.info));
        put_name(&mut out, "ID");
        put(&mut out, PdfToken::OpenList);
        put(&mut out, PdfToken::Literal(self.identifier.clone()));
        put(&mut out, PdfToken::Literal(self.identifier.clone()));
        put(&mut out, PdfToken::CloseList);
        put(&mut out, PdfToken::Close);
        out
    }
}

// ---------------------------------------------------------------------------
// References
// ---------------------------------------------------------------------------

/// Whether every reference among some tokens is to an object of a document.
pub open spec fn resolves(tokens: Seq<Mark>, objects: Seq<Item>) -> bool {
    forall|k: int|
        0 <= k < tokens.len() ==> ((#[trigger] tokens[k]) matches Mark::Reference(id) ==> exists_object(
            objects,
            id,
        ))
}

proof fn lemma_object_resolves(item: Item, font_length: int, objects: Seq<Item>)
    requires
        linked(objects, item),
    ensures
        resolves(object_marks(item, font_length), objects),
{
    match item {
        Item::Pages { kids } => {
            assert(forall|k: int|
                0 <= k < kids.len() ==> exists_object(objects, #[trigger] kids[k]));
        },
        _ => {},
    }
}

/// Every reference that is written in a finished document, in an object or in the trailer, is to an
/// object of it.
pub proof fn written_references_resolve(
    pictures: Seq<Picture>,
    options: PdfChoices,
    identifier: Seq<u8>,
    key: Seq<u8>,
    font_length: int,
    i: int,
)
    requires
        numberable(pictures.len() as int),
        draft_of(pictures, options, pictures.len() as int) is Ok,
        ({
            let draft = draft_of(pictures, options, pictures.len() as int)->Ok_0;
            0 <= i < finished(draft, options, identifier, key).objects.len()
        }),
    ensures
        ({
            let draft = draft_of(pictures, options, pictures.len() as int)->Ok_0;
            let document = finished(draft, options, identifier, key);
            &&& resolves(object_marks(document.objects[i], font_length), document.objects)
            &&& resolves(trailer_marks(document), document.objects)
        }),
{
    document_references_resolve(pictures, options, identifier, key);
    let draft = draft_of(pictures, options, pictures.len() as int)->Ok_0;
    let document = finished(draft, options, identifier, key);
    lemma_object_resolves(document.objects[i], font_length, document.objects);
}

// ---------------------------------------------------------------------------
// Entries
// ---------------------------------------------------------------------------

/// Whether a value stands behind a name among some tokens.
pub open spec fn has_entry(tokens: Seq<Mark>, name: Seq<char>, value: Mark) -> bool {
    exists|k: int|
        0 <= k < tokens.len() - 1 && #[trigger] tokens[k] == Mark::Name(name) && tokens[k + 1] == value
}

/// The dictionary of an image gives its width and its height, three colors of eight bits each, and a
/// filter exactly where the content was deflated.
#[verifier::spinoff_prover]
#[verifier::rlimit(60)]
pub proof fn image_dictionaries_tell_their_image(
    width: u32,
    height: u32,
    content: Seq<u8>,
    deflated: bool,
    font_length: int,
)
    ensures
        ({
            let tokens = object_marks(Item::Image { width, height, content, deflated }, font_length);
            &&& has_entry(tokens, "Type"@, Mark::Name("XObject"@))
            &&& has_entry(tokens, "Subtype"@, Mark::Name("Image"@))
            &&& has_entry(tokens, "Width"@, Mark::Integer(width as int))
            &&& has_entry(tokens, "Height"@, Mark::Integer(height as int))
            &&& has_entry(tokens, "ColorSpace"@, Mark::Name("DeviceRGB"@))
            &&& has_entry(tokens, "BitsPerComponent"@, Mark::Integer(8))
            &&& deflated ==> has_entry(tokens, "Filter"@, Mark::Name("FlateDecode"@))
            &&& !deflated ==> tokens.len() == 14
        }),
{
    let tokens = object_marks(Item::Image { width, height, content, deflated }, font_length);
    assert(tokens[1] == Mark::Name("Type"@) && tokens[2] == Mark::Name("XObject"@));
    assert(tokens[3] == Mark::Name("Subtype"@) && tokens[4] == Mark::Name("Image"@));
    assert(tokens[5] == Mark::Name("Width"@) && tokens[6] == Mark::Integer(width as int));
    assert(tokens[7] == Mark::Name("Height"@) && tokens[8] == Mark::Integer(height as int));
    assert(tokens[9] == Mark::Name("ColorSpace"@) && tokens[10] == Mark::Name("DeviceRGB"@));
    assert(tokens[11] == Mark::Name("BitsPerComponent"@) && tokens[12] == Mark::Integer(8));
    if deflated {
        assert(tokens[13] == Mark::Name("Filter"@) && tokens[14] == Mark::Name("FlateDecode"@));
    }
}

/// The dictionary of a page refers to its parent and its contents, gives its size as a box from the
/// origin, width before height, and names its image and, where it shows text, its font.
#[verifier::spinoff_prover]
#[verifier::rlimit(60)]
pub proof fn page_dictionaries_tell_their_page(
    parent: u32,
    width: PageLength,
    height: PageLength,
    image_name: Seq<char>,
    image: u32,
    font: Option<u32>,
    contents: u32,
    font_length: int,
)
    ensures
        ({
            let tokens = object_marks(
                Item::Page { parent, width, height, image_name, image, font, contents },
                font_length,
            );
            &&& has_entry(tokens, "Type"@, Mark::Name("Page"@))
            &&& has_entry(tokens, "Parent"@, Mark::Reference(parent))
            &&& has_entry(tokens, "Contents"@, Mark::Reference(contents))
            &&& has_entry(tokens, image_name, Mark::Reference(image))
            &&& font matches Some(id) ==> has_entry(tokens, "F1"@, Mark::Reference(id))
            &&& exists|k: int|
                0 <= k <= tokens.len() - 7 && #[trigger] tokens.subrange(k, k + 7) == seq![
                    Mark::Name("MediaBox"@),
                    Mark::OpenList,
                    Mark::Integer(0),
                    Mark::Integer(0),
                    Mark::Length(width),
                    Mark::Length(height),
                    Mark::CloseList,
                ]
        }),
{
    let tokens = object_marks(
        Item::Page { parent, width, height, image_name, image, font, contents },
        font_length,
    );
    let r = resource_marks(image_name, image, font).len() as int;
    assert(tokens[1] == Mark::Name("Type"@) && tokens[2] == Mark::Name("Page"@));
    assert(tokens[3] == Mark::Name("Parent"@) && tokens[4] == Mark::Reference(parent));
    assert(tokens[16] == Mark::Name(image_name) && tokens[17] == Mark::Reference(image));
    if let Some(id) = font {
        assert(tokens[21] == Mark::Name("F1"@) && tokens[22] == Mark::Reference(id));
    }
    assert(tokens[13 + r] == Mark::Name("Contents"@) && tokens[13 + r + 1] == Mark::Reference(
        contents,
    ));
    assert(tokens.subrange(5, 5int + 7) =~= seq![
        Mark::Name("MediaBox"@),
        Mark::OpenList,
        Mark::Integer(0),
        Mark::Integer(0),
        Mark::Length(width),
        Mark::Length(height),
        Mark::CloseList,
    ]);
}

/// The other dictionaries refer to what they are made of: the catalog to the pages, the pages to each of
/// them in order, and the fonts to their parts.
#[verifier::spinoff_prover]
#[verifier::rlimit(60)]
pub proof fn dictionaries_refer_to_their_parts(
    a: u32,
    b: u32,
    kids: Seq<u32>,
    title: Seq<u8>,
    font_length: int,
    i: int,
)
    requires
        0 <= i < kids.len() <= u32::MAX,
    ensures
        has_entry(object_marks(Item::Catalog { pages: a }, font_length), "Pages"@, Mark::Reference(a)),
        has_entry(
            object_marks(Item::Catalog { pages: a }, font_length),
            "Type"@,
            Mark::Name("Catalog"@),
        ),
        has_entry(object_marks(Item::Info { title }, font_length), "Title"@, Mark::Hexadecimal(title)),
        has_entry(
            object_marks(Item::FontDescriptor { font_file: a }, font_length),
            "FontFile2"@,
            Mark::Reference(a),
        ),
        has_entry(
            object_marks(Item::CidFont { descriptor: a, glyph_map: b }, font_length),
            "FontDescriptor"@,
            Mark::Reference(a),
        ),
        has_entry(
            object_marks(Item::CidFont { descriptor: a, glyph_map: b }, font_length),
            "CIDToGIDMap"@,
            Mark::Reference(b),
        ),
        has_entry(
            object_marks(Item::Type0Font { descendant: a, to_unicode: b }, font_length),
            "ToUnicode"@,
            Mark::Reference(b),
        ),
        has_entry(
            object_marks(Item::Type0Font { descendant: a, to_unicode: b }, font_length),
            "Encoding"@,
            Mark::Name("Identity-H"@),
        ),
        object_marks(Item::Type0Font { descendant: a, to_unicode: b }, font_length).contains(
            Mark::Reference(a),
        ),
        has_entry(
            object_marks(Item::Pages { kids }, font_length),
            "Count"@,
            Mark::Integer(kids.len() as int),
        ),
        object_marks(Item::Pages { kids }, font_length)[5 + i] == Mark::Reference(kids[i]),
{
    let catalog = object_marks(Item::Catalog { pages: a }, font_length);
    assert(catalog[1] == Mark::Name("Type"@) && catalog[2] == Mark::Name("Catalog"@));
    assert(catalog[3] == Mark::Name("Pages"@) && catalog[4] == Mark::Reference(a));
    let info = object_marks(Item::Info { title }, font_length);
    assert(info[1] == Mark::Name("Title"@) && info[2] == Mark::Hexadecimal(title));
    let descriptor = object_marks(Item::FontDescriptor { font_file: a }, font_length);
    assert(descriptor[24] == Mark::Name("FontFile2"@) && descriptor[25] == Mark::Reference(a));
    let cid = object_marks(Item::CidFont { descriptor: a, glyph_map: b }, font_length);
    assert(cid[16] == Mark::Name("FontDescriptor"@) && cid[17] == Mark::Reference(a));
    assert(cid[20] == Mark::Name("CIDToGIDMap"@) && cid[21] == Mark::Reference(b));
    let font = object_marks(Item::Type0Font { descendant: a, to_unicode: b }, font_length);
    assert(font[7] == Mark::Name("Encoding"@) && font[8] == Mark::Name("Identity-H"@));
    assert(font[11] == Mark::Reference(a));
    assert(font[13] == Mark::Name("ToUnicode"@) && font[14] == Mark::Reference(b));
    let pages = object_marks(Item::Pages { kids }, font_length);
    let n = kids.len() as int;
    assert(pages[6 + n] == Mark::Name("Count"@) && pages[6 + n + 1] == Mark::Integer(n));
}

/// An image is drawn over the whole page, between saving and restoring the state, and text is shown as the
/// bytes that encode it.
pub proof fn operators_do_what_they_say(width: PageLength, height: PageLength, name: Seq<char>, bytes: Seq<u8>)
    ensures
        operator_of(Operation::SaveState) == "q"@,
        operator_of(Operation::RestoreState) == "Q"@,
        operator_of(Operation::Scale { width, height }) == "cm"@,
        operands_of(Operation::Scale { width, height }) == seq![
            Mark::Length(width),
            Mark::Integer(0),
            Mark::Integer(0),
            Mark::Length(height),
            Mark::Integer(0),
            Mark::Integer(0),
        ],
        operator_of(Operation::DrawImage(name)) == "Do"@,
        operands_of(Operation::DrawImage(name)) == seq![Mark::Name(name)],
        operator_of(Operation::ShowText(bytes)) == "Tj"@,
        operands_of(Operation::ShowText(bytes)) == seq![Mark::Hexadecimal(bytes)],
        operator_of(Operation::BeginText) == "BT"@,
        operator_of(Operation::EndText) == "ET"@,
        operator_of(Operation::SelectFont) == "Tf"@,
        operands_of(Operation::SelectFont)[0] == Mark::Name("F1"@),
{
}

/// The trailer refers to the catalog and to the metadata of its document, and holds its identifier twice.
#[verifier::spinoff_prover]
#[verifier::rlimit(60)]
pub proof fn trailers_tell_their_document(document: Finished)
    ensures
        has_entry(trailer_marks(document), "Root"@, Mark::Reference(document.root)),
        has_entry(trailer_marks(document), "Info"@, Mark::Reference(document.info)),
        trailer_marks(document).subrange(5, 10) == seq![
            Mark::Name("ID"@),
            Mark::OpenList,
            Mark::Literal(document.identifier),
            Mark::Literal(document.identifier),
            Mark::CloseList,
        ],
{
    let t = trailer_marks(document);
    assert(t[1] == Mark::Name("Root"@) && t[2] == Mark::Reference(document.root));
    assert(t[3] == Mark::Name("Info"@) && t[4] == Mark::Reference(document.info));
    assert(t.subrange(5, 10) =~= seq![
        Mark::Name("ID"@),
        Mark::OpenList,
        Mark::Literal(document.identifier),
        Mark::Literal(document.identifier),
        Mark::CloseList,
    ]);
}

} // verus!
