//! The objects of a document: pages with their images, the searchable font, catalog and metadata.

use crate::cancellation::{
    can_poll, finished_passed_every_point, lemma_never_stopped, polls_of, uncancelled, Course,
    PollPoint, Polls,
};
use crate::error::{invalid, outcome_view, Failure, ScanError};
use crate::image::{checked_image_len, image_len, ImageBuffer, Picture};
use crate::pdf::limits::{
    check_pdf_cancellation, checked_pdf_image_stream_aggregate, image_stream_aggregate,
    options_checked, pdf_cancelled, validate_pdf_options, PdfChoices, PdfOptions,
};
use crate::pdf::searchable::{
    character_codes, cid_to_gid_map, cmap_text, decoded, encode_searchable_text, glyph_map,
    is_increasing, pdf_text, searchable_bytes, searchable_text_reads_back,
    searchable_to_unicode_cmap, table_of, too_many_characters, unicode_pdf_string,
    MAX_CHARACTER_CODES,
};
use crate::text::{decimal, push_decimal, strings};
use crate::tiff::{image_buffer_to_rgb, rgb_frame};
use vstd::prelude::*;
use vstd::string::StringExecFns;
use vstd::utf8::encode_utf8;

verus! {

// ---------------------------------------------------------------------------
// Objects
// ---------------------------------------------------------------------------

/// A page length: a number of pixels at a resolution.
#[derive(Debug, Clone, Copy, PartialEq, Eq, Structural)]
pub struct PageLength {
    pub pixels: u32,
    pub dpi: u32,
}

/// One operation of a page's content.
#[derive(Debug)]
pub enum PdfOperation {
    SaveState,
    Scale { width: PageLength, height: PageLength },
    DrawImage(String),
    RestoreState,
    BeginText,
    SelectFont,
    SelectTransparency,
    FillText,
    MoveToCorner,
    ShowText(Vec<u8>),
    EndText,
}

/// What an operation holds.
pub enum Operation {
    SaveState,
    Scale { width: PageLength, height: PageLength },
    DrawImage(Seq<char>),
    RestoreState,
    BeginText,
    SelectFont,
    SelectTransparency,
    FillText,
    MoveToCorner,
    ShowText(Seq<u8>),
    EndText,
}

impl View for PdfOperation {
    type V = Operation;

    open spec fn view(&self) -> Operation {
        match self {
            PdfOperation::SaveState => Operation::SaveState,
            PdfOperation::Scale { width, height } => Operation::Scale {
                width: *width,
                height: *height,
            },
            PdfOperation::DrawImage(name) => Operation::DrawImage(name@),
            PdfOperation::RestoreState => Operation::RestoreState,
            PdfOperation::BeginText => Operation::BeginText,
            PdfOperation::SelectFont => Operation::SelectFont,
            PdfOperation::SelectTransparency => Operation::SelectTransparency,
            PdfOperation::FillText => Operation::FillText,
            PdfOperation::MoveToCorner => Operation::MoveToCorner,
            PdfOperation::ShowText(bytes) => Operation::ShowText(bytes@),
            PdfOperation::EndText => Operation::EndText,
        }
    }
}

/// What operations hold.
pub open spec fn operations_of(v: Seq<PdfOperation>) -> Seq<Operation> {
    v.map_values(|x: PdfOperation| x@)
}

/// One object of a document. Objects refer to each other by number, counted from one.
#[derive(Debug)]
pub enum PdfObject {
    Pages { kids: Vec<u32> },
    ToUnicode(Vec<u8>),
    FontFile,
    FontDescriptor { font_file: u32 },
    GlyphMap(Vec<u8>),
    CidFont { descriptor: u32, glyph_map: u32 },
    Type0Font { descendant: u32, to_unicode: u32 },
    Image { width: u32, height: u32, content: Vec<u8>, deflated: bool },
    Content(Vec<PdfOperation>),
    Page {
        parent: u32,
        width: PageLength,
        height: PageLength,
        image_name: String,
        image: u32,
        font: Option<u32>,
        contents: u32,
    },
    Catalog { pages: u32 },
    Info { title: Vec<u8> },
}

/// What an object holds.
pub enum Item {
    Pages { kids: Seq<u32> },
    ToUnicode(Seq<u8>),
    FontFile,
    FontDescriptor { font_file: u32 },
    GlyphMap(Seq<u8>),
    CidFont { descriptor: u32, glyph_map: u32 },
    Type0Font { descendant: u32, to_unicode: u32 },
    Image { width: u32, height: u32, content: Seq<u8>, deflated: bool },
    Content(Seq<Operation>),
    Page {
        parent: u32,
        width: PageLength,
        height: PageLength,
        image_name: Seq<char>,
        image: u32,
        font: Option<u32>,
        contents: u32,
    },
    Catalog { pages: u32 },
    Info { title: Seq<u8> },
}

impl View for PdfObject {
    type V = Item;

    open spec fn view(&self) -> Item {
        match self {
            PdfObject::Pages { kids } => Item::Pages { kids: kids@ },
            PdfObject::ToUnicode(bytes) => Item::ToUnicode(bytes@),
            PdfObject::FontFile => Item::FontFile,
            PdfObject::FontDescriptor { font_file } => Item::FontDescriptor {
                font_file: *font_file,
            },
            PdfObject::GlyphMap(bytes) => Item::GlyphMap(bytes@),
            PdfObject::CidFont { descriptor, glyph_map } => Item::CidFont {
                descriptor: *descriptor,
                glyph_map: *glyph_map,
            },
            PdfObject::Type0Font { descendant, to_unicode } => Item::Type0Font {
                descendant: *descendant,
                to_unicode: *to_unicode,
            },
            PdfObject::Image { width, height, content, deflated } => Item::Image {
                width: *width,
                height: *height,
                content: content@,
                deflated: *deflated,
            },
            PdfObject::Content(operations) => Item::Content(operations_of(operations@)),
            PdfObject::Page { parent, width, height, image_name, image, font, contents } => Item::Page {
                parent: *parent,
                width: *width,
                height: *height,
                image_name: image_name@,
                image: *image,
                font: *font,
                contents: *contents,
            },
            PdfObject::Catalog { pages } => Item::Catalog { pages: *pages },
            PdfObject::Info { title } => Item::Info { title: title@ },
        }
    }
}

/// What objects hold.
pub open spec fn items_of(v: Seq<PdfObject>) -> Seq<Item> {
    v.map_values(|x: PdfObject| x@)
}

// ---------------------------------------------------------------------------
// Streams
// ---------------------------------------------------------------------------

/// What `lopdf::Stream::compress` makes of a stream without a filter: its content then, and
/// whether a filter was set; or the text of its error.
pub uninterp spec fn stream_of(content: Seq<u8>) -> Result<(Seq<u8>, bool), Seq<char>>;

/// `lopdf::Stream::compress` on a new stream with the given content. The result is a function of
/// the content alone. Where it sets no filter the content is left as it is; where it sets one the
/// new content is shorter by more than nineteen bytes. What the new content inflates to is not
/// stated here.
#[verifier::external_body]
fn compressed_stream(content: Vec<u8>) -> (r: Result<(Vec<u8>, bool), String>)
    ensures
        match r {
            Ok(stream) => stream_of(content@) == Ok::<(Seq<u8>, bool), Seq<char>>(
                (stream.0@, stream.1),
            ),
            Err(text) => stream_of(content@) == Err::<(Seq<u8>, bool), Seq<char>>(text@),
        },
        r matches Ok(stream) ==> (if stream.1 {
            stream.0@.len() + 19 < content@.len()
        } else {
            stream.0@ == content@
        }),
{
    let mut stream = lopdf::Stream::new(lopdf::Dictionary::new(), content);
    match stream.compress() {
        Ok(()) => {
            let deflated = stream.dict.has(b"Filter");
            Ok((stream.content, deflated))
        },
        Err(error) => Err(error.to_string()),
    }
}

// ---------------------------------------------------------------------------
// Drafts
// ---------------------------------------------------------------------------

/// A document under construction.
#[derive(Debug)]
pub struct PdfDraft {
    pub objects: Vec<PdfObject>,
    pub page_ids: Vec<u32>,
    pub retained_image_stream_bytes: usize,
    pub table: Option<Vec<char>>,
    pub font: Option<u32>,
    pub dpi: u32,
}

/// What a document under construction holds.
pub struct Draft {
    pub objects: Seq<Item>,
    pub page_ids: Seq<u32>,
    pub retained: int,
    pub table: Option<Seq<char>>,
    pub font: Option<u32>,
    pub dpi: u32,
}

impl View for PdfDraft {
    type V = Draft;

    open spec fn view(&self) -> Draft {
        Draft {
            objects: items_of(self.objects@),
            page_ids: self.page_ids@,
            retained: self.retained_image_stream_bytes as int,
            table: match self.table {
                Some(table) => Some(table@),
                None => None,
            },
            font: self.font,
            dpi: self.dpi,
        }
    }
}

impl Draft {
    /// Text is encoded by an ordered table of characters that two bytes can number.
    pub open spec fn wf(self) -> bool {
        self.table matches Some(table) ==> is_increasing(table) && table.len()
            <= MAX_CHARACTER_CODES
    }

    /// Another page, and what closes the document, can still be numbered.
    pub open spec fn has_room(self) -> bool {
        self.objects.len() + 5 <= u32::MAX
    }
}

/// The resolution of a document: at least one pixel an inch.
pub open spec fn document_dpi(dpi: u32) -> u32 {
    if dpi < 1 {
        1
    } else {
        dpi
    }
}

/// The objects of the searchable font, the first of which has the number after `before`.
pub open spec fn font_objects(before: int, table: Seq<char>) -> Seq<Item> {
    seq![
        Item::ToUnicode(encode_utf8(cmap_text(table))),
        Item::FontFile,
        Item::FontDescriptor { font_file: (before + 2) as u32 },
        Item::GlyphMap(glyph_map(table.len())),
        Item::CidFont { descriptor: (before + 3) as u32, glyph_map: (before + 4) as u32 },
        Item::Type0Font { descendant: (before + 5) as u32, to_unicode: (before + 1) as u32 },
    ]
}

/// A document without pages: the list of pages, and the searchable font where there is text.
pub open spec fn new_draft(options: PdfChoices) -> Result<Draft, Failure> {
    let pages = seq![Item::Pages { kids: Seq::<u32>::empty() }];
    match options.searchable_pages {
        None => Ok(
            Draft {
                objects: pages,
                page_ids: Seq::empty(),
                retained: 0,
                table: None,
                font: None,
                dpi: document_dpi(options.dpi),
            },
        ),
        Some(texts) => if table_of(texts).len() > MAX_CHARACTER_CODES {
            Err(too_many_characters())
        } else {
            Ok(
                Draft {
                    objects: pages + font_objects(1, table_of(texts)),
                    page_ids: Seq::empty(),
                    retained: 0,
                    table: Some(table_of(texts)),
                    font: Some(7),
                    dpi: document_dpi(options.dpi),
                },
            )
        },
    }
}

/// Adds the objects of the searchable font, and gives the number of the font.
pub fn add_searchable_font(objects: &mut Vec<PdfObject>, table: &Vec<char>) -> (r: u32)
    requires
        old(objects)@.len() + 6 <= u32::MAX,
        table@.len() <= MAX_CHARACTER_CODES,
    ensures
        items_of(final(objects)@) == items_of(old(objects)@) + font_objects(
            old(objects)@.len() as int,
            table@,
        ),
        r == old(objects)@.len() + 6,
{
    let ghost before = items_of(objects@);
    let first: u32 = objects.len() as u32;
    objects.push(PdfObject::ToUnicode(searchable_to_unicode_cmap(table)));
    objects.push(PdfObject::FontFile);
    objects.push(PdfObject::FontDescriptor { font_file: first + 2 });
    objects.push(PdfObject::GlyphMap(cid_to_gid_map(table.len())));
    objects.push(PdfObject::CidFont { descriptor: first + 3, glyph_map: first + 4 });
    objects.push(PdfObject::Type0Font { descendant: first + 5, to_unicode: first + 1 });
    assert(items_of(objects@) =~= before + font_objects(first as int, table@));
    first + 6
}

/// Starts a document.
pub fn create_pdf_document(options: &PdfOptions) -> (r: Result<PdfDraft, ScanError>)
    ensures
        outcome_view(r) == new_draft(options@),
        r is Ok ==> r->Ok_0@.wf(),
{
    let dpi: u32 = if options.dpi < 1 {
        1
    } else {
        options.dpi
    };
    let kids: Vec<u32> = Vec::new();
    let mut objects: Vec<PdfObject> = Vec::new();
    objects.push(PdfObject::Pages { kids });
    assert(items_of(objects@) =~= seq![Item::Pages { kids: Seq::<u32>::empty() }]);
    let page_ids: Vec<u32> = Vec::new();
    match &options.searchable_pages {
        None => Ok(
            PdfDraft {
                objects,
                page_ids,
                retained_image_stream_bytes: 0,
                table: None,
                font: None,
                dpi,
            },
        ),
        Some(texts) => {
            let table = match character_codes(texts) {
                Ok(table) => table,
                Err(error) => {
                    return Err(error);
                },
            };
            let font = add_searchable_font(&mut objects, &table);
            Ok(
                PdfDraft {
                    objects,
                    page_ids,
                    retained_image_stream_bytes: 0,
                    table: Some(table),
                    font: Some(font),
                    dpi,
                },
            )
        },
    }
}

// ---------------------------------------------------------------------------
// Pages
// ---------------------------------------------------------------------------

/// The name of the image of a page.
pub open spec fn image_name(index: int) -> Seq<char> {
    "Im"@ + decimal(index as nat)
}

/// What draws the image over the whole page.
pub open spec fn image_operations(
    name: Seq<char>,
    width: PageLength,
    height: PageLength,
) -> Seq<Operation> {
    seq![
        Operation::SaveState,
        Operation::Scale { width, height },
        Operation::DrawImage(name),
        Operation::RestoreState,
    ]
}

/// What lays encoded text over the page, all but invisibly.
pub open spec fn text_operations(bytes: Seq<u8>) -> Seq<Operation> {
    seq![
        Operation::BeginText,
        Operation::SelectFont,
        Operation::SelectTransparency,
        Operation::FillText,
        Operation::MoveToCorner,
        Operation::ShowText(bytes),
        Operation::EndText,
    ]
}

/// The content of a page.
pub open spec fn page_content(
    name: Seq<char>,
    width: PageLength,
    height: PageLength,
    text: Option<Seq<char>>,
    table: Option<Seq<char>>,
) -> Result<Seq<Operation>, Failure> {
    match text {
        None => Ok(image_operations(name, width, height)),
        Some(text) => match table {
            None => Err(
                Failure::Other("searchable PDF text was supplied without a Type0 font"@),
            ),
            Some(table) => match searchable_bytes(text, table) {
                Err(failure) => Err(failure),
                Ok(bytes) => Ok(image_operations(name, width, height) + text_operations(bytes)),
            },
        },
    }
}

/// The text of an optional text.
pub open spec fn text_view(o: Option<&str>) -> Option<Seq<char>> {
    match o {
        Some(text) => Some(text@),
        None => None,
    }
}

/// The content of a page.
pub fn page_operations(
    name: &str,
    width: PageLength,
    height: PageLength,
    searchable_text: Option<&str>,
    table: &Option<Vec<char>>,
) -> (r: Result<Vec<PdfOperation>, ScanError>)
    requires
        table matches Some(codes) ==> is_increasing(codes@) && codes@.len() <= MAX_CHARACTER_CODES,
    ensures
        match page_content(
            name@,
            width,
            height,
            text_view(searchable_text),
            match table {
                Some(codes) => Some(codes@),
                None => None,
            },
        ) {
            Ok(operations) => r is Ok && operations_of(r->Ok_0@) == operations,
            Err(failure) => r is Err && r->Err_0@ == failure,
        },
{
    let mut operations: Vec<PdfOperation> = Vec::new();
    operations.push(PdfOperation::SaveState);
    operations.push(PdfOperation::Scale { width, height });
    operations.push(PdfOperation::DrawImage(name.to_owned()));
    operations.push(PdfOperation::RestoreState);
    assert(operations_of(operations@) =~= image_operations(name@, width, height));
    match searchable_text {
        None => Ok(operations),
        Some(text) => match table {
            None => Err(
                ScanError::Other(
                    "searchable PDF text was supplied without a Type0 font".to_owned(),
                ),
            ),
            Some(codes) => {
                let bytes = match encode_searchable_text(text, codes) {
                    Ok(bytes) => bytes,
                    Err(error) => {
                        return Err(error);
                    },
                };
                let ghost shown = bytes@;
                operations.push(PdfOperation::BeginText);
                operations.push(PdfOperation::SelectFont);
                operations.push(PdfOperation::SelectTransparency);
                operations.push(PdfOperation::FillText);
                operations.push(PdfOperation::MoveToCorner);
                operations.push(PdfOperation::ShowText(bytes));
                operations.push(PdfOperation::EndText);
                assert(operations_of(operations@) =~= image_operations(name@, width, height)
                    + text_operations(shown));
                Ok(operations)
            },
        },
    }
}

/// The three objects of a page: its image, its content and the page itself.
pub open spec fn page_objects(
    draft: Draft,
    width: u32,
    height: u32,
    stream: (Seq<u8>, bool),
    content: Seq<Operation>,
) -> Seq<Item> {
    let before = draft.objects.len() as int;
    seq![
        Item::Image { width, height, content: stream.0, deflated: stream.1 },
        Item::Content(content),
        Item::Page {
            parent: 1,
            width: PageLength { pixels: width, dpi: draft.dpi },
            height: PageLength { pixels: height, dpi: draft.dpi },
            image_name: image_name(draft.page_ids.len() as int),
            image: (before + 1) as u32,
            font: draft.font,
            contents: (before + 2) as u32,
        },
    ]
}

/// The document with one more page, given what compression made of the pixels.
pub open spec fn with_stream(
    draft: Draft,
    width: u32,
    height: u32,
    stream: Result<(Seq<u8>, bool), Seq<char>>,
    text: Option<Seq<char>>,
) -> Result<Draft, Failure> {
    match stream {
        Err(error) => Err(Failure::Image("PDF image compression failed: "@ + error)),
        Ok(stream) => match image_stream_aggregate(draft.retained, stream.0.len() as int) {
            Err(failure) => Err(failure),
            Ok(retained) => match page_content(
                image_name(draft.page_ids.len() as int),
                PageLength { pixels: width, dpi: draft.dpi },
                PageLength { pixels: height, dpi: draft.dpi },
                text,
                draft.table,
            ) {
                Err(failure) => Err(failure),
                Ok(content) => Ok(
                    Draft {
                        objects: draft.objects + page_objects(
                            draft,
                            width,
                            height,
                            stream,
                            content,
                        ),
                        page_ids: draft.page_ids.push((draft.objects.len() + 3) as u32),
                        retained,
                        ..draft
                    },
                ),
            },
        },
    }
}

/// The document with one more page.
pub open spec fn with_image(draft: Draft, image: Picture, text: Option<Seq<char>>) -> Result<
    Draft,
    Failure,
> {
    match image_len(image.width as int, image.height as int, 3) {
        Err(failure) => Err(failure),
        Ok(_) => with_stream(
            draft,
            image.width,
            image.height,
            stream_of(rgb_frame(image).data),
            text,
        ),
    }
}

impl PdfDraft {
    /// Adds one page, given what compression made of its pixels.
    pub fn add_compressed_page(
        &mut self,
        width: u32,
        height: u32,
        stream: Result<(Vec<u8>, bool), String>,
        searchable_text: Option<&str>,
    ) -> (r: Result<u32, ScanError>)
        requires
            old(self)@.wf(),
            old(self)@.has_room(),
        ensures
            match with_stream(
                old(self)@,
                width,
                height,
                match stream {
                    Ok(parts) => Ok((parts.0@, parts.1)),
                    Err(text) => Err(text@),
                },
                text_view(searchable_text),
            ) {
                Ok(draft) => r is Ok && final(self)@ == draft && draft.page_ids.last() == r->Ok_0,
                Err(failure) => r is Err && r->Err_0@ == failure,
            },
            final(self)@.wf(),
    {
        let ghost before = self@;
        let (content, deflated) = match stream {
            Ok(parts) => parts,
            Err(text) => {
                let mut message = "PDF image compression failed: ".to_owned();
                message.append(text.as_str());
                return Err(ScanError::Image(message));
            },
        };
        let retained = match checked_pdf_image_stream_aggregate(
            self.retained_image_stream_bytes,
            content.len(),
        ) {
            Ok(retained) => retained,
            Err(error) => {
                return Err(error);
            },
        };
        let mut name = "Im".to_owned();
        push_decimal(&mut name, self.page_ids.len() as u64);
        let page_width = PageLength { pixels: width, dpi: self.dpi };
        let page_height = PageLength { pixels: height, dpi: self.dpi };
        let operations = match page_operations(
            name.as_str(),
            page_width,
            page_height,
            searchable_text,
            &self.table,
        ) {
            Ok(operations) => operations,
            Err(error) => {
                return Err(error);
            },
        };
        let first: u32 = self.objects.len() as u32;
        let ghost stream_view = (content@, deflated);
        let ghost shown = operations_of(operations@);
        self.objects.push(PdfObject::Image { width, height, content, deflated });
        self.objects.push(PdfObject::Content(operations));
        self.objects.push(
            PdfObject::Page {
                parent: 1,
                width: page_width,
                height: page_height,
                image_name: name,
                image: first + 1,
                font: self.font,
                contents: first + 2,
            },
        );
        self.page_ids.push(first + 3);
        self.retained_image_stream_bytes = retained;
        assert(self@.objects =~= before.objects + page_objects(
            before,
            width,
            height,
            stream_view,
            shown,
        ));
        Ok(first + 3)
    }

    /// Adds a page with an image.
    pub fn add_page(&mut self, image: &ImageBuffer, searchable_text: Option<&str>) -> (r: Result<
        u32,
        ScanError,
    >)
        requires
            image@.wf(),
            old(self)@.wf(),
            old(self)@.has_room(),
        ensures
            match with_image(old(self)@, image@, text_view(searchable_text)) {
                Ok(draft) => r is Ok && final(self)@ == draft && draft.page_ids.last() == r->Ok_0,
                Err(failure) => r is Err && r->Err_0@ == failure,
            },
            final(self)@.wf(),
    {
        match checked_image_len(image.width, image.height, 3) {
            Ok(_) => {},
            Err(error) => {
                return Err(error);
            },
        }
        let frame = image_buffer_to_rgb(image);
        let stream = compressed_stream(frame.data);
        self.add_compressed_page(image.width, image.height, stream, searchable_text)
    }
}

// ---------------------------------------------------------------------------
// Closing a document
// ---------------------------------------------------------------------------

/// What `getrandom::fill` gives: as many bytes as were asked for, or the text of its error. Which
/// bytes they are depends on the system's source of randomness, so nothing is said of them.
#[verifier::external_body]
fn system_random(len: usize) -> (r: Result<Vec<u8>, String>)
    ensures
        r matches Ok(bytes) ==> bytes@.len() == len,
{
    let mut bytes = vec![0u8; len];
    match getrandom::fill(&mut bytes) {
        Ok(()) => Ok(bytes),
        Err(error) => Err(error.to_string()),
    }
}

/// The error of a source of randomness that failed.
pub open spec fn no_randomness(purpose: Seq<char>, text: Seq<char>) -> Failure {
    Failure::Other("could not generate secure "@ + purpose + ": "@ + text)
}

/// Names the purpose for which randomness was asked where there was none.
pub fn accept_random_bytes(purpose: &str, random: Result<Vec<u8>, String>) -> (r: Result<
    Vec<u8>,
    ScanError,
>)
    ensures
        match random {
            Ok(bytes) => r is Ok && r->Ok_0@ == bytes@,
            Err(text) => r is Err && r->Err_0@ == no_randomness(purpose@, text@),
        },
{
    match random {
        Ok(bytes) => Ok(bytes),
        Err(text) => {
            let mut message = "could not generate secure ".to_owned();
            message.append(purpose);
            message.append(": ");
            message.append(text.as_str());
            Err(ScanError::Other(message))
        },
    }
}

/// Random bytes of the system for a purpose.
pub fn random_bytes(purpose: &str, len: usize) -> (r: Result<Vec<u8>, ScanError>)
    ensures
        match r {
            Ok(bytes) => bytes@.len() == len,
            Err(error) => exists|text: Seq<char>| error@ == #[trigger] no_randomness(purpose@, text),
        },
{
    let random = system_random(len);
    accept_random_bytes(purpose, random)
}

/// How a document is encrypted: by AES-256 with one password for owner and user.
#[derive(Debug)]
pub struct PdfEncryption {
    pub password: String,
    pub key: Vec<u8>,
}

/// A finished document.
#[derive(Debug)]
pub struct PdfDocument {
    pub version: String,
    pub objects: Vec<PdfObject>,
    pub root: u32,
    pub info: u32,
    pub identifier: Vec<u8>,
    pub encryption: Option<PdfEncryption>,
}

/// What a finished document holds.
pub struct Finished {
    pub version: Seq<char>,
    pub objects: Seq<Item>,
    pub root: u32,
    pub info: u32,
    pub identifier: Seq<u8>,
    pub encryption: Option<(Seq<char>, Seq<u8>)>,
}

impl View for PdfDocument {
    type V = Finished;

    open spec fn view(&self) -> Finished {
        Finished {
            version: self.version@,
            objects: items_of(self.objects@),
            root: self.root,
            info: self.info,
            identifier: self.identifier@,
            encryption: match self.encryption {
                Some(encryption) => Some((encryption.password@, encryption.key@)),
                None => None,
            },
        }
    }
}

/// The PDF version: encryption by AES-256 came with the later one.
pub open spec fn pdf_version(options: PdfChoices) -> Seq<char> {
    if options.password is Some {
        "2.0"@
    } else {
        "1.5"@
    }
}

/// The objects of a finished document: the list of pages is filled in, and catalog and metadata
/// follow.
pub open spec fn closed_objects(draft: Draft, title: Seq<char>) -> Seq<Item> {
    draft.objects.update(0, Item::Pages { kids: draft.page_ids }) + seq![
        Item::Catalog { pages: 1 },
        Item::Info { title: pdf_text(title) },
    ]
}

/// A finished document, given its identifier and, where a password is set, its key.
pub open spec fn finished(
    draft: Draft,
    options: PdfChoices,
    identifier: Seq<u8>,
    key: Seq<u8>,
) -> Finished {
    Finished {
        version: pdf_version(options),
        objects: closed_objects(draft, options.title),
        root: (draft.objects.len() + 1) as u32,
        info: (draft.objects.len() + 2) as u32,
        identifier,
        encryption: match options.password {
            Some(password) => Some((password, key)),
            None => None,
        },
    }
}

/// Fills in the list of pages, and adds catalog, metadata and identifier.
pub fn configure_pdf_document(
    draft: PdfDraft,
    options: &PdfOptions,
    identifier: Result<Vec<u8>, String>,
) -> (r: Result<PdfDocument, ScanError>)
    requires
        draft@.objects.len() >= 1,
        draft@.objects.len() + 2 <= u32::MAX,
    ensures
        match identifier {
            Err(text) => r is Err && r->Err_0@ == no_randomness("PDF document identifier"@, text@),
            Ok(bytes) => r is Ok && r->Ok_0@ == (Finished {
                encryption: None,
                ..finished(draft@, options@, bytes@, Seq::empty())
            }),
        },
{
    let ghost before = draft@;
    let mut objects = draft.objects;
    objects.set(0, PdfObject::Pages { kids: draft.page_ids });
    assert(items_of(objects@) =~= before.objects.update(0, Item::Pages { kids: before.page_ids }));
    let count: u32 = objects.len() as u32;
    objects.push(PdfObject::Catalog { pages: 1 });
    objects.push(PdfObject::Info { title: unicode_pdf_string(options.title.as_str()) });
    assert(items_of(objects@) =~= closed_objects(before, options@.title));
    let identifier = match accept_random_bytes("PDF document identifier", identifier) {
        Ok(bytes) => bytes,
        Err(error) => {
            return Err(error);
        },
    };
    let version = if options.password.is_some() {
        "2.0".to_owned()
    } else {
        "1.5".to_owned()
    };
    Ok(
        PdfDocument {
            version,
            objects,
            root: count + 1,
            info: count + 2,
            identifier,
            encryption: None,
        },
    )
}

/// Sets the encryption that the options ask for, given a random key.
pub fn encrypt_pdf_document(
    document: PdfDocument,
    options: &PdfOptions,
    key: Result<Vec<u8>, String>,
) -> (r: Result<PdfDocument, ScanError>)
    requires
        document@.encryption is None,
    ensures
        match options@.password {
            None => r is Ok && r->Ok_0@ == document@,
            Some(password) => match key {
                Err(text) => r is Err && r->Err_0@ == no_randomness(
                    "PDF AES-256 encryption key"@,
                    text@,
                ),
                Ok(bytes) => r is Ok && r->Ok_0@ == (Finished {
                    encryption: Some((password, bytes@)),
                    ..document@
                }),
            },
        },
{
    match &options.password {
        None => Ok(document),
        Some(password) => {
            let key = match accept_random_bytes("PDF AES-256 encryption key", key) {
                Ok(bytes) => bytes,
                Err(error) => {
                    return Err(error);
                },
            };
            let mut document = document;
            document.encryption = Some(PdfEncryption { password: password.clone(), key });
            Ok(document)
        },
    }
}

/// Whether a result closes a draft: the finished document with some identifier of sixteen bytes
/// and some key of thirty-two, or the error of a source of randomness that failed.
pub open spec fn closes(
    r: Result<PdfDocument, ScanError>,
    draft: Draft,
    options: PdfChoices,
) -> bool {
    match r {
        Ok(document) => exists|identifier: Seq<u8>, key: Seq<u8>|
            identifier.len() == 16 && key.len() == 32 && document@ == #[trigger] finished(
                draft,
                options,
                identifier,
                key,
            ),
        Err(error) => {
            ||| exists|text: Seq<char>|
                error@ == #[trigger] no_randomness("PDF document identifier"@, text)
            ||| options.password is Some && exists|text: Seq<char>|
                error@ == #[trigger] no_randomness("PDF AES-256 encryption key"@, text)
        },
    }
}

/// Finishes a document with a random identifier and, where a password is set, a random key.
pub fn finish_pdf_document(draft: PdfDraft, options: &PdfOptions) -> (r: Result<
    PdfDocument,
    ScanError,
>)
    requires
        draft@.objects.len() >= 1,
        draft@.objects.len() + 2 <= u32::MAX,
    ensures
        closes(r, draft@, options@),
{
    let identifier = system_random(16);
    let ghost first = identifier;
    let ghost before = draft@;
    let document = match configure_pdf_document(draft, options, identifier) {
        Ok(document) => document,
        Err(error) => {
            return Err(error);
        },
    };
    if options.password.is_none() {
        proof {
            let key = Seq::new(32, |i: int| 0u8);
            assert(document@ == finished(before, options@, first->Ok_0@, key));
        }
        return Ok(document);
    }
    let key = system_random(32);
    let ghost second = key;
    let r = encrypt_pdf_document(document, options, key);
    proof {
        if second is Ok {
            assert(r->Ok_0@ == finished(before, options@, first->Ok_0@, second->Ok_0@));
        }
    }
    r
}

// ---------------------------------------------------------------------------
// Whole documents
// ---------------------------------------------------------------------------

/// The searchable text of a page.
pub open spec fn page_text(options: PdfChoices, i: int) -> Option<Seq<char>> {
    match options.searchable_pages {
        Some(pages) => Some(pages[i]),
        None => None,
    }
}

/// The document with the first `n` pages.
pub open spec fn draft_of(pictures: Seq<Picture>, options: PdfChoices, n: int) -> Result<
    Draft,
    Failure,
>
    decreases n,
{
    if n <= 0 {
        new_draft(options)
    } else {
        match draft_of(pictures, options, n - 1) {
            Err(failure) => Err(failure),
            Ok(draft) => with_image(draft, pictures[n - 1], page_text(options, n - 1)),
        }
    }
}

/// The objects of a document are one list of pages, six for the font, and three for each page.
pub proof fn lemma_draft_len(pictures: Seq<Picture>, options: PdfChoices, n: int)
    requires
        0 <= n,
        draft_of(pictures, options, n) is Ok,
    ensures
        ({
            let draft = draft_of(pictures, options, n)->Ok_0;
            &&& draft.page_ids.len() == n
            &&& 1 + 3 * n <= draft.objects.len() <= 7 + 3 * n
            &&& draft.objects[0] == (Item::Pages { kids: Seq::<u32>::empty() })
        }),
    decreases n,
{
    if n > 0 {
        lemma_draft_len(pictures, options, n - 1);
    }
}

/// A document that failed on its first pages has failed.
proof fn lemma_draft_failed(pictures: Seq<Picture>, options: PdfChoices, k: int, n: int)
    requires
        k <= n,
        draft_of(pictures, options, k) is Err,
    ensures
        draft_of(pictures, options, n) == draft_of(pictures, options, k),
    decreases n - k,
{
    if k < n {
        if n <= 0 {
        } else {
            lemma_draft_failed(pictures, options, k, n - 1);
        }
    }
}

/// The first pages of a document depend on those pages alone.
proof fn lemma_same_draft(a: Seq<Picture>, b: Seq<Picture>, options: PdfChoices, n: int)
    requires
        forall|i: int| 0 <= i < n ==> a[i] == b[i],
    ensures
        draft_of(a, options, n) == draft_of(b, options, n),
    decreases n,
{
    if n > 0 {
        lemma_same_draft(a, b, options, n - 1);
    }
}

/// The images of a document.
pub open spec fn pictures_of(images: Seq<ImageBuffer>) -> Seq<Picture> {
    images.map_values(|x: ImageBuffer| x@)
}

/// As many pages as objects can be numbered for.
pub open spec fn numberable(pages: int) -> bool {
    7 + 3 * pages + 2 <= u32::MAX
}

/// The searchable text of a page.
fn text_of_page(options: &PdfOptions, i: usize) -> (r: Option<&str>)
    requires
        options@.searchable_pages matches Some(pages) ==> i < pages.len(),
    ensures
        text_view(r) == page_text(options@, i as int),
{
    match &options.searchable_pages {
        None => None,
        Some(pages) => {
            assert(strings(pages@)[i as int] == pages@[i as int]@);
            Some(pages[i].as_str())
        },
    }
}

/// Builds one page per image with metadata and encryption.
pub fn save_pdf_with_options(images: &Vec<ImageBuffer>, options: &PdfOptions) -> (r: Result<
    PdfDocument,
    ScanError,
>)
    requires
        forall|i: int| 0 <= i < images@.len() ==> (#[trigger] images@[i])@.wf(),
        numberable(images@.len() as int),
    ensures
        published(r, pictures_of(images@), options@, uncancelled()),
{
    let never = |_point: PollPoint| -> (stop: bool)
        ensures
            !stop,
        { false };
    let r = save_pdf_with_options_and_cancellation(images, options, never);
    proof {
        lemma_published_uncancelled(r, pictures_of(images@), options@, never);
    }
    r
}

/// Whether the document of some images failed at what is made behind a point that was passed: at the
/// font of the whole document, or at a page.
pub open spec fn fails_at(
    pictures: Seq<Picture>,
    options: PdfChoices,
    polls: Polls,
    course: Course,
    at: PollPoint,
) -> bool {
    let k = at.pages_before(course);
    &&& at.belongs(course)
    &&& polls.passed(at, course)
    &&& if at is Begin {
        draft_of(pictures, options, 0) is Err
    } else {
        draft_of(pictures, options, k) is Ok && draft_of(pictures, options, k + 1) is Err
    }
}

/// What publication of images gives: the error of an empty document or of options that do not fit,
/// the error of the first page that fails, behind the polls before it, that of cancellation, at the
/// first poll that stopped it and with no failure before, or a closed document where every poll let
/// it go on.
pub open spec fn published(
    r: Result<PdfDocument, ScanError>,
    pictures: Seq<Picture>,
    options: PdfChoices,
    polls: Polls,
) -> bool {
    let n = pictures.len() as int;
    let course = Course { pages: n, stored: false };
    if n == 0 {
        r is Err && r->Err_0@ == Failure::Invalid("save_pdf requires at least one page"@)
    } else {
        match options_checked(n, options) {
            Err(failure) => r is Err && r->Err_0@ == failure,
            Ok(_) => {
                ||| {
                    &&& r is Err
                    &&& r->Err_0@ == pdf_cancelled()
                    &&& exists|at: PollPoint| #[trigger]
                        polls.stopped(at, course) && (at !is Begin ==> draft_of(
                            pictures,
                            options,
                            at.pages_before(course),
                        ) is Ok)
                }
                ||| match draft_of(pictures, options, n) {
                    Err(failure) => {
                        &&& r is Err
                        &&& r->Err_0@ == failure
                        &&& exists|at: PollPoint| #[trigger]
                            fails_at(pictures, options, polls, course, at)
                    },
                    Ok(draft) => polls.finished(course) && closes(r, draft, options),
                }
            },
        }
    }
}

/// Publication under a poll that never stops it is publication that nobody can cancel.
pub proof fn lemma_published_uncancelled<C: Fn(PollPoint) -> bool>(
    r: Result<PdfDocument, ScanError>,
    pictures: Seq<Picture>,
    options: PdfChoices,
    never: C,
)
    requires
        published(r, pictures, options, polls_of(never)),
        forall|point: PollPoint, stop: bool| #[trigger]
            call_ensures(never, (point,), stop) ==> !stop,
    ensures
        published(r, pictures, options, uncancelled()),
{
    lemma_never_stopped(never);
    let course = Course { pages: pictures.len() as int, stored: false };
    if exists|at: PollPoint| #[trigger]
        fails_at(pictures, options, polls_of(never), course, at) {
        let at = choose|at: PollPoint| #[trigger]
            fails_at(pictures, options, polls_of(never), course, at);
        assert(fails_at(pictures, options, uncancelled(), course, at));
    }
}

/// Builds a document, polling for cancellation before it is begun, before every page and before it
/// is closed.
pub fn save_pdf_with_options_and_cancellation<C: Fn(PollPoint) -> bool>(
    images: &Vec<ImageBuffer>,
    options: &PdfOptions,
    poll: C,
) -> (r: Result<PdfDocument, ScanError>)
    requires
        forall|i: int| 0 <= i < images@.len() ==> (#[trigger] images@[i])@.wf(),
        numberable(images@.len() as int),
        can_poll(poll),
    ensures
        published(r, pictures_of(images@), options@, polls_of(poll)),
{
    let ghost pictures = pictures_of(images@);
    let total: usize = images.len();
    let ghost polls = polls_of(poll);
    let ghost course = Course { pages: total as int, stored: false };
    if total == 0 {
        return Err(invalid("save_pdf requires at least one page"));
    }
    match validate_pdf_options(total, options) {
        Ok(()) => {},
        Err(error) => {
            return Err(error);
        },
    }
    match check_pdf_cancellation(poll(PollPoint::Begin)) {
        Ok(()) => {},
        Err(error) => {
            assert(polls.stopped(PollPoint::Begin, course));
            return Err(error);
        },
    }
    let mut draft = match create_pdf_document(options) {
        Ok(draft) => draft,
        Err(error) => {
            proof {
                lemma_draft_failed(pictures, options@, 0, total as int);
                assert(fails_at(pictures, options@, polls, course, PollPoint::Begin));
            }
            return Err(error);
        },
    };
    let mut i: usize = 0;
    while i < total
        invariant
            i <= total,
            total == images@.len(),
            pictures == pictures_of(images@),
            numberable(total as int),
            options@.searchable_pages matches Some(pages) ==> pages.len() == total,
            forall|j: int| 0 <= j < images@.len() ==> (#[trigger] images@[j])@.wf(),
            draft@.wf(),
            draft_of(pictures, options@, i as int) == Ok::<Draft, Failure>(draft@),
            options_checked(total as int, options@) is Ok,
            can_poll(poll),
            polls == polls_of(poll),
            course == (Course { pages: total as int, stored: false }),
            polls.reached(PollPoint::Page(i), course),
        decreases total - i,
    {
        match check_pdf_cancellation(poll(PollPoint::Page(i))) {
            Ok(()) => {},
            Err(error) => {
                assert(polls.stopped(PollPoint::Page(i), course));
                return Err(error);
            },
        }
        proof {
            lemma_draft_len(pictures, options@, i as int);
            assert(pictures[i as int] == images@[i as int]@);
        }
        match draft.add_page(&images[i], text_of_page(options, i)) {
            Ok(_) => {},
            Err(error) => {
                proof {
                    lemma_draft_failed(pictures, options@, i + 1, total as int);
                    assert(fails_at(pictures, options@, polls, course, PollPoint::Page(i)));
                }
                return Err(error);
            },
        }
        i += 1;
    }
    match check_pdf_cancellation(poll(PollPoint::End)) {
        Ok(()) => {},
        Err(error) => {
            assert(polls.stopped(PollPoint::End, course));
            return Err(error);
        },
    }
    proof {
        lemma_draft_len(pictures, options@, total as int);
    }
    finish_pdf_document(draft, options)
}

// ---------------------------------------------------------------------------
// Documents from stored pages
// ---------------------------------------------------------------------------

/// One of the images that page `i` can be loaded as.
pub open spec fn loads<L: Fn(usize) -> Result<ImageBuffer, ScanError>>(
    load: L,
    i: int,
    picture: Picture,
) -> bool {
    exists|image: ImageBuffer| #[trigger]
        call_ensures(load, (i as usize,), Ok::<ImageBuffer, ScanError>(image)) && image@ == picture
}

/// One of the images that page `i` can be loaded as and transformed to.
pub open spec fn makes<
    L: Fn(usize) -> Result<ImageBuffer, ScanError>,
    T: Fn(&ImageBuffer) -> Result<ImageBuffer, ScanError>,
>(load: L, transform: T, i: int, picture: Picture) -> bool {
    exists|image: ImageBuffer, out: ImageBuffer|
        #![trigger call_ensures(transform, (&image,), Ok::<ImageBuffer, ScanError>(out))]
        call_ensures(load, (i as usize,), Ok::<ImageBuffer, ScanError>(image)) && call_ensures(
            transform,
            (&image,),
            Ok::<ImageBuffer, ScanError>(out),
        ) && out@ == picture
}

/// One of the errors with which page `i` can fail to be loaded.
pub open spec fn load_fails<L: Fn(usize) -> Result<ImageBuffer, ScanError>>(
    load: L,
    i: int,
    failure: Failure,
) -> bool {
    exists|error: ScanError| #[trigger]
        call_ensures(load, (i as usize,), Err::<ImageBuffer, ScanError>(error)) && error@
            == failure
}

/// One of the errors with which page `i`, once loaded, can fail to be transformed.
pub open spec fn transform_fails<
    L: Fn(usize) -> Result<ImageBuffer, ScanError>,
    T: Fn(&ImageBuffer) -> Result<ImageBuffer, ScanError>,
>(load: L, transform: T, i: int, failure: Failure) -> bool {
    exists|image: ImageBuffer, error: ScanError|
        #![trigger call_ensures(transform, (&image,), Err::<ImageBuffer, ScanError>(error))]
        call_ensures(load, (i as usize,), Ok::<ImageBuffer, ScanError>(image)) && call_ensures(
            transform,
            (&image,),
            Err::<ImageBuffer, ScanError>(error),
        ) && error@ == failure
}

/// The pages that can be loaded can be transformed, and what comes out is an image.
pub open spec fn sound_pages<
    L: Fn(usize) -> Result<ImageBuffer, ScanError>,
    T: Fn(&ImageBuffer) -> Result<ImageBuffer, ScanError>,
>(load: L, transform: T, page_count: int) -> bool {
    &&& forall|i: usize| i < page_count ==> #[trigger] call_requires(load, (i,))
    &&& forall|i: usize, image: ImageBuffer| #[trigger]
        call_ensures(load, (i,), Ok::<ImageBuffer, ScanError>(image)) ==> call_requires(
            transform,
            (&image,),
        )
    &&& forall|image: ImageBuffer, out: ImageBuffer| #[trigger]
        call_ensures(transform, (&image,), Ok::<ImageBuffer, ScanError>(out)) ==> out@.wf()
}

/// What publication of stored pages gives before any page is touched.
pub open spec fn refused_pages(page_count: int, options: PdfChoices) -> Option<Failure> {
    if page_count == 0 {
        Some(Failure::Invalid("save_multipage_pdf requires at least one page"@))
    } else {
        match options_checked(page_count, options) {
            Err(failure) => Some(failure),
            Ok(_) => None,
        }
    }
}

/// Whether a failure is that of publication which the poll at a point stopped, behind the given
/// pages and with no failure before.
pub open spec fn run_stopped(
    pictures: Seq<Picture>,
    options: PdfChoices,
    polls: Polls,
    course: Course,
    at: PollPoint,
    failure: Failure,
) -> bool {
    &&& polls.stopped(at, course)
    &&& at.pages_before(course) == pictures.len()
    &&& at !is Begin ==> draft_of(pictures, options, pictures.len() as int) is Ok
    &&& failure == pdf_cancelled()
}

/// Whether every poll let the making of the given pages go on, and the last of them, or the font of
/// the whole document, failed.
pub open spec fn run_failed(
    pictures: Seq<Picture>,
    options: PdfChoices,
    polls: Polls,
    course: Course,
    failure: Failure,
) -> bool {
    let n = pictures.len() as int;
    &&& draft_of(pictures, options, n) == Err::<Draft, Failure>(failure)
    &&& if n == 0 {
        polls.passed(PollPoint::Begin, course)
    } else {
        polls.passed(PollPoint::Transformed((n - 1) as usize), course) && draft_of(
            pictures,
            options,
            n - 1,
        ) is Ok
    }
}

/// Whether every poll let publication go on, and the given pages are closed to a document.
pub open spec fn run_finished(
    pictures: Seq<Picture>,
    r: Result<PdfDocument, ScanError>,
    options: PdfChoices,
    polls: Polls,
    course: Course,
) -> bool {
    let draft = draft_of(pictures, options, pictures.len() as int);
    &&& polls.finished(course)
    &&& pictures.len() == course.pages
    &&& draft is Ok
    &&& closes(r, draft->Ok_0, options)
}

/// Whether the page at a point can have been loaded, or loaded and transformed, as far as the point
/// lies behind that.
pub open spec fn page_prepared<
    L: Fn(usize) -> Result<ImageBuffer, ScanError>,
    T: Fn(&ImageBuffer) -> Result<ImageBuffer, ScanError>,
>(load: L, transform: T, at: PollPoint) -> bool {
    match at {
        PollPoint::Loaded(i) => exists|picture: Picture| #[trigger] loads(load, i as int, picture),
        PollPoint::Transformed(i) => exists|picture: Picture| #[trigger]
            makes(load, transform, i as int, picture),
        _ => true,
    }
}

/// Whether publication of stored pages got as far as the given pages, and gave what follows from
/// them: a closed document of all pages, the error of the page at which it stopped, or that of
/// cancellation.
pub open spec fn page_run<
    L: Fn(usize) -> Result<ImageBuffer, ScanError>,
    T: Fn(&ImageBuffer) -> Result<ImageBuffer, ScanError>,
>(
    pictures: Seq<Picture>,
    r: Result<PdfDocument, ScanError>,
    page_count: int,
    load: L,
    options: PdfChoices,
    transform: T,
    polls: Polls,
) -> bool {
    let n = pictures.len() as int;
    let course = Course { pages: page_count, stored: true };
    &&& n <= page_count
    &&& forall|i: int| 0 <= i < n ==> makes(load, transform, i, #[trigger] pictures[i])
    &&& {
        ||| r is Err && exists|at: PollPoint| #[trigger]
            run_stopped(pictures, options, polls, course, at, r->Err_0@) && page_prepared(
                load,
                transform,
                at,
            )
        ||| run_finished(pictures, r, options, polls, course)
        ||| r is Err && run_failed(pictures, options, polls, course, r->Err_0@)
        ||| {
            &&& r is Err
            &&& n < page_count
            &&& draft_of(pictures, options, n) is Ok
            &&& {
                ||| polls.passed(PollPoint::Page(n as usize), course) && load_fails(
                    load,
                    n,
                    r->Err_0@,
                )
                ||| polls.passed(PollPoint::Loaded(n as usize), course) && transform_fails(
                    load,
                    transform,
                    n,
                    r->Err_0@,
                )
            }
        }
    }
}

/// What publication of stored pages gives: a closed document of pages that were loaded and
/// transformed, or the error of the page at which it stopped.
pub open spec fn published_pages<
    L: Fn(usize) -> Result<ImageBuffer, ScanError>,
    T: Fn(&ImageBuffer) -> Result<ImageBuffer, ScanError>,
>(
    r: Result<PdfDocument, ScanError>,
    page_count: int,
    load: L,
    options: PdfChoices,
    transform: T,
    polls: Polls,
) -> bool {
    exists|pictures: Seq<Picture>| #[trigger]
        page_run(pictures, r, page_count, load, options, transform, polls)
}

/// Builds a document from stored pages, loading and transforming one page at a time. Cancellation is
/// polled before the document is begun, before every page, after it was loaded, after it was
/// transformed, and before the document is closed.
pub fn save_pdf_from_paths_with_options_and_transform_and_cancellation<
    L: Fn(usize) -> Result<ImageBuffer, ScanError>,
    T: Fn(&ImageBuffer) -> Result<ImageBuffer, ScanError>,
    C: Fn(PollPoint) -> bool,
>(page_count: usize, load: L, options: &PdfOptions, transform: T, poll: C) -> (r: Result<
    PdfDocument,
    ScanError,
>)
    requires
        sound_pages(load, transform, page_count as int),
        numberable(page_count as int),
        can_poll(poll),
    ensures
        match refused_pages(page_count as int, options@) {
            Some(failure) => r is Err && r->Err_0@ == failure,
            None => published_pages(
                r,
                page_count as int,
                load,
                options@,
                transform,
                polls_of(poll),
            ),
        },
{
    if page_count == 0 {
        return Err(invalid("save_multipage_pdf requires at least one page"));
    }
    match validate_pdf_options(page_count, options) {
        Ok(()) => {},
        Err(error) => {
            return Err(error);
        },
    }
    let ghost polls = polls_of(poll);
    let ghost course = Course { pages: page_count as int, stored: true };
    let ghost mut pictures: Seq<Picture> = Seq::empty();
    match check_pdf_cancellation(poll(PollPoint::Begin)) {
        Ok(()) => {},
        Err(error) => {
            assert(run_stopped(pictures, options@, polls, course, PollPoint::Begin, error@));
            assert(page_run(
                pictures,
                Err::<PdfDocument, ScanError>(error),
                page_count as int,
                load,
                options@,
                transform,
                polls,
            ));
            return Err(error);
        },
    }
    let mut draft = match create_pdf_document(options) {
        Ok(draft) => draft,
        Err(error) => {
            assert(page_run(
                pictures,
                Err::<PdfDocument, ScanError>(error),
                page_count as int,
                load,
                options@,
                transform,
                polls,
            ));
            return Err(error);
        },
    };
    let mut i: usize = 0;
    while i < page_count
        invariant
            i <= page_count,
            numberable(page_count as int),
            sound_pages(load, transform, page_count as int),
            options@.searchable_pages matches Some(pages) ==> pages.len() == page_count,
            pictures.len() == i,
            forall|j: int|
                0 <= j < pictures.len() ==> makes(load, transform, j, #[trigger] pictures[j]),
            draft@.wf(),
            draft_of(pictures, options@, i as int) == Ok::<Draft, Failure>(draft@),
            refused_pages(page_count as int, options@) is None,
            polls == polls_of(poll),
            course == (Course { pages: page_count as int, stored: true }),
            polls.reached(PollPoint::Page(i), course),
            can_poll(poll),
        decreases page_count - i,
    {
        match check_pdf_cancellation(poll(PollPoint::Page(i))) {
            Ok(()) => {},
            Err(error) => {
                assert(run_stopped(pictures, options@, polls, course, PollPoint::Page(i), error@));
                assert(page_run(
                    pictures,
                    Err::<PdfDocument, ScanError>(error),
                    page_count as int,
                    load,
                    options@,
                    transform,
                    polls,
                ));
                return Err(error);
            },
        }
        assert((i as int) as usize == i);
        let image = match load(i) {
            Ok(image) => image,
            Err(error) => {
                assert(load_fails(load, i as int, error@));
                assert(page_run(
                    pictures,
                    Err::<PdfDocument, ScanError>(error),
                    page_count as int,
                    load,
                    options@,
                    transform,
                    polls,
                ));
                return Err(error);
            },
        };
        match check_pdf_cancellation(poll(PollPoint::Loaded(i))) {
            Ok(()) => {},
            Err(error) => {
                assert(run_stopped(pictures, options@, polls, course, PollPoint::Loaded(i), error@));
                assert(loads(load, i as int, image@));
                assert(page_run(
                    pictures,
                    Err::<PdfDocument, ScanError>(error),
                    page_count as int,
                    load,
                    options@,
                    transform,
                    polls,
                ));
                return Err(error);
            },
        }
        let page = match transform(&image) {
            Ok(page) => page,
            Err(error) => {
                assert(transform_fails(load, transform, i as int, error@));
                assert(page_run(
                    pictures,
                    Err::<PdfDocument, ScanError>(error),
                    page_count as int,
                    load,
                    options@,
                    transform,
                    polls,
                ));
                return Err(error);
            },
        };
        match check_pdf_cancellation(poll(PollPoint::Transformed(i))) {
            Ok(()) => {},
            Err(error) => {
                assert(run_stopped(pictures, options@, polls, course, PollPoint::Transformed(i), error@));
                assert(makes(load, transform, i as int, page@));
                assert(page_run(
                    pictures,
                    Err::<PdfDocument, ScanError>(error),
                    page_count as int,
                    load,
                    options@,
                    transform,
                    polls,
                ));
                return Err(error);
            },
        }
        let ghost before = pictures;
        proof {
            lemma_draft_len(pictures, options@, i as int);
            pictures = pictures.push(page@);
            assert(makes(load, transform, i as int, pictures[i as int]));
            lemma_same_draft(before, pictures, options@, i as int);
        }
        match draft.add_page(&page, text_of_page(options, i)) {
            Ok(_) => {},
            Err(error) => {
                assert(draft_of(pictures, options@, i + 1) == Err::<Draft, Failure>(error@));
                assert(page_run(
                    pictures,
                    Err::<PdfDocument, ScanError>(error),
                    page_count as int,
                    load,
                    options@,
                    transform,
                    polls,
                ));
                return Err(error);
            },
        }
        i += 1;
    }
    match check_pdf_cancellation(poll(PollPoint::End)) {
        Ok(()) => {},
        Err(error) => {
            assert(run_stopped(pictures, options@, polls, course, PollPoint::End, error@));
            assert(page_run(
                pictures,
                Err::<PdfDocument, ScanError>(error),
                page_count as int,
                load,
                options@,
                transform,
                polls,
            ));
            return Err(error);
        },
    }
    proof {
        lemma_draft_len(pictures, options@, page_count as int);
    }
    let r = finish_pdf_document(draft, options);
    assert(page_run(
        pictures,
        r,
        page_count as int,
        load,
        options@,
        transform,
        polls,
    ));
    r
}

/// A document of stored pages is not published where the poll at some point of it cannot answer that
/// the work goes on: it ends with no page behind that point, and with the error of cancellation where
/// nothing can fail.
pub proof fn cancelled_documents_are_not_published<
    L: Fn(usize) -> Result<ImageBuffer, ScanError>,
    T: Fn(&ImageBuffer) -> Result<ImageBuffer, ScanError>,
>(
    pictures: Seq<Picture>,
    r: Result<PdfDocument, ScanError>,
    page_count: int,
    load: L,
    options: PdfChoices,
    transform: T,
    polls: Polls,
    at: PollPoint,
)
    requires
        page_run(pictures, r, page_count, load, options, transform, polls),
        page_count <= usize::MAX,
        at.belongs(Course { pages: page_count, stored: true }),
        !(polls.goes_on)(at),
    ensures
        r is Err,
        pictures.len() <= at.pages_before(Course { pages: page_count, stored: true }),
        (forall|i: int, failure: Failure| !#[trigger] load_fails(load, i, failure)) && (forall|
            i: int,
            failure: Failure,
        | !#[trigger] transform_fails(load, transform, i, failure)) && draft_of(
            pictures,
            options,
            pictures.len() as int,
        ) is Ok ==> r->Err_0@ == pdf_cancelled(),
{
    let course = Course { pages: page_count, stored: true };
    if polls.finished(course) {
        finished_passed_every_point(polls, course, at);
    }
}

/// Builds a document from stored pages, loading and transforming one page at a time.
pub fn save_pdf_from_paths_with_options_and_transform<
    L: Fn(usize) -> Result<ImageBuffer, ScanError>,
    T: Fn(&ImageBuffer) -> Result<ImageBuffer, ScanError>,
>(page_count: usize, load: L, options: &PdfOptions, transform: T) -> (r: Result<
    PdfDocument,
    ScanError,
>)
    requires
        sound_pages(load, transform, page_count as int),
        numberable(page_count as int),
    ensures
        match refused_pages(page_count as int, options@) {
            Some(failure) => r is Err && r->Err_0@ == failure,
            None => published_pages(
                r,
                page_count as int,
                load,
                options@,
                transform,
                uncancelled(),
            ),
        },
{
    let never = |_point: PollPoint| -> (stop: bool)
        ensures
            !stop,
        { false };
    let r = save_pdf_from_paths_with_options_and_transform_and_cancellation(
        page_count,
        load,
        options,
        transform,
        never,
    );
    proof {
        lemma_never_stopped(never);
        if refused_pages(page_count as int, options@) is None {
            let pictures = choose|pictures: Seq<Picture>| #[trigger]
                page_run(
                    pictures,
                    r,
                    page_count as int,
                    load,
                    options@,
                    transform,
                    polls_of(never),
                );
            assert(page_run(
                pictures,
                r,
                page_count as int,
                load,
                options@,
                transform,
                uncancelled(),
            ));
        }
    }
    r
}

/// The pages that can be loaded are images.
pub open spec fn sound_load<L: Fn(usize) -> Result<ImageBuffer, ScanError>>(
    load: L,
    page_count: int,
) -> bool {
    &&& forall|i: usize| i < page_count ==> #[trigger] call_requires(load, (i,))
    &&& forall|i: usize, image: ImageBuffer| #[trigger]
        call_ensures(load, (i,), Ok::<ImageBuffer, ScanError>(image)) ==> image@.wf()
}

/// Whether publication of stored pages got as far as the given pages, and gave what follows from
/// them: a closed document of all pages, the error of the page at which it stopped, or that of
/// cancellation.
pub open spec fn file_run<L: Fn(usize) -> Result<ImageBuffer, ScanError>>(
    pictures: Seq<Picture>,
    r: Result<PdfDocument, ScanError>,
    page_count: int,
    load: L,
    options: PdfChoices,
    polls: Polls,
) -> bool {
    let n = pictures.len() as int;
    let course = Course { pages: page_count, stored: true };
    &&& n <= page_count
    &&& forall|i: int| 0 <= i < n ==> loads(load, i, #[trigger] pictures[i])
    &&& {
        ||| r is Err && exists|at: PollPoint| #[trigger]
            run_stopped(pictures, options, polls, course, at, r->Err_0@)
        ||| run_finished(pictures, r, options, polls, course)
        ||| r is Err && run_failed(pictures, options, polls, course, r->Err_0@)
        ||| {
            &&& r is Err
            &&& n < page_count
            &&& draft_of(pictures, options, n) is Ok
            &&& polls.passed(PollPoint::Page(n as usize), course)
            &&& load_fails(load, n, r->Err_0@)
        }
    }
}

/// What publication of stored pages gives: a closed document of the pages that were loaded, or the
/// error of the page at which it stopped.
pub open spec fn published_files<L: Fn(usize) -> Result<ImageBuffer, ScanError>>(
    r: Result<PdfDocument, ScanError>,
    page_count: int,
    load: L,
    options: PdfChoices,
    polls: Polls,
) -> bool {
    exists|pictures: Seq<Picture>| #[trigger]
        file_run(pictures, r, page_count, load, options, polls)
}

/// Builds a document from stored pages, polling for cancellation before it is begun, before each
/// page, twice after it was loaded, and before the document is closed.
pub fn save_pdf_from_paths_with_options_and_cancellation<
    L: Fn(usize) -> Result<ImageBuffer, ScanError>,
    C: Fn(PollPoint) -> bool,
>(page_count: usize, load: L, options: &PdfOptions, poll: C) -> (r: Result<PdfDocument, ScanError>)
    requires
        sound_load(load, page_count as int),
        numberable(page_count as int),
        can_poll(poll),
    ensures
        match refused_pages(page_count as int, options@) {
            Some(failure) => r is Err && r->Err_0@ == failure,
            None => published_files(r, page_count as int, load, options@, polls_of(poll)),
        },
{
    let keep = |image: &ImageBuffer| -> (out: Result<ImageBuffer, ScanError>)
        requires
            image@.wf(),
        ensures
            out is Ok,
            out->Ok_0@ == image@,
            out->Ok_0@.wf(),
        { Ok(image.clone()) };
    let r = save_pdf_from_paths_with_options_and_transform_and_cancellation(
        page_count,
        load,
        options,
        keep,
        poll,
    );
    proof {
        if refused_pages(page_count as int, options@) is None {
            lemma_kept_pages(r, page_count as int, load, options@, keep, polls_of(poll));
        }
    }
    r
}

/// Pages that are transformed to themselves are the pages that were loaded.
proof fn lemma_kept_pages<
    L: Fn(usize) -> Result<ImageBuffer, ScanError>,
    T: Fn(&ImageBuffer) -> Result<ImageBuffer, ScanError>,
>(
    r: Result<PdfDocument, ScanError>,
    page_count: int,
    load: L,
    options: PdfChoices,
    keep: T,
    polls: Polls,
)
    requires
        published_pages(r, page_count, load, options, keep, polls),
        forall|image: ImageBuffer, out: Result<ImageBuffer, ScanError>| #[trigger]
            call_ensures(keep, (&image,), out) ==> out is Ok && out->Ok_0@ == image@,
    ensures
        published_files(r, page_count, load, options, polls),
{
    let pictures = choose|pictures: Seq<Picture>| #[trigger]
        page_run(pictures, r, page_count, load, options, keep, polls);
    assert forall|i: int| 0 <= i < pictures.len() implies loads(load, i, #[trigger] pictures[i]) by {
        assert(makes(load, keep, i, pictures[i]));
    }
    assert(!transform_fails(load, keep, pictures.len() as int, r->Err_0@));
    assert(file_run(pictures, r, page_count, load, options, polls));
}

/// Builds a document from stored pages.
pub fn save_pdf_from_paths_with_options<L: Fn(usize) -> Result<ImageBuffer, ScanError>>(
    page_count: usize,
    load: L,
    options: &PdfOptions,
) -> (r: Result<PdfDocument, ScanError>)
    requires
        sound_load(load, page_count as int),
        numberable(page_count as int),
    ensures
        match refused_pages(page_count as int, options@) {
            Some(failure) => r is Err && r->Err_0@ == failure,
            None => published_files(r, page_count as int, load, options@, uncancelled()),
        },
{
    let never = |_point: PollPoint| -> (stop: bool)
        ensures
            !stop,
        { false };
    let r = save_pdf_from_paths_with_options_and_cancellation(page_count, load, options, never);
    proof {
        lemma_never_stopped(never);
        if refused_pages(page_count as int, options@) is None {
            let pictures = choose|pictures: Seq<Picture>| #[trigger]
                file_run(pictures, r, page_count as int, load, options@, polls_of(never));
            assert(file_run(pictures, r, page_count as int, load, options@, uncancelled()));
        }
    }
    r
}

/// Combines stored page images into one document.
pub fn save_multipage_pdf<L: Fn(usize) -> Result<ImageBuffer, ScanError>>(
    page_count: usize,
    load: L,
    options: &PdfOptions,
) -> (r: Result<PdfDocument, ScanError>)
    requires
        sound_load(load, page_count as int),
        numberable(page_count as int),
    ensures
        match refused_pages(page_count as int, options@) {
            Some(failure) => r is Err && r->Err_0@ == failure,
            None => published_files(r, page_count as int, load, options@, uncancelled()),
        },
{
    save_pdf_from_paths_with_options(page_count, load, options)
}

/// Combines stored page images, polling for cancellation before the document is begun, before each
/// page, twice after it was loaded, and before the document is closed.
pub fn save_multipage_pdf_with_cancellation<
    L: Fn(usize) -> Result<ImageBuffer, ScanError>,
    C: Fn(PollPoint) -> bool,
>(page_count: usize, load: L, options: &PdfOptions, poll: C) -> (r: Result<PdfDocument, ScanError>)
    requires
        sound_load(load, page_count as int),
        numberable(page_count as int),
        can_poll(poll),
    ensures
        match refused_pages(page_count as int, options@) {
            Some(failure) => r is Err && r->Err_0@ == failure,
            None => published_files(r, page_count as int, load, options@, polls_of(poll)),
        },
{
    save_pdf_from_paths_with_options_and_cancellation(page_count, load, options, poll)
}

// ---------------------------------------------------------------------------
// References
// ---------------------------------------------------------------------------

/// The object with a number.
pub open spec fn object(objects: Seq<Item>, id: u32) -> Item {
    objects[id - 1]
}

/// Whether a number is that of an object.
pub open spec fn exists_object(objects: Seq<Item>, id: u32) -> bool {
    1 <= id <= objects.len()
}

/// Whether every reference of an object leads to an object of the kind that it has to be.
pub open spec fn linked(objects: Seq<Item>, item: Item) -> bool {
    match item {
        Item::Pages { kids } => forall|k: int|
            0 <= k < kids.len() ==> exists_object(objects, #[trigger] kids[k]) && object(
                objects,
                kids[k],
            ) is Page,
        Item::FontDescriptor { font_file } => exists_object(objects, font_file) && object(
            objects,
            font_file,
        ) is FontFile,
        Item::CidFont { descriptor, glyph_map } => {
            &&& exists_object(objects, descriptor)
            &&& object(objects, descriptor) is FontDescriptor
            &&& exists_object(objects, glyph_map)
            &&& object(objects, glyph_map) is GlyphMap
        },
        Item::Type0Font { descendant, to_unicode } => {
            &&& exists_object(objects, descendant)
            &&& object(objects, descendant) is CidFont
            &&& exists_object(objects, to_unicode)
            &&& object(objects, to_unicode) is ToUnicode
        },
        Item::Page { parent, image, font, contents, .. } => {
            &&& parent == 1
            &&& exists_object(objects, parent)
            &&& object(objects, parent) is Pages
            &&& exists_object(objects, image)
            &&& object(objects, image) is Image
            &&& exists_object(objects, contents)
            &&& object(objects, contents) is Content
            &&& (font matches Some(id) ==> exists_object(objects, id) && object(
                objects,
                id,
            ) is Type0Font)
        },
        Item::Catalog { pages } => exists_object(objects, pages) && object(objects, pages) is Pages,
        _ => true,
    }
}

/// Whether every reference of every object resolves.
pub open spec fn all_linked(objects: Seq<Item>) -> bool {
    forall|i: int| 0 <= i < objects.len() ==> linked(objects, #[trigger] objects[i])
}

/// Whether the objects of a draft refer to each other rightly.
spec fn draft_linked(draft: Draft) -> bool {
    &&& draft.objects.len() >= 1
    &&& draft.objects[0] is Pages
    &&& forall|i: int| 0 < i < draft.objects.len() ==> !((#[trigger] draft.objects[i]) is Pages)
    &&& all_linked(draft.objects)
    &&& (draft.font matches Some(id) ==> exists_object(draft.objects, id) && object(
        draft.objects,
        id,
    ) is Type0Font)
    &&& forall|k: int|
        0 <= k < draft.page_ids.len() ==> exists_object(draft.objects, #[trigger] draft.page_ids[k])
            && object(draft.objects, draft.page_ids[k]) is Page
}

proof fn lemma_linked_longer(objects: Seq<Item>, more: Seq<Item>, item: Item)
    requires
        linked(objects, item),
    ensures
        linked(objects + more, item),
{
    assert forall|id: u32| exists_object(objects, id) implies exists_object(objects + more, id)
        && #[trigger] object(objects + more, id) == object(objects, id) by {}
    match item {
        Item::Pages { kids } => {
            assert forall|k: int| 0 <= k < kids.len() implies exists_object(
                objects + more,
                #[trigger] kids[k],
            ) && object(objects + more, kids[k]) is Page by {
                assert(exists_object(objects, kids[k]));
            }
        },
        _ => {},
    }
}

proof fn lemma_draft_linked(pictures: Seq<Picture>, options: PdfChoices, n: int)
    requires
        0 <= n,
        numberable(n),
        draft_of(pictures, options, n) is Ok,
    ensures
        draft_linked(draft_of(pictures, options, n)->Ok_0),
    decreases n,
{
    let draft = draft_of(pictures, options, n)->Ok_0;
    if n == 0 {
        let objects = draft.objects;
        assert(objects[0] == (Item::Pages { kids: Seq::<u32>::empty() }));
        if options.searchable_pages is Some {
            assert(objects.len() == 7);
            let t = table_of(options.searchable_pages->0);
            assert(objects[1] == font_objects(1, t)[0]);
            assert(objects[2] == font_objects(1, t)[1]);
            assert(objects[3] == font_objects(1, t)[2]);
            assert(objects[4] == font_objects(1, t)[3]);
            assert(objects[5] == font_objects(1, t)[4]);
            assert(objects[6] == font_objects(1, t)[5]);
        }
    } else {
        lemma_draft_linked(pictures, options, n - 1);
        lemma_draft_len(pictures, options, n - 1);
        let before = draft_of(pictures, options, n - 1)->Ok_0;
        let more = draft.objects.skip(before.objects.len() as int);
        assert(draft.objects =~= before.objects + more);
        assert(more.len() == 3);
        let b = before.objects.len() as int;
        assert(draft.objects[b] is Image);
        assert(draft.objects[b + 1] is Content);
        assert(draft.objects[b + 2] is Page);
        assert(draft.objects[b + 2]->Page_image == b + 1);
        assert(draft.objects[b + 2]->contents == b + 2);
        assert forall|i: int| 0 < i < draft.objects.len() implies !((
        #[trigger] draft.objects[i]) is Pages) by {
            if i < b {
                assert(draft.objects[i] == before.objects[i]);
            }
        }
        assert(object(draft.objects, (b + 1) as u32) == draft.objects[b]);
        assert(object(draft.objects, (b + 2) as u32) == draft.objects[b + 1]);
        assert(object(draft.objects, (b + 3) as u32) == draft.objects[b + 2]);
        assert(object(draft.objects, 1) == before.objects[0]);
        if let Some(id) = before.font {
            assert(object(draft.objects, id) == object(before.objects, id));
        }
        assert forall|i: int| 0 <= i < draft.objects.len() implies linked(
            draft.objects,
            #[trigger] draft.objects[i],
        ) by {
            if i < b {
                assert(draft.objects[i] == before.objects[i]);
                lemma_linked_longer(before.objects, more, before.objects[i]);
            }
        }
        assert forall|k: int| 0 <= k < draft.page_ids.len() implies exists_object(
            draft.objects,
            #[trigger] draft.page_ids[k],
        ) && object(draft.objects, draft.page_ids[k]) is Page by {
            if k < before.page_ids.len() {
                assert(draft.page_ids[k] == before.page_ids[k]);
                assert(exists_object(before.objects, before.page_ids[k]));
                assert(object(draft.objects, draft.page_ids[k]) == object(
                    before.objects,
                    before.page_ids[k],
                ));
            }
        }
    }
}

/// Every reference of a finished document resolves, and it lists as many pages as it was given
/// images.
pub proof fn document_references_resolve(
    pictures: Seq<Picture>,
    options: PdfChoices,
    identifier: Seq<u8>,
    key: Seq<u8>,
)
    requires
        numberable(pictures.len() as int),
        draft_of(pictures, options, pictures.len() as int) is Ok,
    ensures
        ({
            let draft = draft_of(pictures, options, pictures.len() as int)->Ok_0;
            let document = finished(draft, options, identifier, key);
            &&& all_linked(document.objects)
            &&& exists_object(document.objects, document.root)
            &&& object(document.objects, document.root) is Catalog
            &&& exists_object(document.objects, document.info)
            &&& object(document.objects, document.info) is Info
            &&& document.objects[0] is Pages
            &&& document.objects[0]->kids.len() == pictures.len()
        }),
{
    let n = pictures.len() as int;
    lemma_draft_linked(pictures, options, n);
    lemma_draft_len(pictures, options, n);
    let draft = draft_of(pictures, options, n)->Ok_0;
    let objects = closed_objects(draft, options.title);
    let b = draft.objects.len() as int;
    assert(objects.len() == b + 2);
    assert(objects[0] == (Item::Pages { kids: draft.page_ids }));
    assert(objects[b] is Catalog && objects[b + 1] is Info);
    assert forall|id: u32| exists_object(draft.objects, id) && id != 1 implies exists_object(
        objects,
        id,
    ) && #[trigger] object(objects, id) == object(draft.objects, id) by {}
    assert(object(objects, 1) is Pages);
    assert forall|i: int| 0 <= i < objects.len() implies linked(objects, #[trigger] objects[i]) by {
        if i == 0 {
            assert forall|k: int| 0 <= k < draft.page_ids.len() implies exists_object(
                objects,
                #[trigger] draft.page_ids[k],
            ) && object(objects, draft.page_ids[k]) is Page by {
                let id = draft.page_ids[k];
                assert(exists_object(draft.objects, id) && object(draft.objects, id) is Page);
                assert(object(draft.objects, 1) is Pages);
            }
        } else if i < b {
            assert(objects[i] == draft.objects[i]);
            assert(linked(draft.objects, draft.objects[i]));
            lemma_relinked(draft.objects, objects, draft.objects[i]);
        }
    }
}

/// A reference keeps its meaning where every object keeps its place and the list of pages stays
/// one.
proof fn lemma_relinked(a: Seq<Item>, b: Seq<Item>, item: Item)
    requires
        linked(a, item),
        !(item is Pages),
        a.len() >= 1,
        a[0] is Pages,
        b.len() >= a.len(),
        b[0] is Pages,
        forall|id: u32| exists_object(a, id) && id != 1 ==> #[trigger] object(b, id) == object(a, id),
    ensures
        linked(b, item),
{
    assert(object(a, 1) is Pages && object(b, 1) is Pages);
    match item {
        Item::FontDescriptor { font_file } => {
            assert(object(b, font_file) == object(a, font_file) || font_file == 1);
        },
        Item::CidFont { descriptor, glyph_map } => {
            assert(object(b, descriptor) == object(a, descriptor) || descriptor == 1);
            assert(object(b, glyph_map) == object(a, glyph_map) || glyph_map == 1);
        },
        Item::Type0Font { descendant, to_unicode } => {
            assert(object(b, descendant) == object(a, descendant) || descendant == 1);
            assert(object(b, to_unicode) == object(a, to_unicode) || to_unicode == 1);
        },
        Item::Page { parent, image, font, contents, .. } => {
            assert(object(b, image) == object(a, image) || image == 1);
            assert(object(b, contents) == object(a, contents) || contents == 1);
            if let Some(id) = font {
                assert(object(b, id) == object(a, id) || id == 1);
            }
        },
        _ => {},
    }
}

/// A document keeps what its first pages added to it.
proof fn lemma_draft_grows(pictures: Seq<Picture>, options: PdfChoices, m: int, n: int)
    requires
        0 <= m <= n,
        draft_of(pictures, options, n) is Ok,
    ensures
        draft_of(pictures, options, m) is Ok,
        ({
            let early = draft_of(pictures, options, m)->Ok_0;
            let late = draft_of(pictures, options, n)->Ok_0;
            &&& early.objects.len() <= late.objects.len()
            &&& early.page_ids.len() <= late.page_ids.len()
            &&& forall|k: int|
                0 <= k < early.objects.len() ==> #[trigger] late.objects[k] == early.objects[k]
            &&& forall|k: int|
                0 <= k < early.page_ids.len() ==> #[trigger] late.page_ids[k] == early.page_ids[k]
            &&& late.table == early.table
            &&& late.font == early.font
            &&& late.dpi == early.dpi
        }),
    decreases n - m,
{
    if m < n {
        lemma_draft_grows(pictures, options, m, n - 1);
    }
}

/// The text that is shown on a page, read two bytes at a time through a table of characters: the texts
/// of all operations that show any, one behind the other.
pub open spec fn shown_text(operations: Seq<Operation>, table: Seq<char>) -> Seq<char>
    decreases operations.len(),
{
    if operations.len() == 0 {
        Seq::empty()
    } else {
        let before = shown_text(operations.drop_last(), table);
        match operations.last() {
            Operation::ShowText(bytes) => before + decoded(bytes, table),
            _ => before,
        }
    }
}

/// Whether a page of a finished document draws a picture over all of it and shows a text, the
/// characters of which are numbered by a table.
pub open spec fn page_shows(
    objects: Seq<Item>,
    id: u32,
    picture: Picture,
    dpi: u32,
    text: Seq<char>,
    table: Seq<char>,
) -> bool {
    let page = object(objects, id);
    let width = PageLength { pixels: picture.width, dpi };
    let height = PageLength { pixels: picture.height, dpi };
    &&& exists_object(objects, id)
    &&& page is Page
    &&& page->Page_width == width
    &&& page->Page_height == height
    &&& exists_object(objects, page->Page_image)
    &&& exists_object(objects, page->contents)
    &&& object(objects, page->Page_image) matches Item::Image {
        width: w,
        height: h,
        content,
        deflated,
    } && w == picture.width && h == picture.height && stream_of(rgb_frame(picture).data) == Ok::<
        (Seq<u8>, bool),
        Seq<char>,
    >((content, deflated))
    &&& object(objects, page->contents) matches Item::Content(operations) && operations.len() >= 4
        && operations[0] is SaveState && operations[1] == (Operation::Scale { width, height })
        && operations[2] == Operation::DrawImage(page->image_name) && operations[3] is RestoreState
        && shown_text(operations, table) == text
}

proof fn lemma_shown(name: Seq<char>, width: PageLength, height: PageLength, bytes: Seq<u8>, table: Seq<
    char,
>)
    ensures
        shown_text(image_operations(name, width, height), table) == Seq::<char>::empty(),
        shown_text(image_operations(name, width, height) + text_operations(bytes), table) == decoded(
            bytes,
            table,
        ),
{
    let drawing = image_operations(name, width, height);
    assert(shown_text(drawing, table) =~= Seq::<char>::empty()) by {
        reveal_with_fuel(shown_text, 5);
    }
    let o11 = drawing + text_operations(bytes);
    let o10 = o11.drop_last();
    let o9 = o10.drop_last();
    let o8 = o9.drop_last();
    let o7 = o8.drop_last();
    let o6 = o7.drop_last();
    let o5 = o6.drop_last();
    assert(o5.drop_last() =~= drawing);
    assert(o5.last() is BeginText && o6.last() is SelectFont);
    assert(o7.last() is SelectTransparency && o8.last() is FillText);
    assert(o9.last() is MoveToCorner && o11.last() is EndText);
    assert(o10.last() == Operation::ShowText(bytes));
    assert(shown_text(o5, table) == shown_text(drawing, table));
    assert(shown_text(o6, table) == shown_text(o5, table));
    assert(shown_text(o7, table) == shown_text(o6, table));
    assert(shown_text(o8, table) == shown_text(o7, table));
    assert(shown_text(o9, table) == shown_text(o8, table));
    assert(shown_text(o10, table) =~= decoded(bytes, table));
}

/// Where the objects of a page stand in a finished document.
proof fn lemma_page_objects(pictures: Seq<Picture>, options: PdfChoices, i: int)
    requires
        numberable(pictures.len() as int),
        draft_of(pictures, options, pictures.len() as int) is Ok,
        0 <= i < pictures.len(),
    ensures
        ({
            let draft = draft_of(pictures, options, pictures.len() as int)->Ok_0;
            let before = draft_of(pictures, options, i)->Ok_0;
            let objects = closed_objects(draft, options.title);
            let b = before.objects.len() as int;
            let stream = stream_of(rgb_frame(pictures[i]).data);
            let content = page_content(
                image_name(i),
                PageLength { pixels: pictures[i].width, dpi: before.dpi },
                PageLength { pixels: pictures[i].height, dpi: before.dpi },
                page_text(options, i),
                before.table,
            );
            let made = page_objects(
                before,
                pictures[i].width,
                pictures[i].height,
                stream->Ok_0,
                content->Ok_0,
            );
            &&& draft_of(pictures, options, i) is Ok
            &&& stream is Ok
            &&& content is Ok
            &&& objects[0] == (Item::Pages { kids: draft.page_ids })
            &&& draft.page_ids.len() == pictures.len()
            &&& draft.page_ids[i] == b + 3
            &&& b + 3 <= objects.len()
            &&& object(objects, (b + 1) as u32) == made[0]
            &&& object(objects, (b + 2) as u32) == made[1]
            &&& object(objects, (b + 3) as u32) == made[2]
            &&& before.page_ids.len() == i
            &&& i > 0 ==> draft.page_ids[i - 1] < draft.page_ids[i]
        }),
{
    let n = pictures.len() as int;
    let draft = draft_of(pictures, options, n)->Ok_0;
    lemma_draft_grows(pictures, options, i, n);
    lemma_draft_grows(pictures, options, i + 1, n);
    lemma_draft_len(pictures, options, i);
    lemma_draft_len(pictures, options, i + 1);
    lemma_draft_len(pictures, options, n);
    let before = draft_of(pictures, options, i)->Ok_0;
    let after = draft_of(pictures, options, i + 1)->Ok_0;
    let b = before.objects.len() as int;
    let objects = closed_objects(draft, options.title);
    assert(after.page_ids[i] == b + 3);
    assert(objects[b] == after.objects[b]);
    assert(objects[b + 1] == after.objects[b + 1]);
    assert(objects[b + 2] == after.objects[b + 2]);
    if i > 0 {
        lemma_draft_grows(pictures, options, i - 1, i);
        lemma_draft_len(pictures, options, i - 1);
        let earlier = draft_of(pictures, options, i - 1)->Ok_0;
        assert(before.page_ids[i - 1] == earlier.objects.len() + 3);
        assert(draft.page_ids[i - 1] == before.page_ids[i - 1]);
    }
}

/// The pages of a finished document stand in the order of the pictures, and each draws its own picture
/// in its own size and shows its own text: read back through the characters of all texts, which the
/// font's map lists, it is exactly the text of that page. Without searchable pages no text is shown.
#[verifier::spinoff_prover]
#[verifier::rlimit(40)]
pub proof fn pages_show_their_pictures_and_texts(
    pictures: Seq<Picture>,
    options: PdfChoices,
    identifier: Seq<u8>,
    key: Seq<u8>,
    i: int,
)
    requires
        numberable(pictures.len() as int),
        draft_of(pictures, options, pictures.len() as int) is Ok,
        0 <= i < pictures.len(),
    ensures
        ({
            let draft = draft_of(pictures, options, pictures.len() as int)->Ok_0;
            let objects = finished(draft, options, identifier, key).objects;
            let kids = objects[0]->kids;
            let dpi = if options.dpi == 0 {
                1
            } else {
                options.dpi
            };
            &&& objects[0] is Pages
            &&& kids.len() == pictures.len()
            &&& i > 0 ==> kids[i - 1] < kids[i]
            &&& match options.searchable_pages {
                Some(texts) => {
                    &&& page_shows(objects, kids[i], pictures[i], dpi, texts[i], table_of(texts))
                    &&& object(objects, kids[i])->font matches Some(font) && object(
                        objects,
                        font,
                    ) matches Item::Type0Font { to_unicode, .. } && object(objects, to_unicode)
                        == Item::ToUnicode(encode_utf8(cmap_text(table_of(texts))))
                },
                None => {
                    &&& page_shows(objects, kids[i], pictures[i], dpi, Seq::empty(), Seq::empty())
                    &&& object(objects, kids[i])->font is None
                },
            }
        }),
{
    let n = pictures.len() as int;
    lemma_page_objects(pictures, options, i);
    lemma_draft_grows(pictures, options, 0, n);
    lemma_draft_grows(pictures, options, 0, i);
    let draft = draft_of(pictures, options, n)->Ok_0;
    let first = draft_of(pictures, options, 0)->Ok_0;
    let before = draft_of(pictures, options, i)->Ok_0;
    let objects = closed_objects(draft, options.title);
    let b = before.objects.len() as int;
    let name = image_name(i);
    let width = PageLength { pixels: pictures[i].width, dpi: before.dpi };
    let height = PageLength { pixels: pictures[i].height, dpi: before.dpi };
    let drawing = image_operations(name, width, height);
    match options.searchable_pages {
        Some(texts) => {
            let table = table_of(texts);
            let text = texts[i];
            let bytes = searchable_bytes(text, table)->Ok_0;
            searchable_text_reads_back(text, table);
            lemma_shown(name, width, height, bytes, table);
            let operations = drawing + text_operations(bytes);
            assert(object(objects, (b + 2) as u32) == Item::Content(operations));
            assert(operations[0] is SaveState && operations[3] is RestoreState);
            assert(operations[1] == (Operation::Scale { width, height }));
            assert(operations[2] == Operation::DrawImage(name));
            assert(first.objects[6] == font_objects(1, table)[5]);
            assert(first.objects[1] == font_objects(1, table)[0]);
            assert(objects[6] == first.objects[6] && objects[1] == first.objects[1]);
            assert(object(objects, 7) == objects[6] && object(objects, 2) == objects[1]);
        },
        None => {
            lemma_shown(name, width, height, Seq::empty(), Seq::empty());
            assert(object(objects, (b + 2) as u32) == Item::Content(drawing));
        },
    }
}

/// A finished document is encrypted with the password of its options and no other, is of the version
/// that this needs, and its information holds the title.
pub proof fn documents_keep_their_options(
    draft: Draft,
    options: PdfChoices,
    identifier: Seq<u8>,
    key: Seq<u8>,
)
    requires
        draft.objects.len() >= 1,
        draft.objects.len() + 2 <= u32::MAX,
    ensures
        ({
            let document = finished(draft, options, identifier, key);
            &&& match options.password {
                Some(password) => document.encryption == Some((password, key)) && document.version
                    == "2.0"@,
                None => document.encryption is None && document.version == "1.5"@,
            }
            &&& document.identifier == identifier
            &&& object(document.objects, document.info) == (Item::Info {
                title: pdf_text(options.title),
            })
            &&& object(document.objects, document.root) == (Item::Catalog { pages: 1 })
        }),
{
}

/// Whether page `i` of a document shows a picture at the resolution of some options and, where they have
/// searchable pages, the text of that page.
pub open spec fn document_shows(
    document: Finished,
    i: int,
    picture: Picture,
    options: PdfChoices,
) -> bool {
    let objects = document.objects;
    let kids = objects[0]->kids;
    let dpi = if options.dpi == 0 {
        1
    } else {
        options.dpi
    };
    &&& objects[0] is Pages
    &&& 0 <= i < kids.len()
    &&& match options.searchable_pages {
        Some(texts) => page_shows(objects, kids[i], picture, dpi, texts[i], table_of(texts)),
        None => page_shows(objects, kids[i], picture, dpi, Seq::empty(), Seq::empty()),
    }
}

proof fn lemma_closed_document(
    r: Result<PdfDocument, ScanError>,
    pictures: Seq<Picture>,
    options: PdfChoices,
    i: int,
)
    requires
        numberable(pictures.len() as int),
        draft_of(pictures, options, pictures.len() as int) is Ok,
        closes(r, draft_of(pictures, options, pictures.len() as int)->Ok_0, options),
        r is Ok,
        0 <= i < pictures.len(),
    ensures
        r->Ok_0@.objects[0]->kids.len() == pictures.len(),
        document_shows(r->Ok_0@, i, pictures[i], options),
        options.password matches Some(password) ==> (r->Ok_0@.encryption matches Some(
            lock,
        ) && lock.0 == password),
        options.password is None ==> r->Ok_0@.encryption is None,
        object(r->Ok_0@.objects, r->Ok_0@.info) == (Item::Info { title: pdf_text(options.title) }),
{
    let draft = draft_of(pictures, options, pictures.len() as int)->Ok_0;
    let (identifier, key) = choose|identifier: Seq<u8>, key: Seq<u8>|
        identifier.len() == 16 && key.len() == 32 && r->Ok_0@ == #[trigger] finished(
            draft,
            options,
            identifier,
            key,
        );
    pages_show_their_pictures_and_texts(pictures, options, identifier, key, i);
    lemma_draft_len(pictures, options, pictures.len() as int);
    documents_keep_their_options(draft, options, identifier, key);
}

/// A document that is published has one page for each image, in their order: page `i` shows image `i` and
/// the text of page `i`. It is encrypted with the password of the options where they have one, and has
/// their title.
pub proof fn published_documents_show_their_images(
    r: Result<PdfDocument, ScanError>,
    images: Seq<ImageBuffer>,
    options: PdfChoices,
    polls: Polls,
    i: int,
)
    requires
        numberable(images.len() as int),
        published(r, pictures_of(images), options, polls),
        r is Ok,
        0 <= i < images.len(),
    ensures
        r->Ok_0@.objects[0]->kids.len() == images.len(),
        document_shows(r->Ok_0@, i, images[i]@, options),
        options.password matches Some(password) ==> (r->Ok_0@.encryption matches Some(
            lock,
        ) && lock.0 == password),
        options.password is None ==> r->Ok_0@.encryption is None,
        object(r->Ok_0@.objects, r->Ok_0@.info) == (Item::Info { title: pdf_text(options.title) }),
{
    let pictures = pictures_of(images);
    assert(pictures[i] == images[i]@);
    lemma_closed_document(r, pictures, options, i);
}

/// A document of stored pages that is published has one page for each of them, in their order: page `i`
/// shows what was loaded as page `i` and then transformed.
pub proof fn published_documents_show_their_stored_pages<
    L: Fn(usize) -> Result<ImageBuffer, ScanError>,
    T: Fn(&ImageBuffer) -> Result<ImageBuffer, ScanError>,
>(
    r: Result<PdfDocument, ScanError>,
    page_count: usize,
    load: L,
    options: PdfChoices,
    transform: T,
    polls: Polls,
    i: int,
)
    requires
        numberable(page_count as int),
        published_pages(r, page_count as int, load, options, transform, polls),
        r is Ok,
        0 <= i < page_count,
    ensures
        r->Ok_0@.objects[0]->kids.len() == page_count,
        exists|image: ImageBuffer, out: ImageBuffer|
            #![trigger call_ensures(transform, (&image,), Ok::<ImageBuffer, ScanError>(out))]
            call_ensures(load, (i as usize,), Ok::<ImageBuffer, ScanError>(image)) && call_ensures(
                transform,
                (&image,),
                Ok::<ImageBuffer, ScanError>(out),
            ) && document_shows(r->Ok_0@, i, out@, options),
{
    let pictures = choose|pictures: Seq<Picture>| #[trigger]
        page_run(pictures, r, page_count as int, load, options, transform, polls);
    lemma_closed_document(r, pictures, options, i);
    assert(makes(load, transform, i, pictures[i]));
}

} // verus!
