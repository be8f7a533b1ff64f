//! The decisions of the desktop surface.

use crate::cancellation::{uncancelled, PollPoint};
use crate::crop::{
    components_are_read_back, crop_components, crop_line, lemma_signed, padded,
    parse_crop_components, values_of, CropParseError,
};
use crate::error::{outcome, outcome_view, Failure, ScanError};
use crate::export::{
    image_pdf_choices, plain_export, prepare_export_options, prepared_export,
    save_final_image_with_cancellation, Export, ExportOptions, FinalImage,
};
use crate::image::{ImageBuffer, Picture};
use crate::paths::{Extension, Suffix};
use crate::pdf::document::{lemma_published_uncancelled, published};
use crate::processing::opt_text;
use crate::text::{
    all_space, chars_of, lemma_trim_padded, lower_all, lower_chars, same_text, signed, text_of, trim,
    trimmed,
};
use crate::tiff::{undot_start, undotted_start};
use vstd::prelude::*;
use vstd::string::StringExecFns;

pub mod actions;
pub mod jobs;
pub mod state;

verus! {

/// The crop that a text asks for: none where it is blank.
pub open spec fn crop_text_value(value: Seq<char>) -> Result<Option<Seq<int>>, CropParseError> {
    let text = trim(value);
    if text.len() == 0 {
        Ok(None)
    } else {
        match crop_components(text) {
            Ok(values) => Ok(Some(values)),
            Err(error) => Err(error),
        }
    }
}

/// Parses `x,y,w,h` crop text; a blank text is no crop.
pub fn parse_crop_string(value: &str) -> (r: Result<Option<[i32; 4]>, String>)
    ensures
        match crop_text_value(value@) {
            Ok(None) => r == Ok::<Option<[i32; 4]>, String>(None),
            Ok(Some(values)) => r matches Ok(Some(crop)) && values_of(crop) == values,
            Err(error) => r is Err && r->Err_0@ == error.spec_text(),
        },
{
    let chars = chars_of(value);
    let text = trimmed(chars.as_slice());
    if text.len() == 0 {
        return Ok(None);
    }
    let text = text_of(text);
    match parse_crop_components(text.as_str()) {
        Ok(crop) => Ok(Some(crop)),
        Err(error) => Err(error.text().to_owned()),
    }
}

/// Four integers of 32 bits, written in decimal digits with a comma between each two and white space
/// anywhere around them, are read back as a crop.
pub proof fn crop_texts_are_read_back(
    values: Seq<int>,
    before: Seq<Seq<char>>,
    after: Seq<Seq<char>>,
)
    requires
        values.len() == 4,
        before.len() == 4,
        after.len() == 4,
        forall|i: int| 0 <= i < 4 ==> i32::MIN <= #[trigger] values[i] <= i32::MAX,
        forall|i: int| 0 <= i < 4 ==> all_space(#[trigger] before[i]),
        forall|i: int| 0 <= i < 4 ==> all_space(#[trigger] after[i]),
    ensures
        crop_text_value(
            crop_line(Seq::new(4, |i: int| padded(before[i], values[i], after[i]))),
        ) == Ok::<Option<Seq<int>>, CropParseError>(Some(values)),
{
    let none = Seq::<char>::empty();
    let inner_before = before.update(0, none);
    let inner_after = after.update(3, none);
    let parts = Seq::new(4, |i: int| padded(before[i], values[i], after[i]));
    let inner = Seq::new(4, |i: int| padded(inner_before[i], values[i], inner_after[i]));
    let text = crop_line(inner);
    lemma_signed(values[0]);
    lemma_signed(values[3]);
    assert(inner[0] =~= signed(values[0]) + after[0]);
    assert(inner[3] =~= before[3] + signed(values[3]));
    assert(crop_line(parts) =~= before[0] + text + after[3]) by {
        assert(parts[0] =~= before[0] + inner[0]);
        assert(parts[1] =~= inner[1]);
        assert(parts[2] =~= inner[2]);
        assert(parts[3] =~= inner[3] + after[3]);
    }
    assert(text[0] == signed(values[0])[0]);
    assert(text.last() == signed(values[3]).last());
    lemma_trim_padded(before[0], text, after[3]);
    components_are_read_back(values, inner_before, inner_after);
}

/// Whether images can be written with an extension.
pub open spec fn is_image_ext(ext: Seq<char>) -> bool {
    ext == "png"@ || ext == "jpg"@ || ext == "jpeg"@ || ext == "tif"@ || ext == "tiff"@ || ext
        == "webp"@ || ext == "bmp"@ || ext == "gif"@ || ext == "pdf"@ || ext == "jxl"@
}

/// The usual extension of a format, in lower case and without dots; a default for any other text.
pub open spec fn image_ext(format: Seq<char>, default: Seq<char>) -> Seq<char> {
    let ext = lower_all(undotted_start(trim(format)));
    if !is_image_ext(ext) {
        default
    } else if ext == "jpeg"@ {
        "jpg"@
    } else if ext == "tiff"@ {
        "tif"@
    } else {
        ext
    }
}

fn known_ext(ext: &str) -> (r: bool)
    ensures
        r == is_image_ext(ext@),
{
    same_text(ext, "png") || same_text(ext, "jpg") || same_text(ext, "jpeg") || same_text(
        ext,
        "tif",
    ) || same_text(ext, "tiff") || same_text(ext, "webp") || same_text(ext, "bmp") || same_text(
        ext,
        "gif",
    ) || same_text(ext, "pdf") || same_text(ext, "jxl")
}

/// The usual extension of a format; a default for any other text.
#[verifier::spinoff_prover]
#[verifier::rlimit(60)]
pub fn normalize_image_ext(format: &str, default: &str) -> (r: String)
    ensures
        lower_all(undotted_start(trim(format@))) == "jpeg"@ ==> r@ == "jpg"@,
        lower_all(undotted_start(trim(format@))) == "tiff"@ ==> r@ == "tif"@,
        ({
            let ext = lower_all(undotted_start(trim(format@)));
            ext == "png"@ || ext == "jpg"@ || ext == "tif"@ || ext == "webp"@ || ext == "bmp"@ || ext == "gif"@
                || ext == "pdf"@ || ext == "jxl"@ ==> r@ == ext
        }),
        r@ == default@ || r@ == "png"@ || r@ == "jpg"@ || r@ == "tif"@ || r@ == "webp"@ || r@ == "bmp"@ || r@
            == "gif"@ || r@ == "pdf"@ || r@ == "jxl"@,
        r@ == image_ext(format@, default@),
{
    proof {
        reveal_strlit("jpeg");
        reveal_strlit("tiff");
        reveal_strlit("webp");
        reveal_strlit("png");
        reveal_strlit("jpg");
        reveal_strlit("tif");
        reveal_strlit("bmp");
        reveal_strlit("gif");
        reveal_strlit("pdf");
        reveal_strlit("jxl");
        assert("jpeg"@[0] == 'j' && "tiff"@[0] == 't' && "webp"@[0] == 'w');
        assert("jpeg"@.len() == 4 && "tiff"@.len() == 4 && "webp"@.len() == 4);
    }
    let chars = chars_of(format);
    let text = undot_start(trimmed(chars.as_slice()));
    let lowered = lower_chars(text);
    let ext = text_of(lowered.as_slice());
    if !known_ext(ext.as_str()) {
        default.to_owned()
    } else if same_text(ext.as_str(), "jpeg") {
        "jpg".to_owned()
    } else if same_text(ext.as_str(), "tiff") {
        "tif".to_owned()
    } else {
        ext
    }
}

/// Validates a readable image, given whether its path is a file and what decoding it gave.
pub fn open_image_file(path: &str, is_file: bool, decoded: Result<ImageBuffer, ScanError>) -> (r:
    Result<String, ScanError>)
    ensures
        outcome_view(r) == (if !is_file {
            Err::<Seq<char>, Failure>(Failure::Other("file not found: "@ + path@))
        } else {
            match decoded {
                Err(error) => Err(error@),
                Ok(_) => Ok(path@),
            }
        }),
{
    if !is_file {
        let mut message = "file not found: ".to_owned();
        message.append(path);
        return Err(ScanError::Other(message));
    }
    match decoded {
        Err(error) => Err(error),
        Ok(_) => Ok(path.to_owned()),
    }
}

/// What a copy of an image gives: the refusal of the controls, the error with which the image was
/// not loaded, or the image on its way to its destination.
pub open spec fn saved_image(
    r: Result<FinalImage, ScanError>,
    extension: Suffix,
    loaded: Result<Picture, Failure>,
    dpi: u32,
    export: Export,
    language: Result<(), Failure>,
    text: Option<Seq<char>>,
) -> bool {
    match prepared_export(extension.same_as("pdf"@), export, language) {
        Err(failure) => r is Err && r->Err_0@ == failure,
        Ok(_) => match loaded {
            Err(failure) => r is Err && r->Err_0@ == failure,
            Ok(picture) => if extension.same_as("pdf"@) {
                match r {
                    Ok(FinalImage::Encode) => false,
                    Ok(FinalImage::Document(document)) => published(
                        Ok(document),
                        seq![picture],
                        image_pdf_choices(Some(dpi), export, text),
                        uncancelled(),
                    ),
                    Err(error) => published(
                        Err(error),
                        seq![picture],
                        image_pdf_choices(Some(dpi), export, text),
                        uncancelled(),
                    ),
                }
            } else {
                r matches Ok(FinalImage::Encode)
            },
        },
    }
}

/// Copies an image through the export path: validated, loaded with its profile applied, and
/// written in the format of the destination.
pub fn save_image_to_with_export_options(
    extension: &Extension,
    loaded: Result<ImageBuffer, ScanError>,
    dpi: u32,
    export: &ExportOptions,
    language: Result<(), ScanError>,
    text: Option<String>,
) -> (r: Result<FinalImage, ScanError>)
    requires
        loaded matches Ok(image) ==> image@.wf(),
    ensures
        saved_image(
            r,
            extension@,
            outcome_view(loaded),
            dpi,
            export@,
            outcome(language),
            opt_text(text),
        ),
{
    match prepare_export_options(extension, export, language) {
        Ok(()) => {},
        Err(error) => {
            return Err(error);
        },
    }
    let never = |_point: PollPoint| -> (stop: bool)
        ensures
            !stop,
        { false };
    match loaded {
        Err(error) => Err(error),
        Ok(image) => {
            let r = save_final_image_with_cancellation(
                extension,
                &image,
                Some(dpi),
                export,
                text,
                never,
            );
            proof {
                let pictures = seq![image@];
                let choices = image_pdf_choices(Some(dpi), export@, opt_text(text));
                if extension@.same_as("pdf"@) {
                    if r is Ok {
                        let document = r->Ok_0->Document_0;
                        lemma_published_uncancelled(Ok(document), pictures, choices, never);
                    } else {
                        lemma_published_uncancelled(Err(r->Err_0), pictures, choices, never);
                    }
                }
            }
            r
        },
    }
}

/// Copies an image through the export path, without any export control.
pub fn save_image_to(extension: &Extension, loaded: Result<ImageBuffer, ScanError>, dpi: u32) -> (r:
    Result<FinalImage, ScanError>)
    requires
        loaded matches Ok(image) ==> image@.wf(),
    ensures
        saved_image(r, extension@, outcome_view(loaded), dpi, plain_export(), Ok(()), None),
{
    let export = ExportOptions::default();
    save_image_to_with_export_options(extension, loaded, dpi, &export, Ok(()), None)
}

} // verus!
