//! Film profiles: catalog, inversion, orange-mask removal.

use crate::error::{joined, outcome_view, Failure, ScanError};
use crate::image::{luma, luma_of, picture_of, ImageBuffer, Picture, PixelFormat};
use crate::text::{chars_of, contains_text, has_prefix, has_text, same_text, starts_with};
use vstd::prelude::*;

verus! {

/// How one film stock is converted. The mask, the contrast and the gamma are in hundredths.
#[derive(Debug)]
pub struct FilmProfile {
    pub id: String,
    pub name: String,
    /// "color_negative", "bw_negative" or "slide".
    pub kind: String,
    pub manufacturer: String,
    pub note: String,
    pub orange_mask: Option<(u32, u32, u32)>,
    pub contrast: u32,
    pub gamma: u32,
}

/// A film profile with its texts as sequences.
pub struct Film {
    pub id: Seq<char>,
    pub name: Seq<char>,
    pub kind: Seq<char>,
    pub manufacturer: Seq<char>,
    pub note: Seq<char>,
    pub orange_mask: Option<(u32, u32, u32)>,
    pub contrast: u32,
    pub gamma: u32,
}

impl View for FilmProfile {
    type V = Film;

    open spec fn view(&self) -> Film {
        Film {
            id: self.id@,
            name: self.name@,
            kind: self.kind@,
            manufacturer: self.manufacturer@,
            note: self.note@,
            orange_mask: self.orange_mask,
            contrast: self.contrast,
            gamma: self.gamma,
        }
    }
}

/// A colour negative.
pub open spec fn film_cn(
    id: Seq<char>,
    name: Seq<char>,
    manufacturer: Seq<char>,
    mask: (u32, u32, u32),
    contrast: u32,
    gamma: u32,
) -> Film {
    Film {
        id,
        name,
        kind: "color_negative"@,
        manufacturer,
        note: name + " color negative profile."@,
        orange_mask: Some(mask),
        contrast,
        gamma,
    }
}

/// A slide.
pub open spec fn film_sl(
    id: Seq<char>,
    name: Seq<char>,
    manufacturer: Seq<char>,
    contrast: u32,
    gamma: u32,
) -> Film {
    Film {
        id,
        name,
        kind: "slide"@,
        manufacturer,
        note: name + " slide/positive profile."@,
        orange_mask: None,
        contrast,
        gamma,
    }
}

/// A black-and-white negative.
pub open spec fn film_bw(
    id: Seq<char>,
    name: Seq<char>,
    manufacturer: Seq<char>,
    contrast: u32,
    gamma: u32,
) -> Film {
    Film {
        id,
        name,
        kind: "bw_negative"@,
        manufacturer,
        note: name + " black-and-white negative profile."@,
        orange_mask: None,
        contrast,
        gamma,
    }
}

fn cn(
    id: &str,
    name: &str,
    manufacturer: &str,
    mask: (u32, u32, u32),
    contrast: u32,
    gamma: u32,
) -> (r: FilmProfile)
    ensures
        r@ == film_cn(id@, name@, manufacturer@, mask, contrast, gamma),
{
    FilmProfile {
        id: id.to_owned(),
        name: name.to_owned(),
        kind: "color_negative".to_owned(),
        manufacturer: manufacturer.to_owned(),
        note: joined(name, " color negative profile."),
        orange_mask: Some(mask),
        contrast,
        gamma,
    }
}

fn sl(id: &str, name: &str, manufacturer: &str, contrast: u32, gamma: u32) -> (r: FilmProfile)
    ensures
        r@ == film_sl(id@, name@, manufacturer@, contrast, gamma),
{
    FilmProfile {
        id: id.to_owned(),
        name: name.to_owned(),
        kind: "slide".to_owned(),
        manufacturer: manufacturer.to_owned(),
        note: joined(name, " slide/positive profile."),
        orange_mask: None,
        contrast,
        gamma,
    }
}

fn bw(id: &str, name: &str, manufacturer: &str, contrast: u32, gamma: u32) -> (r: FilmProfile)
    ensures
        r@ == film_bw(id@, name@, manufacturer@, contrast, gamma),
{
    FilmProfile {
        id: id.to_owned(),
        name: name.to_owned(),
        kind: "bw_negative".to_owned(),
        manufacturer: manufacturer.to_owned(),
        note: joined(name, " black-and-white negative profile."),
        orange_mask: None,
        contrast,
        gamma,
    }
}

/// The film stocks, in the order in which they are listed.
#[verifier::opaque]
pub open spec fn film_catalog() -> Seq<Film> {
    seq![
        film_cn("generic_color_negative"@, "Generic Color Negative"@, "Generic"@, (115, 62, 45), 115, 100),
        film_cn("kodak_gold_200"@, "Kodak Gold 200"@, "Kodak"@, (118, 60, 42), 112, 105),
        film_cn("kodak_gold_100"@, "Kodak Gold 100"@, "Kodak"@, (116, 61, 44), 110, 104),
        film_cn("kodak_gold_400"@, "Kodak Gold 400"@, "Kodak"@, (117, 59, 43), 114, 105),
        film_cn("kodak_portra_160"@, "Kodak Portra 160"@, "Kodak"@, (111, 62, 47), 108, 108),
        film_cn("kodak_portra_400"@, "Kodak Portra 400"@, "Kodak"@, (112, 61, 46), 110, 108),
        film_cn("kodak_portra_800"@, "Kodak Portra 800"@, "Kodak"@, (113, 60, 45), 112, 106),
        film_cn("kodak_ektar_100"@, "Kodak Ektar 100"@, "Kodak"@, (120, 60, 40), 120, 102),
        film_cn("kodak_colorplus_200"@, "Kodak ColorPlus 200"@, "Kodak"@, (117, 59, 44), 114, 104),
        film_cn("kodak_ultramax_400"@, "Kodak UltraMax 400"@, "Kodak"@, (116, 58, 43), 113, 106),
        film_cn("fuji_superia_100"@, "Fuji Superia 100"@, "Fuji"@, (109, 64, 48), 110, 105),
        film_cn("fuji_superia_200"@, "Fuji Superia 200"@, "Fuji"@, (110, 63, 47), 111, 105),
        film_cn("fuji_superia_400"@, "Fuji Superia 400"@, "Fuji"@, (110, 63, 47), 112, 105),
        film_cn("fuji_pro_400h"@, "Fuji Pro 400H"@, "Fuji"@, (108, 62, 48), 108, 110),
        film_cn("agfa_vista_200"@, "Agfa Vista 200"@, "Agfa"@, (114, 61, 45), 116, 103),
        film_cn("cinestill_800t"@, "CineStill 800T"@, "CineStill"@, (105, 58, 70), 118, 100),
        film_cn("lomography_color_400"@, "Lomography Color 400"@, "Lomography"@, (117, 57, 41), 120, 100),
        film_cn("konica_centuria_200"@, "Konica Centuria 200"@, "Konica"@, (114, 60, 44), 113, 104),
        film_cn("generic_consumer_cn"@, "Generic Consumer Color Negative"@, "Generic"@, (116, 60, 44), 114, 104),
        film_cn("generic_portrait_cn"@, "Generic Portrait Color Negative"@, "Generic"@, (111, 62, 47), 109, 108),
        film_sl("generic_slide"@, "Generic Slide"@, "Generic"@, 100, 100),
        film_sl("fuji_velvia_50"@, "Fuji Velvia 50"@, "Fuji"@, 115, 95),
        film_sl("fuji_velvia_100"@, "Fuji Velvia 100"@, "Fuji"@, 112, 97),
        film_sl("fuji_provia_100f"@, "Fuji Provia 100F"@, "Fuji"@, 100, 100),
        film_sl("kodak_ektachrome_e100"@, "Kodak Ektachrome E100"@, "Kodak"@, 105, 105),
        film_sl("kodachrome_64"@, "Kodachrome 64"@, "Kodak"@, 108, 100),
        film_sl("agfa_ct_precisa_100"@, "Agfa CT Precisa 100"@, "Agfa"@, 106, 102),
        film_sl("generic_e6_slide"@, "Generic E-6 Slide"@, "Generic"@, 104, 102),
        film_bw("generic_bw_negative"@, "Generic B&W Negative"@, "Generic"@, 120, 100),
        film_bw("ilford_hp5_plus"@, "Ilford HP5 Plus"@, "Ilford"@, 125, 100),
        film_bw("ilford_fp4_plus"@, "Ilford FP4 Plus"@, "Ilford"@, 115, 105),
        film_bw("ilford_delta_100"@, "Ilford Delta 100"@, "Ilford"@, 128, 96),
        film_bw("ilford_delta_400"@, "Ilford Delta 400"@, "Ilford"@, 130, 95),
        film_bw("kodak_tri_x_400"@, "Kodak Tri-X 400"@, "Kodak"@, 128, 100),
        film_bw("kodak_tmax_100"@, "Kodak T-Max 100"@, "Kodak"@, 130, 98),
        film_bw("kodak_tmax_400"@, "Kodak T-Max 400"@, "Kodak"@, 135, 92),
        film_bw("fuji_acros_100"@, "Fuji Acros 100"@, "Fuji"@, 124, 100),
        film_bw("fomapan_100"@, "Fomapan 100"@, "Foma"@, 120, 102),
        film_bw("fomapan_400"@, "Fomapan 400"@, "Foma"@, 124, 100),
        film_bw("rolle_rp_x_400"@, "Rollei RPX 400"@, "Rollei"@, 126, 100),
        film_cn("kodak_ultramax_800"@, "Kodak UltraMax 800"@, "Kodak"@, (115, 57, 42), 116, 104),
        film_cn("fuji_superia_800"@, "Fuji Superia 800"@, "Fuji"@, (111, 62, 46), 114, 104),
        film_cn("fuji_c200"@, "Fuji C200"@, "Fuji"@, (109, 64, 48), 110, 106),
        film_cn("agfa_vista_100"@, "Agfa Vista 100"@, "Agfa"@, (114, 61, 45), 114, 103),
        film_cn("agfa_vista_400"@, "Agfa Vista 400"@, "Agfa"@, (115, 60, 44), 117, 102),
        film_cn("cinestill_50d"@, "CineStill 50D"@, "CineStill"@, (114, 61, 44), 112, 104),
        film_sl("fuji_astia_100f"@, "Fuji Astia 100F"@, "Fuji"@, 102, 102),
        film_sl("kodachrome_25"@, "Kodachrome 25"@, "Kodak"@, 110, 98),
        film_bw("ilford_pan_f_plus"@, "Ilford Pan F Plus"@, "Ilford"@, 122, 102),
        film_bw("ilford_xp2_super"@, "Ilford XP2 Super"@, "Ilford"@, 118, 104),
        film_bw("fuji_neopan_400"@, "Fuji Neopan 400"@, "Fuji"@, 122, 103),
    ]
}

/// The profiles that a vector holds.
pub open spec fn films(v: Seq<FilmProfile>) -> Seq<Film> {
    v.map_values(|p: FilmProfile| p@)
}

/// The film stocks, in the order in which they are listed.
#[verifier::rlimit(40)]
pub fn list_film_profiles() -> (r: Vec<FilmProfile>)
    ensures
        films(r@) == film_catalog(),
        r@.len() == 51,
{
    let r: Vec<FilmProfile> = vec![
        cn("generic_color_negative", "Generic Color Negative", "Generic", (115, 62, 45), 115, 100),
        cn("kodak_gold_200", "Kodak Gold 200", "Kodak", (118, 60, 42), 112, 105),
        cn("kodak_gold_100", "Kodak Gold 100", "Kodak", (116, 61, 44), 110, 104),
        cn("kodak_gold_400", "Kodak Gold 400", "Kodak", (117, 59, 43), 114, 105),
        cn("kodak_portra_160", "Kodak Portra 160", "Kodak", (111, 62, 47), 108, 108),
        cn("kodak_portra_400", "Kodak Portra 400", "Kodak", (112, 61, 46), 110, 108),
        cn("kodak_portra_800", "Kodak Portra 800", "Kodak", (113, 60, 45), 112, 106),
        cn("kodak_ektar_100", "Kodak Ektar 100", "Kodak", (120, 60, 40), 120, 102),
        cn("kodak_colorplus_200", "Kodak ColorPlus 200", "Kodak", (117, 59, 44), 114, 104),
        cn("kodak_ultramax_400", "Kodak UltraMax 400", "Kodak", (116, 58, 43), 113, 106),
        cn("fuji_superia_100", "Fuji Superia 100", "Fuji", (109, 64, 48), 110, 105),
        cn("fuji_superia_200", "Fuji Superia 200", "Fuji", (110, 63, 47), 111, 105),
        cn("fuji_superia_400", "Fuji Superia 400", "Fuji", (110, 63, 47), 112, 105),
        cn("fuji_pro_400h", "Fuji Pro 400H", "Fuji", (108, 62, 48), 108, 110),
        cn("agfa_vista_200", "Agfa Vista 200", "Agfa", (114, 61, 45), 116, 103),
        cn("cinestill_800t", "CineStill 800T", "CineStill", (105, 58, 70), 118, 100),
        cn("lomography_color_400", "Lomography Color 400", "Lomography", (117, 57, 41), 120, 100),
        cn("konica_centuria_200", "Konica Centuria 200", "Konica", (114, 60, 44), 113, 104),
        cn("generic_consumer_cn", "Generic Consumer Color Negative", "Generic", (116, 60, 44), 114, 104),
        cn("generic_portrait_cn", "Generic Portrait Color Negative", "Generic", (111, 62, 47), 109, 108),
        sl("generic_slide", "Generic Slide", "Generic", 100, 100),
        sl("fuji_velvia_50", "Fuji Velvia 50", "Fuji", 115, 95),
        sl("fuji_velvia_100", "Fuji Velvia 100", "Fuji", 112, 97),
        sl("fuji_provia_100f", "Fuji Provia 100F", "Fuji", 100, 100),
        sl("kodak_ektachrome_e100", "Kodak Ektachrome E100", "Kodak", 105, 105),
        sl("kodachrome_64", "Kodachrome 64", "Kodak", 108, 100),
        sl("agfa_ct_precisa_100", "Agfa CT Precisa 100", "Agfa", 106, 102),
        sl("generic_e6_slide", "Generic E-6 Slide", "Generic", 104, 102),
        bw("generic_bw_negative", "Generic B&W Negative", "Generic", 120, 100),
        bw("ilford_hp5_plus", "Ilford HP5 Plus", "Ilford", 125, 100),
        bw("ilford_fp4_plus", "Ilford FP4 Plus", "Ilford", 115, 105),
        bw("ilford_delta_100", "Ilford Delta 100", "Ilford", 128, 96),
        bw("ilford_delta_400", "Ilford Delta 400", "Ilford", 130, 95),
        bw("kodak_tri_x_400", "Kodak Tri-X 400", "Kodak", 128, 100),
        bw("kodak_tmax_100", "Kodak T-Max 100", "Kodak", 130, 98),
        bw("kodak_tmax_400", "Kodak T-Max 400", "Kodak", 135, 92),
        bw("fuji_acros_100", "Fuji Acros 100", "Fuji", 124, 100),
        bw("fomapan_100", "Fomapan 100", "Foma", 120, 102),
        bw("fomapan_400", "Fomapan 400", "Foma", 124, 100),
        bw("rolle_rp_x_400", "Rollei RPX 400", "Rollei", 126, 100),
        cn("kodak_ultramax_800", "Kodak UltraMax 800", "Kodak", (115, 57, 42), 116, 104),
        cn("fuji_superia_800", "Fuji Superia 800", "Fuji", (111, 62, 46), 114, 104),
        cn("fuji_c200", "Fuji C200", "Fuji", (109, 64, 48), 110, 106),
        cn("agfa_vista_100", "Agfa Vista 100", "Agfa", (114, 61, 45), 114, 103),
        cn("agfa_vista_400", "Agfa Vista 400", "Agfa", (115, 60, 44), 117, 102),
        cn("cinestill_50d", "CineStill 50D", "CineStill", (114, 61, 44), 112, 104),
        sl("fuji_astia_100f", "Fuji Astia 100F", "Fuji", 102, 102),
        sl("kodachrome_25", "Kodachrome 25", "Kodak", 110, 98),
        bw("ilford_pan_f_plus", "Ilford Pan F Plus", "Ilford", 122, 102),
        bw("ilford_xp2_super", "Ilford XP2 Super", "Ilford", 118, 104),
        bw("fuji_neopan_400", "Fuji Neopan 400", "Fuji", 122, 103),
    ];
    proof {
        reveal(film_catalog);
        assert(films(r@) =~= film_catalog());
    }
    r
}

/// The first profile with an id.
pub open spec fn first_film(films: Seq<Film>, id: Seq<char>) -> Option<Film>
    decreases films.len(),
{
    if films.len() == 0 {
        None
    } else if films[0].id == id {
        Some(films[0])
    } else {
        first_film(films.skip(1), id)
    }
}

/// The profile of a film stock, or why there is none.
pub open spec fn film_profile(id: Seq<char>) -> Result<Film, Failure> {
    match first_film(film_catalog(), id) {
        Some(film) => Ok(film),
        None => Err(Failure::Invalid("film profile not found: "@ + id)),
    }
}

/// The profile of a film stock.
pub fn get_film_profile(id: &str) -> (r: Result<FilmProfile, ScanError>)
    ensures
        outcome_view(r) == film_profile(id@),
{
    let mut profiles = list_film_profiles();
    let total: usize = profiles.len();
    let mut i: usize = 0;
    assert(film_catalog().skip(0) =~= film_catalog());
    while i < total
        invariant
            i <= total,
            total == profiles@.len(),
            films(profiles@) == film_catalog(),
            first_film(film_catalog().skip(i as int), id@) == first_film(film_catalog(), id@),
        decreases total - i,
    {
        assert(film_catalog()[i as int] == profiles@[i as int]@);
        if same_text(profiles[i].id.as_str(), id) {
            return Ok(profiles.swap_remove(i));
        }
        assert(film_catalog().skip(i as int).skip(1) =~= film_catalog().skip(i + 1));
        i += 1;
    }
    Err(ScanError::Invalid(joined("film profile not found: ", id)))
}

/// Byte curves of one profile: the gain that removes the orange mask from each colour, and the
/// contrast and gamma that follow it.
#[derive(Debug)]
pub struct FilmCurves {
    pub red: Vec<u8>,
    pub green: Vec<u8>,
    pub blue: Vec<u8>,
    pub tone: Vec<u8>,
}

impl FilmCurves {
    /// Every curve has a value for every byte.
    pub open spec fn wf(&self) -> bool {
        self.red@.len() == 256 && self.green@.len() == 256 && self.blue@.len() == 256
            && self.tone@.len() == 256
    }

    /// The mask curve of a channel.
    pub open spec fn mask(&self, c: int) -> Seq<u8> {
        if c == 0 {
            self.red@
        } else if c == 1 {
            self.green@
        } else {
            self.blue@
        }
    }
}

/// A colour byte after inversion, mask removal and tone.
pub open spec fn film_tone(v: u8, c: int, bpp: int, film: Film, curves: FilmCurves) -> u8 {
    let positive = if contains_text(film.kind, "negative"@) {
        (255 - v) as u8
    } else {
        v
    };
    let unmasked = if film.orange_mask is Some && bpp >= 3 {
        curves.mask(c)[positive as int]
    } else {
        positive
    };
    curves.tone@[unmasked as int]
}

/// The byte at a place of the converted image: an alpha byte, and a byte that belongs to no whole
/// pixel, stays as it was.
pub open spec fn film_byte(data: Seq<u8>, k: int, bpp: int, film: Film, curves: FilmCurves) -> u8 {
    let c = k % bpp;
    let base = k - c;
    if c >= 3 || base + bpp > data.len() {
        data[k]
    } else if starts_with(film.kind, "bw"@) && bpp >= 3 {
        luma(
            film_tone(data[base], 0, bpp, film, curves),
            film_tone(data[base + 1], 1, bpp, film, curves),
            film_tone(data[base + 2], 2, bpp, film, curves),
        )
    } else {
        film_tone(data[k], c, bpp, film, curves)
    }
}

/// The bytes of the converted image.
pub open spec fn film_data(data: Seq<u8>, bpp: int, film: Film, curves: FilmCurves) -> Seq<u8> {
    Seq::new(data.len(), |k: int| film_byte(data, k, bpp, film, curves))
}

fn tone_of(
    v: u8,
    c: usize,
    negative: bool,
    masked: bool,
    curves: &FilmCurves,
    Ghost(bpp): Ghost<int>,
    Ghost(film): Ghost<Film>,
) -> (r: u8)
    requires
        curves.wf(),
        c < 3,
        negative == contains_text(film.kind, "negative"@),
        masked == (film.orange_mask is Some && bpp >= 3),
    ensures
        r == film_tone(v, c as int, bpp, film, *curves),
{
    let positive: u8 = if negative {
        255 - v
    } else {
        v
    };
    let unmasked: u8 = if masked {
        if c == 0 {
            curves.red[positive as usize]
        } else if c == 1 {
            curves.green[positive as usize]
        } else {
            curves.blue[positive as usize]
        }
    } else {
        positive
    };
    curves.tone[unmasked as usize]
}

/// Converts a film scan with a profile: inversion of a negative, orange-mask removal, contrast and
/// gamma, and gray for black-and-white film. The curves are those of the profile.
pub fn convert_film(image: &ImageBuffer, profile_id: &str, curves: &FilmCurves) -> (r: Result<
    ImageBuffer,
    ScanError,
>)
    requires
        curves.wf(),
    ensures
        outcome_view(r) == match film_profile(profile_id@) {
            Err(failure) => Err(failure),
            Ok(film) => picture_of(
                image.width,
                image.height,
                image.pixel_format,
                film_data(image.data@, image.pixel_format.spec_bpp(), film, *curves),
            ),
        },
{
    let profile = match get_film_profile(profile_id) {
        Ok(profile) => profile,
        Err(error) => {
            return Err(error);
        },
    };
    let ghost film = profile@;
    let bpp: usize = image.bpp();
    let kind = chars_of(profile.kind.as_str());
    let negative = has_text(&kind, &chars_of("negative"));
    let gray = has_prefix(&kind, &chars_of("bw")) && bpp >= 3;
    let masked = profile.orange_mask.is_some() && bpp >= 3;
    let total: usize = image.data.len();
    let ghost goal = film_data(image.data@, bpp as int, film, *curves);
    let mut out: Vec<u8> = Vec::new();
    let mut k: usize = 0;
    while k < total
        invariant
            curves.wf(),
            total == image.data@.len(),
            bpp == image.pixel_format.spec_bpp(),
            1 <= bpp <= 4,
            negative == contains_text(film.kind, "negative"@),
            gray == (starts_with(film.kind, "bw"@) && bpp >= 3),
            masked == (film.orange_mask is Some && bpp >= 3),
            goal == film_data(image.data@, bpp as int, film, *curves),
            k <= total,
            out@ == goal.take(k as int),
        decreases total - k,
    {
        let c: usize = k % bpp;
        let base: usize = k - c;
        let byte: u8 = if c >= 3 || total - base < bpp {
            image.data[k]
        } else if gray {
            let red: u8 = tone_of(
                image.data[base],
                0,
                negative,
                masked,
                curves,
                Ghost(bpp as int),
                Ghost(film),
            );
            let green: u8 = tone_of(
                image.data[base + 1],
                1,
                negative,
                masked,
                curves,
                Ghost(bpp as int),
                Ghost(film),
            );
            let blue: u8 = tone_of(
                image.data[base + 2],
                2,
                negative,
                masked,
                curves,
                Ghost(bpp as int),
                Ghost(film),
            );
            luma_of(red, green, blue)
        } else {
            tone_of(image.data[k], c, negative, masked, curves, Ghost(bpp as int), Ghost(film))
        };
        out.push(byte);
        k += 1;
        assert(out@ =~= goal.take(k as int));
    }
    assert(out@ =~= goal);
    ImageBuffer::new(image.width, image.height, image.pixel_format, out)
}

/// Conversion keeps the size and the format, and the alpha of every pixel.
pub proof fn film_keeps_alpha(p: Picture, film: Film, curves: FilmCurves, x: int, y: int)
    requires
        p.wf(),
        p.pixel_format == PixelFormat::Rgba8,
        0 <= x < p.width,
        0 <= y < p.height,
    ensures
        picture_of(p.width, p.height, p.pixel_format, film_data(p.data, 4, film, curves)) matches Ok(
            q,
        ) && q.wf() && q.width == p.width && q.height == p.height && q.pixel_format
            == p.pixel_format && q.at(x, y, 3) == p.at(x, y, 3),
{
    crate::geometry::lemma_wf(p);
    crate::geometry::lemma_place(p.width as int, p.height as int, 4, x, y, 3);
}

/// What conversion makes of one color byte, by the kind of the film: a slide is toned; a negative is
/// taken from 255 before, and a color negative loses the orange mask of its channel in between.
pub open spec fn is_toned(
    kind: Seq<char>,
    masked: bool,
    curves: FilmCurves,
    c: int,
    before: u8,
    after: u8,
) -> bool {
    let light = if kind == "slide"@ {
        before as int
    } else {
        255 - before
    };
    let clean = if !masked {
        light
    } else if c == 0 {
        curves.red@[light] as int
    } else if c == 1 {
        curves.green@[light] as int
    } else {
        curves.blue@[light] as int
    };
    after == curves.tone@[clean]
}

/// A film is of one of three kinds, and only color negatives have a mask.
pub open spec fn is_stock(film: Film) -> bool {
    ||| film.kind == "color_negative"@ && film.orange_mask is Some
    ||| film.kind == "bw_negative"@ && film.orange_mask is None
    ||| film.kind == "slide"@ && film.orange_mask is None
}

/// Every film of the catalog is of one of the three kinds.
pub proof fn films_are_of_three_kinds(i: int)
    requires
        0 <= i < film_catalog().len(),
    ensures
        is_stock(film_catalog()[i]),
        100 <= film_catalog()[i].contrast <= 135,
        92 <= film_catalog()[i].gamma <= 110,
        film_catalog()[i].orange_mask matches Some(mask) ==> 100 < mask.0 <= 120 && 55 < mask.1 < 65
            && 40 <= mask.2 <= 70,
{
    reveal(film_catalog);
}

proof fn lemma_kinds()
    ensures
        contains_text("color_negative"@, "negative"@),
        contains_text("bw_negative"@, "negative"@),
        !contains_text("slide"@, "negative"@),
        starts_with("bw_negative"@, "bw"@),
        !starts_with("color_negative"@, "bw"@),
        !starts_with("slide"@, "bw"@),
{
    reveal_strlit("color_negative");
    reveal_strlit("bw_negative");
    reveal_strlit("slide");
    reveal_strlit("negative");
    reveal_strlit("bw");
    assert("color_negative"@.subrange(6, 6int + "negative"@.len()) =~= "negative"@);
    assert("bw_negative"@.subrange(3, 3int + "negative"@.len()) =~= "negative"@);
    assert("bw_negative"@.take(2) =~= "bw"@);
    assert("color_negative"@.take(2)[0] == 'c');
    assert("slide"@.take(2)[0] == 's');
}

/// Each pixel of a converted picture follows from the same pixel of the scan alone. Of color film each
/// color byte is toned by itself; of black-and-white film all three are the luma of the pixel's own
/// toned colors; alpha stays.
pub proof fn films_convert_pixel_by_pixel(
    p: Picture,
    film: Film,
    curves: FilmCurves,
    q: Picture,
    x: int,
    y: int,
)
    requires
        p.wf(),
        curves.wf(),
        is_stock(film),
        picture_of(
            p.width,
            p.height,
            p.pixel_format,
            film_data(p.data, p.pixel_format.spec_bpp(), film, curves),
        ) == Ok::<Picture, Failure>(q),
        0 <= x < p.width,
        0 <= y < p.height,
    ensures
        q.width == p.width && q.height == p.height && q.pixel_format == p.pixel_format,
        p.pixel_format == PixelFormat::Rgba8 ==> q.at(x, y, 3) == p.at(x, y, 3),
        p.pixel_format == PixelFormat::Gray8 ==> is_toned(
            film.kind,
            false,
            curves,
            0,
            p.at(x, y, 0),
            q.at(x, y, 0),
        ),
        p.pixel_format != PixelFormat::Gray8 && film.kind != "bw_negative"@ ==> forall|c: int|
            0 <= c < 3 ==> is_toned(
                film.kind,
                film.kind == "color_negative"@,
                curves,
                c,
                p.at(x, y, c),
                #[trigger] q.at(x, y, c),
            ),
        p.pixel_format != PixelFormat::Gray8 && film.kind == "bw_negative"@ ==> forall|c: int|
            0 <= c < 3 ==> #[trigger] q.at(x, y, c) == (77 * curves.tone@[255 - p.at(x, y, 0)] + 150
                * curves.tone@[255 - p.at(x, y, 1)] + 29 * curves.tone@[255 - p.at(x, y, 2)]) / 256,
{
    lemma_kinds();
    reveal_strlit("color_negative");
    reveal_strlit("bw_negative");
    reveal_strlit("slide");
    assert("color_negative"@.len() != "bw_negative"@.len() && "slide"@.len() == 5);
    crate::geometry::lemma_wf(p);
    let b = p.pixel_format.spec_bpp();
    let w = p.width as int;
    let h = p.height as int;
    let base = (y * w + x) * b;
    assert forall|c: int| 0 <= c < b implies q.at(x, y, c) == film_byte(
        p.data,
        base + c,
        b,
        film,
        curves,
    ) && (base + c) % b == c && base + b <= p.data.len() by {
        crate::geometry::lemma_place(w, h, b, x, y, c);
        crate::geometry::lemma_place(w, h, b, x, y, b - 1);
    }
    if p.pixel_format == PixelFormat::Gray8 {
        assert(q.at(x, y, 0) == film_byte(p.data, base + 0, b, film, curves));
    } else {
        assert forall|c: int| 0 <= c < 3 implies #[trigger] q.at(x, y, c) == film_byte(
            p.data,
            base + c,
            b,
            film,
            curves,
        ) by {}
        if p.pixel_format == PixelFormat::Rgba8 {
            assert(q.at(x, y, 3) == film_byte(p.data, base + 3, b, film, curves));
        }
    }
}

/// Two scans that agree at a pixel have conversions that agree there.
pub proof fn equal_pixels_convert_equally(
    a: Picture,
    b: Picture,
    film: Film,
    curves: FilmCurves,
    x: int,
    y: int,
    c: int,
)
    requires
        a.wf(),
        b.wf(),
        a.width == b.width,
        a.height == b.height,
        a.pixel_format == b.pixel_format,
        0 <= x < a.width,
        0 <= y < a.height,
        0 <= c < a.pixel_format.spec_bpp(),
        forall|k: int|
            0 <= k < a.pixel_format.spec_bpp() ==> #[trigger] a.at(x, y, k) == b.at(x, y, k),
    ensures
        ({
            let n = a.pixel_format.spec_bpp();
            let p = Picture { data: film_data(a.data, n, film, curves), ..a };
            let q = Picture { data: film_data(b.data, n, film, curves), ..b };
            p.at(x, y, c) == q.at(x, y, c)
        }),
{
    crate::geometry::lemma_wf(a);
    crate::geometry::lemma_wf(b);
    let n = a.pixel_format.spec_bpp();
    let w = a.width as int;
    let h = a.height as int;
    crate::geometry::lemma_place(w, h, n, x, y, c);
    crate::geometry::lemma_place(w, h, n, x, y, 0);
    crate::geometry::lemma_place(w, h, n, x, y, n - 1);
    assert(a.at(x, y, c) == b.at(x, y, c));
    assert(a.at(x, y, 0) == b.at(x, y, 0));
    if n >= 3 {
        assert(a.at(x, y, 1) == b.at(x, y, 1));
        assert(a.at(x, y, 2) == b.at(x, y, 2));
    }
}

proof fn lemma_first_film(films: Seq<Film>, id: Seq<char>)
    ensures
        first_film(films, id) matches Some(film) ==> film.id == id && films.contains(film),
        first_film(films, id) is None ==> forall|i: int|
            0 <= i < films.len() ==> (#[trigger] films[i]).id != id,
    decreases films.len(),
{
    if films.len() > 0 {
        if films[0].id == id {
            assert(films.contains(films[0]));
        } else {
            let rest = films.skip(1);
            lemma_first_film(rest, id);
            if let Some(film) = first_film(rest, id) {
                let k = choose|k: int| 0 <= k < rest.len() && rest[k] == film;
                assert(films[k + 1] == film);
            } else {
                assert forall|i: int| 0 <= i < films.len() implies (#[trigger] films[i]).id != id by {
                    if i > 0 {
                        assert(rest[i - 1] == films[i]);
                    }
                }
            }
        }
    }
}

/// The profile of a film stock is the one of the catalog that has its id, and every id of the catalog has
/// one.
pub proof fn profiles_have_their_id(id: Seq<char>, i: int)
    ensures
        film_profile(id) matches Ok(film) ==> film.id == id && film_catalog().contains(film),
        0 <= i < film_catalog().len() && film_catalog()[i].id == id ==> film_profile(id) is Ok,
{
    lemma_first_film(film_catalog(), id);
}

} // verus!
