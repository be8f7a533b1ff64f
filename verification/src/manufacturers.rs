//! Open scanner manufacturer catalog: public USB vendor numbers and name tokens.

use crate::text::{
    chars_of, contains_text, copy_strings, has_text, is_space, lemma_trim_nothing, lower, lower_all,
    lower_chars, same_chars, same_text, strings, text_of, trim, trimmed,
};
use crate::processing::{opt_text, smaller};
use vstd::prelude::*;
use vstd::slice::slice_subrange;
use vstd::string::StringExecFns;
use vstd::utf8::encode_utf8;

verus! {

/// What a manufacturer's devices commonly offer.
#[derive(Debug)]
pub struct SupportProfile {
    pub media_kinds: Vec<String>,
    pub supports_adf: bool,
    pub supports_ir: bool,
    pub preferred_backends: Vec<String>,
    pub notes: String,
}

/// One manufacturer of the catalog.
#[derive(Debug)]
pub struct ManufacturerEntry {
    pub id: String,
    pub canonical_name: String,
    pub usb_vids: Vec<String>,
    pub name_tokens: Vec<String>,
    pub profile: SupportProfile,
}

/// One manufacturer, with its texts as sequences.
pub struct Maker {
    pub id: Seq<char>,
    pub canonical_name: Seq<char>,
    pub usb_vids: Seq<Seq<char>>,
    pub name_tokens: Seq<Seq<char>>,
    pub media_kinds: Seq<Seq<char>>,
    pub supports_adf: bool,
    pub supports_ir: bool,
    pub preferred_backends: Seq<Seq<char>>,
    pub notes: Seq<char>,
}

impl View for ManufacturerEntry {
    type V = Maker;

    open spec fn view(&self) -> Maker {
        Maker {
            id: self.id@,
            canonical_name: self.canonical_name@,
            usb_vids: strings(self.usb_vids@),
            name_tokens: strings(self.name_tokens@),
            media_kinds: strings(self.profile.media_kinds@),
            supports_adf: self.profile.supports_adf,
            supports_ir: self.profile.supports_ir,
            preferred_backends: strings(self.profile.preferred_backends@),
            notes: self.profile.notes@,
        }
    }
}

impl Clone for ManufacturerEntry {
    fn clone(&self) -> (r: Self)
        ensures
            r@ == self@,
    {
        ManufacturerEntry {
            id: self.id.clone(),
            canonical_name: self.canonical_name.clone(),
            usb_vids: copy_strings(&self.usb_vids),
            name_tokens: copy_strings(&self.name_tokens),
            profile: SupportProfile {
                media_kinds: copy_strings(&self.profile.media_kinds),
                supports_adf: self.profile.supports_adf,
                supports_ir: self.profile.supports_ir,
                preferred_backends: copy_strings(&self.profile.preferred_backends),
                notes: self.profile.notes.clone(),
            },
        }
    }
}

/// What manufacturers hold.
pub open spec fn makers_of(v: Seq<ManufacturerEntry>) -> Seq<Maker> {
    v.map_values(|x: ManufacturerEntry| x@)
}

// ---------------------------------------------------------------------------
// The catalog
// ---------------------------------------------------------------------------

/// A manufacturer of the catalog: all of them are reached through the same backends.
pub open spec fn maker(
    id: Seq<char>,
    canonical_name: Seq<char>,
    vid: Seq<char>,
    name_tokens: Seq<Seq<char>>,
    media_kinds: Seq<Seq<char>>,
    supports_adf: bool,
    supports_ir: bool,
    notes: Seq<char>,
) -> Maker {
    Maker {
        id,
        canonical_name,
        usb_vids: seq![vid],
        name_tokens,
        media_kinds,
        supports_adf,
        supports_ir,
        preferred_backends: seq!["wia"@, "sane"@, "escl"@],
        notes,
    }
}

/// The manufacturers that the library knows.
#[verifier::opaque]
pub open spec fn maker_catalog() -> Seq<Maker> {
    seq![
        maker(
            "epson"@,
            "Epson"@,
            "04b8"@,
            seq!["epson"@, "perfection"@, "workforce"@],
            seq!["reflective"@, "film"@],
            true,
            true,
            "Film/transparency + eSCL common."@,
        ),
        maker(
            "canon"@,
            "Canon"@,
            "04a9"@,
            seq!["canon"@, "canoscan"@, "pixma"@],
            seq!["reflective"@, "film"@],
            true,
            false,
            "CanoScan film adapters."@,
        ),
        maker(
            "hp"@,
            "HP"@,
            "03f0"@,
            seq!["hp"@, "scanjet"@, "officejet"@],
            seq!["reflective"@],
            true,
            false,
            "ScanJet/OfficeJet."@,
        ),
        maker(
            "brother"@,
            "Brother"@,
            "04f9"@,
            seq!["brother"@, "ads-"@, "dcp-"@],
            seq!["reflective"@],
            true,
            false,
            "ADF document scanners."@,
        ),
        maker(
            "fujitsu"@,
            "Fujitsu"@,
            "04c5"@,
            seq!["fujitsu"@, "fi-"@, "scansnap"@],
            seq!["reflective"@],
            true,
            false,
            "fi- / ScanSnap document ADF."@,
        ),
        maker(
            "plustek"@,
            "Plustek"@,
            "07b3"@,
            seq!["plustek"@, "opticfilm"@],
            seq!["reflective"@, "film"@],
            false,
            true,
            "OpticFilm dedicated film scanners."@,
        ),
        maker(
            "nikon"@,
            "Nikon"@,
            "04b0"@,
            seq!["nikon"@, "coolscan"@],
            seq!["film"@],
            false,
            true,
            "Coolscan LS film scanners."@,
        ),
        maker(
            "kodak"@,
            "Kodak"@,
            "040a"@,
            seq!["kodak"@, "alaris"@],
            seq!["reflective"@],
            true,
            false,
            "Document production scanners."@,
        ),
        maker(
            "mustek"@,
            "Mustek"@,
            "055f"@,
            seq!["mustek"@, "bearpaw"@],
            seq!["reflective"@],
            false,
            false,
            "Consumer flatbeds."@,
        ),
        maker(
            "samsung"@,
            "Samsung"@,
            "04e8"@,
            seq!["samsung"@, "scx-"@, "xpress"@],
            seq!["reflective"@],
            true,
            false,
            "MFP scanners."@,
        ),
    ]
}

fn one(a: &str) -> (r: Vec<String>)
    ensures
        strings(r@) == seq![a@],
{
    let mut r: Vec<String> = Vec::new();
    r.push(a.to_owned());
    assert(strings(r@) =~= seq![a@]);
    r
}

fn two(a: &str, b: &str) -> (r: Vec<String>)
    ensures
        strings(r@) == seq![a@, b@],
{
    let mut r: Vec<String> = Vec::new();
    r.push(a.to_owned());
    r.push(b.to_owned());
    assert(strings(r@) =~= seq![a@, b@]);
    r
}

fn three(a: &str, b: &str, c: &str) -> (r: Vec<String>)
    ensures
        strings(r@) == seq![a@, b@, c@],
{
    let mut r: Vec<String> = Vec::new();
    r.push(a.to_owned());
    r.push(b.to_owned());
    r.push(c.to_owned());
    assert(strings(r@) =~= seq![a@, b@, c@]);
    r
}

fn entry(
    id: &str,
    canonical_name: &str,
    vid: &str,
    name_tokens: Vec<String>,
    media_kinds: Vec<String>,
    supports_adf: bool,
    supports_ir: bool,
    notes: &str,
) -> (r: ManufacturerEntry)
    ensures
        r@ == maker(
            id@,
            canonical_name@,
            vid@,
            strings(name_tokens@),
            strings(media_kinds@),
            supports_adf,
            supports_ir,
            notes@,
        ),
{
    ManufacturerEntry {
        id: id.to_owned(),
        canonical_name: canonical_name.to_owned(),
        usb_vids: one(vid),
        name_tokens,
        profile: SupportProfile {
            media_kinds,
            supports_adf,
            supports_ir,
            preferred_backends: three("wia", "sane", "escl"),
            notes: notes.to_owned(),
        },
    }
}

/// The manufacturers that the library knows.
pub fn list_manufacturers() -> (r: Vec<ManufacturerEntry>)
    ensures
        makers_of(r@) == maker_catalog(),
{
    let mut r: Vec<ManufacturerEntry> = Vec::new();
    r.push(
        entry(
            "epson",
            "Epson",
            "04b8",
            three("epson", "perfection", "workforce"),
            two("reflective", "film"),
            true,
            true,
            "Film/transparency + eSCL common.",
        ),
    );
    r.push(
        entry(
            "canon",
            "Canon",
            "04a9",
            three("canon", "canoscan", "pixma"),
            two("reflective", "film"),
            true,
            false,
            "CanoScan film adapters.",
        ),
    );
    r.push(
        entry(
            "hp",
            "HP",
            "03f0",
            three("hp", "scanjet", "officejet"),
            one("reflective"),
            true,
            false,
            "ScanJet/OfficeJet.",
        ),
    );
    r.push(
        entry(
            "brother",
            "Brother",
            "04f9",
            three("brother", "ads-", "dcp-"),
            one("reflective"),
            true,
            false,
            "ADF document scanners.",
        ),
    );
    r.push(
        entry(
            "fujitsu",
            "Fujitsu",
            "04c5",
            three("fujitsu", "fi-", "scansnap"),
            one("reflective"),
            true,
            false,
            "fi- / ScanSnap document ADF.",
        ),
    );
    r.push(
        entry(
            "plustek",
            "Plustek",
            "07b3",
            two("plustek", "opticfilm"),
            two("reflective", "film"),
            false,
            true,
            "OpticFilm dedicated film scanners.",
        ),
    );
    r.push(
        entry(
            "nikon",
            "Nikon",
            "04b0",
            two("nikon", "coolscan"),
            one("film"),
            false,
            true,
            "Coolscan LS film scanners.",
        ),
    );
    r.push(
        entry(
            "kodak",
            "Kodak",
            "040a",
            two("kodak", "alaris"),
            one("reflective"),
            true,
            false,
            "Document production scanners.",
        ),
    );
    r.push(
        entry(
            "mustek",
            "Mustek",
            "055f",
            two("mustek", "bearpaw"),
            one("reflective"),
            false,
            false,
            "Consumer flatbeds.",
        ),
    );
    r.push(
        entry(
            "samsung",
            "Samsung",
            "04e8",
            three("samsung", "scx-", "xpress"),
            one("reflective"),
            true,
            false,
            "MFP scanners.",
        ),
    );
    proof {
        reveal(maker_catalog);
        assert(makers_of(r@) =~= maker_catalog());
    }
    r
}

// ---------------------------------------------------------------------------
// Matching
// ---------------------------------------------------------------------------

/// What `char::is_alphanumeric` says of a character.
pub uninterp spec fn alphanumeric(c: char) -> bool;

/// `char::is_alphanumeric`: whether a character has the Alphabetic or a numeric property. Of the
/// ASCII characters letters and digits do, and no others.
#[verifier::external_body]
fn is_alphanumeric(c: char) -> (r: bool)
    ensures
        r == alphanumeric(c),
        (c as u32) < 128 ==> r == ('0' <= c <= '9' || 'a' <= c <= 'z' || 'A' <= c <= 'Z'),
{
    c.is_alphanumeric()
}

/// A letter or a digit: among the ASCII characters those that are named here, beyond them what
/// `char::is_alphanumeric` says.
pub open spec fn is_word_char(c: char) -> bool {
    if (c as u32) < 128 {
        '0' <= c <= '9' || 'a' <= c <= 'z' || 'A' <= c <= 'Z'
    } else {
        alphanumeric(c)
    }
}

fn word_char(c: char) -> (r: bool)
    ensures
        r == is_word_char(c),
{
    is_alphanumeric(c)
}

/// A hexadecimal digit.
pub open spec fn is_hex(c: char) -> bool {
    '0' <= c <= '9' || 'a' <= c <= 'f' || 'A' <= c <= 'F'
}

/// The hexadecimal digits of a text.
pub open spec fn hex_digits(s: Seq<char>) -> Seq<char>
    decreases s.len(),
{
    if s.len() == 0 {
        Seq::empty()
    } else if is_hex(s.last()) {
        hex_digits(s.drop_last()).push(s.last())
    } else {
        hex_digits(s.drop_last())
    }
}

/// The first four hexadecimal digits of a text, or as many as it has.
pub open spec fn vid_of(s: Seq<char>) -> Seq<char> {
    hex_digits(s).take(smaller(4, hex_digits(s).len() as int))
}

fn extract_vid(s: &[char]) -> (r: Vec<char>)
    ensures
        r@ == vid_of(s@),
{
    let mut r: Vec<char> = Vec::new();
    let mut i: usize = 0;
    while i < s.len()
        invariant
            i <= s@.len(),
            r@ == vid_of(s@.take(i as int)),
        decreases s@.len() - i,
    {
        let c = s[i];
        let ghost before = hex_digits(s@.take(i as int));
        assert(s@.take(i + 1).drop_last() =~= s@.take(i as int));
        if ('0' <= c && c <= '9') || ('a' <= c && c <= 'f') || ('A' <= c && c <= 'F') {
            assert(hex_digits(s@.take(i + 1)) == before.push(c));
            if r.len() < 4 {
                assert(r@ =~= before);
                r.push(c);
            }
        }
        i += 1;
        assert(r@ =~= vid_of(s@.take(i as int)));
    }
    assert(s@.take(s@.len() as int) =~= s@);
    r
}

/// Whether a word stands in a text at a place, with no letter or digit before or behind it.
pub open spec fn word_at(s: Seq<char>, word: Seq<char>, i: int) -> bool {
    &&& 0 <= i <= s.len() - word.len()
    &&& s.subrange(i, i + word.len()) == word
    &&& (i == 0 || !is_word_char(s[i - 1]))
    &&& (i + word.len() == s.len() || !is_word_char(s[i + word.len() as int]))
    &&& forall|k: int| 0 <= k < word.len() ==> is_word_char(#[trigger] word[k])
}

/// Whether a word stands in a text as a word of its own.
pub open spec fn has_word(s: Seq<char>, word: Seq<char>) -> bool {
    exists|i: int| #[trigger] word_at(s, word, i)
}

fn word_stands_at(s: &[char], word: &[char], i: usize) -> (r: bool)
    requires
        i <= s@.len() - word@.len(),
    ensures
        r == word_at(s@, word@, i as int),
{
    let total: usize = s.len();
    let end: usize = i + word.len();
    let part = slice_subrange(s, i, end);
    assert(part@ =~= s@.subrange(i as int, i + word@.len()));
    if !same_chars(part, word) {
        return false;
    }
    if i > 0 && word_char(s[i - 1]) {
        return false;
    }
    if end < total && word_char(s[end]) {
        return false;
    }
    let mut k: usize = 0;
    while k < word.len()
        invariant
            k <= word@.len(),
            forall|j: int| 0 <= j < k ==> is_word_char(#[trigger] word@[j]),
        decreases word@.len() - k,
    {
        if !word_char(word[k]) {
            return false;
        }
        k += 1;
    }
    true
}

fn finds_word(s: &[char], word: &[char]) -> (r: bool)
    ensures
        r == has_word(s@, word@),
{
    if s.len() < word.len() {
        return false;
    }
    let last: usize = s.len() - word.len();
    let mut i: usize = 0;
    loop
        invariant
            i <= last,
            last == s@.len() - word@.len(),
            forall|j: int| 0 <= j < i ==> !#[trigger] word_at(s@, word@, j),
        decreases last - i,
    {
        if word_stands_at(s, word, i) {
            return true;
        }
        if i == last {
            return false;
        }
        i += 1;
    }
}

/// Whether a query, in lower case, holds a name token: a long one anywhere, a short one as a word
/// of its own.
pub open spec fn token_match(lower_query: Seq<char>, token: Seq<char>) -> bool {
    let lowered = lower_all(token);
    if encode_utf8(lowered).len() > 3 {
        contains_text(lower_query, lowered)
    } else {
        has_word(lower_query, lowered)
    }
}

fn token_matches(lower_query: &[char], token: &str) -> (r: bool)
    ensures
        r == token_match(lower_query@, token@),
{
    let chars = chars_of(token);
    let lowered = lower_chars(chars.as_slice());
    let text = text_of(lowered.as_slice());
    if text.as_str().as_bytes().len() > 3 {
        has_text(lower_query, lowered.as_slice())
    } else {
        finds_word(lower_query, lowered.as_slice())
    }
}

/// Whether a manufacturer has one of its tokens in the query.
pub open spec fn named_in(maker: Maker, lower_query: Seq<char>) -> bool {
    exists|i: int|
        0 <= i < maker.name_tokens.len() && token_match(
            lower_query,
            #[trigger] maker.name_tokens[i],
        )
}

/// Whether a character does not occur in a text.
pub open spec fn lacks(s: Seq<char>, c: char) -> bool {
    forall|i: int| 0 <= i < s.len() ==> #[trigger] s[i] != c
}

/// The first manufacturer from a place on that has a vendor number.
pub open spec fn first_by_vid(makers: Seq<Maker>, vid: Seq<char>, from: int) -> Option<Maker>
    decreases makers.len() - from,
{
    if from < 0 || from >= makers.len() {
        None
    } else if makers[from].usb_vids.contains(vid) {
        Some(makers[from])
    } else {
        first_by_vid(makers, vid, from + 1)
    }
}

/// The first manufacturer from a place on that is named in a query.
pub open spec fn first_by_name(makers: Seq<Maker>, lower_query: Seq<char>, from: int) -> Option<Maker>
    decreases makers.len() - from,
{
    if from < 0 || from >= makers.len() {
        None
    } else if named_in(makers[from], lower_query) {
        Some(makers[from])
    } else {
        first_by_name(makers, lower_query, from + 1)
    }
}

// ---------------------------------------------------------------------------
// Resolution
// ---------------------------------------------------------------------------

/// What a query was resolved to.
#[derive(Debug)]
pub struct ResolveResult {
    pub status: String,
    pub query: String,
    pub matched_by: Option<String>,
    pub message: String,
    pub manufacturer: Option<ManufacturerEntry>,
}

/// What a query was resolved to.
pub struct Resolution {
    pub status: Seq<char>,
    pub query: Seq<char>,
    pub matched_by: Option<Seq<char>>,
    pub message: Seq<char>,
    pub manufacturer: Option<Maker>,
}

impl View for ResolveResult {
    type V = Resolution;

    open spec fn view(&self) -> Resolution {
        Resolution {
            status: self.status@,
            query: self.query@,
            matched_by: opt_text(self.matched_by),
            message: self.message@,
            manufacturer: match self.manufacturer {
                Some(entry) => Some(entry@),
                None => None,
            },
        }
    }
}

/// The resolution of a query that names no manufacturer.
pub open spec fn unresolved(query: Seq<char>, message: Seq<char>) -> Resolution {
    Resolution {
        status: "unknown"@,
        query,
        matched_by: None,
        message,
        manufacturer: None,
    }
}

/// The manufacturer that a query has the vendor number of, where it has four hexadecimal digits.
pub open spec fn resolved_by_vid(makers: Seq<Maker>, lower_query: Seq<char>) -> Option<Maker> {
    if vid_of(lower_query).len() == 4 {
        first_by_vid(makers, vid_of(lower_query), 0)
    } else {
        None
    }
}

/// The resolution of a query: by vendor number, then by name.
pub open spec fn resolution(query: Seq<char>) -> Resolution {
    let q = trim(query);
    let lowered = lower_all(q);
    if q.len() == 0 {
        unresolved(q, "empty query"@)
    } else {
        match resolved_by_vid(maker_catalog(), lowered) {
            Some(maker) => Resolution {
                status: "ok"@,
                query: q,
                matched_by: Some("vid"@),
                message: "matched USB VID "@ + vid_of(lowered),
                manufacturer: Some(maker),
            },
            None => match first_by_name(maker_catalog(), lowered, 0) {
                Some(maker) => Resolution {
                    status: "ok"@,
                    query: q,
                    matched_by: Some("name_token"@),
                    message: "matched name token for "@ + maker.canonical_name,
                    manufacturer: Some(maker),
                },
                None => unresolved(q, "no catalog manufacturer matched"@),
            },
        }
    }
}

fn unknown_result(query: String, message: &str) -> (r: ResolveResult)
    ensures
        r@ == unresolved(query@, message@),
{
    ResolveResult {
        status: "unknown".to_owned(),
        query,
        matched_by: None,
        message: message.to_owned(),
        manufacturer: None,
    }
}

fn holds_text(list: &Vec<String>, text: &str) -> (r: bool)
    ensures
        r == strings(list@).contains(text@),
{
    let mut i: usize = 0;
    while i < list.len()
        invariant
            i <= list@.len(),
            forall|j: int| 0 <= j < i ==> #[trigger] strings(list@)[j] != text@,
        decreases list@.len() - i,
    {
        assert(strings(list@)[i as int] == list@[i as int]@);
        if same_text(list[i].as_str(), text) {
            return true;
        }
        i += 1;
    }
    false
}

fn is_named_in(entry: &ManufacturerEntry, lower_query: &[char]) -> (r: bool)
    ensures
        r == named_in(entry@, lower_query@),
{
    let mut i: usize = 0;
    while i < entry.name_tokens.len()
        invariant
            i <= entry.name_tokens@.len(),
            forall|j: int|
                0 <= j < i ==> !token_match(lower_query@, #[trigger] entry@.name_tokens[j]),
        decreases entry.name_tokens@.len() - i,
    {
        assert(entry@.name_tokens[i as int] == entry.name_tokens@[i as int]@);
        if token_matches(lower_query, entry.name_tokens[i].as_str()) {
            return true;
        }
        i += 1;
    }
    false
}

fn find_by_vid(entries: &Vec<ManufacturerEntry>, vid: &str) -> (r: Option<ManufacturerEntry>)
    ensures
        match first_by_vid(makers_of(entries@), vid@, 0) {
            Some(maker) => r is Some && r->0@ == maker,
            None => r is None,
        },
{
    let ghost makers = makers_of(entries@);
    let mut i: usize = 0;
    while i < entries.len()
        invariant
            i <= entries@.len(),
            makers == makers_of(entries@),
            first_by_vid(makers, vid@, i as int) == first_by_vid(makers, vid@, 0),
        decreases entries@.len() - i,
    {
        assert(makers[i as int] == entries@[i as int]@);
        if holds_text(&entries[i].usb_vids, vid) {
            return Some(entries[i].clone());
        }
        i += 1;
    }
    None
}

fn find_by_name(entries: &Vec<ManufacturerEntry>, lower_query: &[char]) -> (r: Option<
    ManufacturerEntry,
>)
    ensures
        match first_by_name(makers_of(entries@), lower_query@, 0) {
            Some(maker) => r is Some && r->0@ == maker,
            None => r is None,
        },
{
    let ghost makers = makers_of(entries@);
    let mut i: usize = 0;
    while i < entries.len()
        invariant
            i <= entries@.len(),
            makers == makers_of(entries@),
            first_by_name(makers, lower_query@, i as int) == first_by_name(
                makers,
                lower_query@,
                0,
            ),
        decreases entries@.len() - i,
    {
        assert(makers[i as int] == entries@[i as int]@);
        if is_named_in(&entries[i], lower_query) {
            return Some(entries[i].clone());
        }
        i += 1;
    }
    None
}

/// Resolves a query to a manufacturer of the catalog.
pub fn resolve_manufacturer(query: &str) -> (r: ResolveResult)
    ensures
        r@ == resolution(query@),
{
    let chars = chars_of(query);
    let q = trimmed(chars.as_slice());
    let shown = text_of(q);
    if q.len() == 0 {
        return unknown_result(shown, "empty query");
    }
    let lowered = lower_chars(q);
    let entries = list_manufacturers();
    let vid = extract_vid(lowered.as_slice());
    if vid.len() == 4 {
        let text = text_of(vid.as_slice());
        if let Some(entry) = find_by_vid(&entries, text.as_str()) {
            let mut message = "matched USB VID ".to_owned();
            message.append(text.as_str());
            return ResolveResult {
                status: "ok".to_owned(),
                query: shown,
                matched_by: Some("vid".to_owned()),
                message,
                manufacturer: Some(entry),
            };
        }
    }
    match find_by_name(&entries, lowered.as_slice()) {
        Some(entry) => {
            let mut message = "matched name token for ".to_owned();
            message.append(entry.canonical_name.as_str());
            ResolveResult {
                status: "ok".to_owned(),
                query: shown,
                matched_by: Some("name_token".to_owned()),
                message,
                manufacturer: Some(entry),
            }
        },
        None => unknown_result(shown, "no catalog manufacturer matched"),
    }
}

proof fn lemma_found_by_vid(makers: Seq<Maker>, vid: Seq<char>, from: int)
    ensures
        first_by_vid(makers, vid, from) matches Some(maker) ==> makers.contains(maker)
            && maker.usb_vids.contains(vid),
    decreases makers.len() - from,
{
    if 0 <= from < makers.len() {
        if makers[from].usb_vids.contains(vid) {
            assert(makers.contains(makers[from]));
        } else {
            lemma_found_by_vid(makers, vid, from + 1);
        }
    }
}

proof fn lemma_found_by_name(makers: Seq<Maker>, lower_query: Seq<char>, from: int)
    ensures
        first_by_name(makers, lower_query, from) matches Some(maker) ==> makers.contains(maker)
            && named_in(maker, lower_query),
    decreases makers.len() - from,
{
    if 0 <= from < makers.len() {
        if named_in(makers[from], lower_query) {
            assert(makers.contains(makers[from]));
        } else {
            lemma_found_by_name(makers, lower_query, from + 1);
        }
    }
}

/// A query that is resolved names a manufacturer of the catalog, by one of its vendor numbers or
/// one of its tokens; a query that is not names none.
pub proof fn resolved_makers_are_in_the_catalog(query: Seq<char>)
    ensures
        ({
            let r = resolution(query);
            match r.manufacturer {
                Some(maker) => r.status == "ok"@ && maker_catalog().contains(maker)
                    && (maker.usb_vids.contains(vid_of(lower_all(trim(query)))) || named_in(
                    maker,
                    lower_all(trim(query)),
                )),
                None => r.status == "unknown"@,
            }
        }),
{
    let lowered = lower_all(trim(query));
    lemma_found_by_vid(maker_catalog(), vid_of(lowered), 0);
    lemma_found_by_name(maker_catalog(), lowered, 0);
}

/// A text that lacks a letter of each token of a manufacturer does not name it.
proof fn lemma_not_named(maker: Maker, query: Seq<char>, at: Seq<int>)
    requires
        at.len() == maker.name_tokens.len(),
        forall|t: int|
            0 <= t < at.len() ==> 0 <= #[trigger] at[t] < maker.name_tokens[t].len() && lacks(
                query,
                lower(maker.name_tokens[t][at[t]]),
            ),
    ensures
        !named_in(maker, query),
{
    assert forall|t: int| 0 <= t < maker.name_tokens.len() implies !token_match(
        query,
        #[trigger] maker.name_tokens[t],
    ) by {
        let word = lower_all(maker.name_tokens[t]);
        let k = at[t];
        assert(word[k] == lower(maker.name_tokens[t][k]));
        assert forall|i: int|
            0 <= i <= query.len() - word.len() implies #[trigger] query.subrange(
            i,
            i + word.len(),
        ) != word by {
            assert(query.subrange(i, i + word.len())[k] == query[i + k]);
        }
        assert forall|i: int| !#[trigger] word_at(query, word, i) by {
            if 0 <= i <= query.len() - word.len() {
                assert(query.subrange(i, i + word.len()) != word);
            }
        }
    }
}

/// A name of small letters that is itself a token of a manufacturer names it.
proof fn lemma_named(maker: Maker, name: Seq<char>, t: int)
    requires
        0 <= t < maker.name_tokens.len(),
        maker.name_tokens[t] == name,
        forall|i: int| 0 <= i < name.len() ==> 'a' <= #[trigger] name[i] <= 'z',
    ensures
        named_in(maker, name),
{
    let word = lower_all(name);
    assert(word =~= name);
    assert(name.subrange(0, word.len() as int) =~= word);
    assert(word_at(name, word, 0));
    assert(token_match(name, maker.name_tokens[t]));
}

proof fn lemma_first_by_name(makers: Seq<Maker>, query: Seq<char>, from: int, at: int)
    requires
        0 <= from <= at < makers.len(),
        named_in(makers[at], query),
        forall|i: int| 0 <= i < at ==> !named_in(#[trigger] makers[i], query),
    ensures
        first_by_name(makers, query, from) == Some(makers[at]),
    decreases at - from,
{
    if from < at {
        assert(!named_in(makers[from], query));
        lemma_first_by_name(makers, query, from + 1, at);
    }
}

proof fn lemma_first_by_vid(makers: Seq<Maker>, vid: Seq<char>, from: int, at: int)
    requires
        0 <= from <= at < makers.len(),
        makers[at].usb_vids.contains(vid),
        forall|i: int| 0 <= i < at ==> !(#[trigger] makers[i]).usb_vids.contains(vid),
    ensures
        first_by_vid(makers, vid, from) == Some(makers[at]),
    decreases at - from,
{
    if from < at {
        assert(!makers[from].usb_vids.contains(vid));
        lemma_first_by_vid(makers, vid, from + 1, at);
    }
}

/// Whether a name in small letters holds no vendor number and names the manufacturer at a place of
/// the catalog, and none before it.
spec fn is_name_of(name: Seq<char>, at: int) -> bool {
    &&& name.len() > 0
    &&& !is_space(name[0]) && !is_space(name.last())
    &&& hex_digits(name).len() < 4
    &&& lower_all(maker_catalog()[at].canonical_name) == name
    &&& named_in(maker_catalog()[at], name)
    &&& forall|i: int| 0 <= i < at ==> !named_in(#[trigger] maker_catalog()[i], name)
}

proof fn lemma_name_of_epson()
    ensures
        is_name_of("epson"@, 0),
{
    reveal(maker_catalog);
    reveal_strlit("epson");
    reveal_strlit("Epson");
    reveal_with_fuel(hex_digits, 6);
    let all = maker_catalog();
    let name = "epson"@;
    assert(lower_all(all[0].canonical_name) =~= name);
    lemma_named(all[0], name, 0);
}

proof fn lemma_name_of_canon()
    ensures
        is_name_of("canon"@, 1),
{
    reveal(maker_catalog);
    reveal_strlit("canon");
    reveal_strlit("Canon");
    reveal_strlit("epson");
    reveal_strlit("perfection");
    reveal_strlit("workforce");
    reveal_with_fuel(hex_digits, 6);
    let all = maker_catalog();
    let name = "canon"@;
    assert(lower_all(all[1].canonical_name) =~= name);
    lemma_named(all[1], name, 0);
    lemma_not_named(all[0], name, seq![0, 0, 0]);
}

proof fn lemma_name_of_hp()
    ensures
        is_name_of("hp"@, 2),
{
    reveal(maker_catalog);
    reveal_strlit("hp");
    reveal_strlit("HP");
    reveal_strlit("epson");
    reveal_strlit("perfection");
    reveal_strlit("workforce");
    reveal_strlit("canon");
    reveal_strlit("canoscan");
    reveal_strlit("pixma");
    reveal_with_fuel(hex_digits, 3);
    let all = maker_catalog();
    let name = "hp"@;
    assert(lower_all(all[2].canonical_name) =~= name);
    lemma_named(all[2], name, 0);
    lemma_not_named(all[0], name, seq![0, 1, 0]);
    lemma_not_named(all[1], name, seq![0, 0, 1]);
}

proof fn lemma_name_of_brother()
    ensures
        is_name_of("brother"@, 3),
{
    reveal(maker_catalog);
    reveal_strlit("brother");
    reveal_strlit("Brother");
    reveal_strlit("epson");
    reveal_strlit("perfection");
    reveal_strlit("workforce");
    reveal_strlit("canon");
    reveal_strlit("canoscan");
    reveal_strlit("pixma");
    reveal_strlit("hp");
    reveal_strlit("scanjet");
    reveal_strlit("officejet");
    reveal_with_fuel(hex_digits, 8);
    let all = maker_catalog();
    let name = "brother"@;
    assert(lower_all(all[3].canonical_name) =~= name);
    lemma_named(all[3], name, 0);
    lemma_not_named(all[0], name, seq![1, 0, 0]);
    lemma_not_named(all[1], name, seq![0, 0, 0]);
    lemma_not_named(all[2], name, seq![1, 0, 1]);
}

proof fn lemma_name_of_fujitsu()
    ensures
        is_name_of("fujitsu"@, 4),
{
    reveal(maker_catalog);
    reveal_strlit("fujitsu");
    reveal_strlit("Fujitsu");
    reveal_strlit("epson");
    reveal_strlit("perfection");
    reveal_strlit("workforce");
    reveal_strlit("canon");
    reveal_strlit("canoscan");
    reveal_strlit("pixma");
    reveal_strlit("hp");
    reveal_strlit("scanjet");
    reveal_strlit("officejet");
    reveal_strlit("brother");
    reveal_strlit("ads-");
    reveal_strlit("dcp-");
    reveal_with_fuel(hex_digits, 8);
    let all = maker_catalog();
    let name = "fujitsu"@;
    assert(lower_all(all[4].canonical_name) =~= name);
    lemma_named(all[4], name, 0);
    lemma_not_named(all[0], name, seq![0, 0, 0]);
    lemma_not_named(all[1], name, seq![0, 0, 0]);
    lemma_not_named(all[2], name, seq![0, 1, 0]);
    lemma_not_named(all[3], name, seq![0, 0, 0]);
}

proof fn lemma_name_of_plustek()
    ensures
        is_name_of("plustek"@, 5),
{
    reveal(maker_catalog);
    reveal_strlit("plustek");
    reveal_strlit("Plustek");
    reveal_strlit("epson");
    reveal_strlit("perfection");
    reveal_strlit("workforce");
    reveal_strlit("canon");
    reveal_strlit("canoscan");
    reveal_strlit("pixma");
    reveal_strlit("hp");
    reveal_strlit("scanjet");
    reveal_strlit("officejet");
    reveal_strlit("brother");
    reveal_strlit("ads-");
    reveal_strlit("dcp-");
    reveal_strlit("fujitsu");
    reveal_strlit("fi-");
    reveal_strlit("scansnap");
    reveal_with_fuel(hex_digits, 8);
    let all = maker_catalog();
    let name = "plustek"@;
    assert(lower_all(all[5].canonical_name) =~= name);
    lemma_named(all[5], name, 0);
    lemma_not_named(all[0], name, seq![3, 2, 0]);
    lemma_not_named(all[1], name, seq![0, 0, 1]);
    lemma_not_named(all[2], name, seq![0, 1, 0]);
    lemma_not_named(all[3], name, seq![0, 0, 0]);
    lemma_not_named(all[4], name, seq![0, 0, 1]);
}

proof fn lemma_name_of_nikon()
    ensures
        is_name_of("nikon"@, 6),
{
    reveal(maker_catalog);
    reveal_strlit("nikon");
    reveal_strlit("Nikon");
    reveal_strlit("epson");
    reveal_strlit("perfection");
    reveal_strlit("workforce");
    reveal_strlit("canon");
    reveal_strlit("canoscan");
    reveal_strlit("pixma");
    reveal_strlit("hp");
    reveal_strlit("scanjet");
    reveal_strlit("officejet");
    reveal_strlit("brother");
    reveal_strlit("ads-");
    reveal_strlit("dcp-");
    reveal_strlit("fujitsu");
    reveal_strlit("fi-");
    reveal_strlit("scansnap");
    reveal_strlit("plustek");
    reveal_strlit("opticfilm");
    reveal_with_fuel(hex_digits, 6);
    let all = maker_catalog();
    let name = "nikon"@;
    assert(lower_all(all[6].canonical_name) =~= name);
    lemma_named(all[6], name, 0);
    lemma_not_named(all[0], name, seq![0, 0, 0]);
    lemma_not_named(all[1], name, seq![0, 0, 0]);
    lemma_not_named(all[2], name, seq![0, 0, 1]);
    lemma_not_named(all[3], name, seq![0, 0, 0]);
    lemma_not_named(all[4], name, seq![0, 0, 0]);
    lemma_not_named(all[5], name, seq![0, 1]);
}

proof fn lemma_name_of_kodak()
    ensures
        is_name_of("kodak"@, 7),
{
    reveal(maker_catalog);
    reveal_strlit("kodak");
    reveal_strlit("Kodak");
    reveal_strlit("epson");
    reveal_strlit("perfection");
    reveal_strlit("workforce");
    reveal_strlit("canon");
    reveal_strlit("canoscan");
    reveal_strlit("pixma");
    reveal_strlit("hp");
    reveal_strlit("scanjet");
    reveal_strlit("officejet");
    reveal_strlit("brother");
    reveal_strlit("ads-");
    reveal_strlit("dcp-");
    reveal_strlit("fujitsu");
    reveal_strlit("fi-");
    reveal_strlit("scansnap");
    reveal_strlit("plustek");
    reveal_strlit("opticfilm");
    reveal_strlit("nikon");
    reveal_strlit("coolscan");
    reveal_with_fuel(hex_digits, 6);
    let all = maker_catalog();
    let name = "kodak"@;
    assert(lower_all(all[7].canonical_name) =~= name);
    lemma_named(all[7], name, 0);
    lemma_not_named(all[0], name, seq![0, 0, 0]);
    lemma_not_named(all[1], name, seq![0, 0, 0]);
    lemma_not_named(all[2], name, seq![0, 0, 1]);
    lemma_not_named(all[3], name, seq![0, 2, 1]);
    lemma_not_named(all[4], name, seq![0, 0, 0]);
    lemma_not_named(all[5], name, seq![0, 1]);
    lemma_not_named(all[6], name, seq![0, 0]);
}

proof fn lemma_name_of_mustek()
    ensures
        is_name_of("mustek"@, 8),
{
    reveal(maker_catalog);
    reveal_strlit("mustek");
    reveal_strlit("Mustek");
    reveal_strlit("epson");
    reveal_strlit("perfection");
    reveal_strlit("workforce");
    reveal_strlit("canon");
    reveal_strlit("canoscan");
    reveal_strlit("pixma");
    reveal_strlit("hp");
    reveal_strlit("scanjet");
    reveal_strlit("officejet");
    reveal_strlit("brother");
    reveal_strlit("ads-");
    reveal_strlit("dcp-");
    reveal_strlit("fujitsu");
    reveal_strlit("fi-");
    reveal_strlit("scansnap");
    reveal_strlit("plustek");
    reveal_strlit("opticfilm");
    reveal_strlit("nikon");
    reveal_strlit("coolscan");
    reveal_strlit("kodak");
    reveal_strlit("alaris");
    reveal_with_fuel(hex_digits, 7);
    let all = maker_catalog();
    let name = "mustek"@;
    assert(lower_all(all[8].canonical_name) =~= name);
    lemma_named(all[8], name, 0);
    lemma_not_named(all[0], name, seq![1, 0, 0]);
    lemma_not_named(all[1], name, seq![0, 0, 0]);
    lemma_not_named(all[2], name, seq![0, 1, 0]);
    lemma_not_named(all[3], name, seq![0, 0, 0]);
    lemma_not_named(all[4], name, seq![0, 0, 1]);
    lemma_not_named(all[5], name, seq![0, 0]);
    lemma_not_named(all[6], name, seq![0, 0]);
    lemma_not_named(all[7], name, seq![1, 0]);
}

proof fn lemma_name_of_samsung()
    ensures
        is_name_of("samsung"@, 9),
{
    reveal(maker_catalog);
    reveal_strlit("samsung");
    reveal_strlit("Samsung");
    reveal_strlit("epson");
    reveal_strlit("perfection");
    reveal_strlit("workforce");
    reveal_strlit("canon");
    reveal_strlit("canoscan");
    reveal_strlit("pixma");
    reveal_strlit("hp");
    reveal_strlit("scanjet");
    reveal_strlit("officejet");
    reveal_strlit("brother");
    reveal_strlit("ads-");
    reveal_strlit("dcp-");
    reveal_strlit("fujitsu");
    reveal_strlit("fi-");
    reveal_strlit("scansnap");
    reveal_strlit("plustek");
    reveal_strlit("opticfilm");
    reveal_strlit("nikon");
    reveal_strlit("coolscan");
    reveal_strlit("kodak");
    reveal_strlit("alaris");
    reveal_strlit("mustek");
    reveal_strlit("bearpaw");
    reveal_with_fuel(hex_digits, 8);
    let all = maker_catalog();
    let name = "samsung"@;
    assert(lower_all(all[9].canonical_name) =~= name);
    lemma_named(all[9], name, 0);
    lemma_not_named(all[0], name, seq![0, 0, 0]);
    lemma_not_named(all[1], name, seq![0, 0, 0]);
    lemma_not_named(all[2], name, seq![0, 1, 0]);
    lemma_not_named(all[3], name, seq![0, 1, 0]);
    lemma_not_named(all[4], name, seq![0, 0, 1]);
    lemma_not_named(all[5], name, seq![0, 0]);
    lemma_not_named(all[6], name, seq![1, 0]);
    lemma_not_named(all[7], name, seq![0, 1]);
    lemma_not_named(all[8], name, seq![3, 0]);
}

proof fn lemma_names(at: int)
    requires
        0 <= at < maker_catalog().len(),
    ensures
        is_name_of(lower_all(maker_catalog()[at].canonical_name), at),
{
    assert(maker_catalog().len() == 10) by {
        reveal(maker_catalog);
    }
    lemma_name_of_epson();
    lemma_name_of_canon();
    lemma_name_of_hp();
    lemma_name_of_brother();
    lemma_name_of_fujitsu();
    lemma_name_of_plustek();
    lemma_name_of_nikon();
    lemma_name_of_kodak();
    lemma_name_of_mustek();
    lemma_name_of_samsung();
}

/// The vendor numbers of the catalog are four hexadecimal digits in small letters each, and no two
/// manufacturers share one.
proof fn lemma_vendor_numbers(at: int, other: int)
    requires
        0 <= at < maker_catalog().len(),
        0 <= other < maker_catalog().len(),
    ensures
        maker_catalog()[at].usb_vids.len() == 1,
        maker_catalog()[at].usb_vids[0].len() == 4,
        forall|i: int| 0 <= i < 4 ==> is_hex(#[trigger] maker_catalog()[at].usb_vids[0][i]),
        at != other ==> maker_catalog()[at].usb_vids[0] != maker_catalog()[other].usb_vids[0],
{
    reveal(maker_catalog);
    reveal_strlit("04b8");
    reveal_strlit("04a9");
    reveal_strlit("03f0");
    reveal_strlit("04f9");
    reveal_strlit("04c5");
    reveal_strlit("07b3");
    reveal_strlit("04b0");
    reveal_strlit("040a");
    reveal_strlit("055f");
    reveal_strlit("04e8");
    let a = maker_catalog()[at].usb_vids[0];
    let b = maker_catalog()[other].usb_vids[0];
    assert(at != other ==> a[1] != b[1] || a[2] != b[2] || a[3] != b[3]);
}

proof fn lemma_only_hex(s: Seq<char>)
    requires
        forall|i: int| 0 <= i < s.len() ==> is_hex(#[trigger] s[i]),
    ensures
        hex_digits(s) == s,
    decreases s.len(),
{
    if s.len() > 0 {
        lemma_only_hex(s.drop_last());
        assert(s.drop_last().push(s.last()) =~= s);
    }
}

/// Every vendor number of the catalog resolves to its manufacturer, in small letters or capitals
/// and with or without surrounding white space.
pub proof fn vendor_numbers_resolve(maker: Maker, vid: Seq<char>, query: Seq<char>)
    requires
        maker_catalog().contains(maker),
        maker.usb_vids.contains(vid),
        lower_all(query) == vid || lower_all(trim(query)) == vid,
    ensures
        resolution(query).status == "ok"@,
        resolution(query).matched_by == Some("vid"@),
        resolution(query).manufacturer == Some(maker),
{
    let all = maker_catalog();
    let at = all.index_of(maker);
    lemma_vendor_numbers(at, at);
    assert(vid == maker.usb_vids[0]);
    lemma_only_hex(vid);
    if lower_all(query) == vid {
        assert(lower_all(query)[0] == lower(query[0]) && lower_all(query)[3] == lower(query[3]));
        lemma_trim_nothing(query);
    }
    assert(vid_of(vid) =~= vid);
    assert forall|i: int| 0 <= i < at implies !(#[trigger] all[i]).usb_vids.contains(vid) by {
        lemma_vendor_numbers(i, at);
    }
    lemma_first_by_vid(all, vid, 0, at);
}

/// Every canonical name of the catalog resolves to its manufacturer by a name token, in whatever
/// letters and with or without surrounding white space.
pub proof fn canonical_names_resolve(maker: Maker, query: Seq<char>)
    requires
        maker_catalog().contains(maker),
        lower_all(query) == lower_all(maker.canonical_name) || lower_all(trim(query)) == lower_all(
            maker.canonical_name,
        ),
    ensures
        resolution(query).status == "ok"@,
        resolution(query).matched_by == Some("name_token"@),
        resolution(query).manufacturer == Some(maker),
{
    let all = maker_catalog();
    let at = all.index_of(maker);
    let name = lower_all(maker.canonical_name);
    lemma_names(at);
    if lower_all(query) == name {
        let last = query.len() - 1;
        assert(name[0] == lower(query[0]) && name[last] == lower(query[last]));
        lemma_trim_nothing(query);
    }
    lemma_first_by_name(all, name, 0, at);
}

// ---------------------------------------------------------------------------
// Text
// ---------------------------------------------------------------------------

/// The first `n` texts with a comma between each two.
pub open spec fn with_commas(list: Seq<Seq<char>>, n: int) -> Seq<char>
    decreases n,
{
    if n <= 0 {
        Seq::empty()
    } else if n == 1 {
        list[0]
    } else {
        with_commas(list, n - 1) + ","@ + list[n - 1]
    }
}

/// A truth value as text.
pub open spec fn bool_text(b: bool) -> Seq<char> {
    if b {
        "true"@
    } else {
        "false"@
    }
}

/// A truth value as text.
pub fn bool_name(b: bool) -> (r: &'static str)
    ensures
        r@ == bool_text(b),
{
    if b {
        "true"
    } else {
        "false"
    }
}

/// The line of one manufacturer.
pub open spec fn maker_line(maker: Maker) -> Seq<char> {
    maker.id + "\t"@ + maker.canonical_name + "\t"@ + with_commas(
        maker.usb_vids,
        maker.usb_vids.len() as int,
    ) + "\t"@ + bool_text(maker.supports_adf) + "\t"@ + bool_text(maker.supports_ir) + "\n"@
}

/// The lines of the first `n` manufacturers below their head.
pub open spec fn maker_lines(makers: Seq<Maker>, n: int) -> Seq<char>
    decreases n,
{
    if n <= 0 {
        "# manufacturer-family hints only; verify capabilities on the selected device\n"@
            + "id\tname\tvids\tadf\tir\n"@
    } else {
        maker_lines(makers, n - 1) + maker_line(makers[n - 1])
    }
}

/// Appends texts with a comma between each two.
fn push_with_commas(out: &mut String, list: &Vec<String>)
    ensures
        final(out)@ == old(out)@ + with_commas(strings(list@), list@.len() as int),
{
    let ghost head = out@;
    let ghost all = strings(list@);
    let mut k: usize = 0;
    assert(out@ =~= head + with_commas(all, 0));
    while k < list.len()
        invariant
            k <= list@.len(),
            all == strings(list@),
            out@ == head + with_commas(all, k as int),
        decreases list@.len() - k,
    {
        assert(all[k as int] == list@[k as int]@);
        if k > 0 {
            out.append(",");
        }
        out.append(list[k].as_str());
        k += 1;
        assert(out@ =~= head + with_commas(all, k as int));
    }
}

/// Appends the line of one manufacturer.
fn push_maker_line(out: &mut String, entry: &ManufacturerEntry)
    ensures
        final(out)@ == old(out)@ + maker_line(entry@),
{
    out.append(entry.id.as_str());
    out.append("\t");
    out.append(entry.canonical_name.as_str());
    out.append("\t");
    push_with_commas(out, &entry.usb_vids);
    out.append("\t");
    out.append(bool_name(entry.profile.supports_adf));
    out.append("\t");
    out.append(bool_name(entry.profile.supports_ir));
    out.append("\n");
    assert(out@ =~= old(out)@ + maker_line(entry@));
}

/// Lists manufacturers, one to a line.
pub fn format_manufacturers_text(entries: &Vec<ManufacturerEntry>) -> (r: String)
    ensures
        r@ == maker_lines(makers_of(entries@), entries@.len() as int),
{
    let mut out =
        "# manufacturer-family hints only; verify capabilities on the selected device\n".to_owned();
    out.append("id\tname\tvids\tadf\tir\n");
    let mut i: usize = 0;
    while i < entries.len()
        invariant
            i <= entries@.len(),
            out@ == maker_lines(makers_of(entries@), i as int),
        decreases entries@.len() - i,
    {
        assert(makers_of(entries@)[i as int] == entries@[i as int]@);
        push_maker_line(&mut out, &entries[i]);
        i += 1;
    }
    out
}

/// The list of manufacturers holds a line for each of them: its id, its name, its vendor numbers with
/// commas between them, and whether it has document feeders and infrared scanners.
pub proof fn lists_show_every_manufacturer(makers: Seq<Maker>, n: int, i: int)
    requires
        0 <= i < n <= makers.len(),
    ensures
        contains_text(
            maker_lines(makers, n),
            makers[i].id + "\t"@ + makers[i].canonical_name + "\t"@ + with_commas(
                makers[i].usb_vids,
                makers[i].usb_vids.len() as int,
            ) + "\t"@ + (if makers[i].supports_adf {
                "true"@
            } else {
                "false"@
            }) + "\t"@ + (if makers[i].supports_ir {
                "true"@
            } else {
                "false"@
            }) + "\n"@,
        ),
    decreases n,
{
    let line = maker_line(makers[i]);
    let before = maker_lines(makers, n - 1);
    let last = maker_line(makers[n - 1]);
    let all = before + last;
    if i == n - 1 {
        assert(all.subrange(before.len() as int, before.len() as int + line.len()) =~= line);
    } else {
        lists_show_every_manufacturer(makers, n - 1, i);
        let k = choose|k: int|
            0 <= k <= before.len() - line.len() && #[trigger] before.subrange(k, k + line.len()) == line;
        assert(all.subrange(k, k + line.len()) =~= before.subrange(k, k + line.len()));
    }
    assert(contains_text(all, line));
}

} // verus!
